//! Client library for a stateful, NUL-delimited TCP trading-gateway protocol:
//! frame codec, field conversion with sentinel semantics, request/response
//! correlation, and the session handshake.
pub mod client;
pub mod codec;
pub mod correlator;
pub mod datetime;
pub mod errors;
pub mod fields;
pub mod messages;
pub mod numbers;
pub mod stub;
