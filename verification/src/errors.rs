use vstd::prelude::*;

verus! {

/// Error taxonomy of the transport layer.
///
/// Parse errors are scoped to the single accessor call that raised them and
/// carry the cursor position and the raw field text. Capability errors are
/// raised before anything is written to the transport. Transport errors are
/// fatal to the whole connection.
#[derive(Debug, Clone, PartialEq, Eq)]
pub enum IbError {
    /// A field failed to parse as its expected type.
    Parse { index: usize, text: String },
    /// The caller asked for a feature the negotiated server version lacks.
    Capability { required: i32, actual: i32, context: String },
    /// The duplex channel failed or was closed.
    Transport,
    /// The handshake reply lacked a parsable version field or a time field.
    Handshake,
    /// The frame's message type carries no correlation id.
    NoRequestId,
    /// The field held a Unix timestamp outside the representable date range.
    TimestampOutOfRange { index: usize, text: String },
}

} // verus!
