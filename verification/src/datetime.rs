//! Timestamp fields: the protocol sends absolute times as Unix epoch
//! integers; the date arithmetic itself lives in the `time` crate, behind
//! trusted declarations.
use vstd::prelude::*;

verus! {

#[verifier::external_type_specification]
#[verifier::external_body]
pub struct ExOffsetDateTime(time::OffsetDateTime);

/// The earliest Unix timestamp `time` represents: midnight of its minimum
/// date.
pub const MIN_UNIX_TIMESTAMP: i64 = -377705116800;

/// The latest Unix timestamp `time` represents: the last second of its
/// maximum date.
pub const MAX_UNIX_TIMESTAMP: i64 = 253402300799;

/// Relies on `time::OffsetDateTime::from_unix_timestamp`: it returns `Ok`
/// exactly when the timestamp lies within the representable date range.
#[verifier::external_body]
pub fn datetime_from_unix(timestamp: i64) -> (r: Option<time::OffsetDateTime>)
    ensures
        r is Some <==> MIN_UNIX_TIMESTAMP <= timestamp <= MAX_UNIX_TIMESTAMP,
{
    match time::OffsetDateTime::from_unix_timestamp(timestamp) {
        Ok(v) => Some(v),
        Err(_) => None,
    }
}

} // verus!
