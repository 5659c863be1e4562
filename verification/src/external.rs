//! Identifiers and timestamps drawn from the environment.

use crate::ids::Uuid;
use vstd::prelude::*;

verus! {

/// Relies on bson::Uuid::new: a version-4 identifier drawn from the
/// operating system's randomness, split into its big-endian halves.
/// Nothing is assumed of its value.
#[verifier::external_body]
pub(crate) fn random_uuid() -> (r: Uuid) {
    let b = bson::Uuid::new().bytes();
    let hi = u64::from_be_bytes([b[0], b[1], b[2], b[3], b[4], b[5], b[6], b[7]]);
    let lo = u64::from_be_bytes([b[8], b[9], b[10], b[11], b[12], b[13], b[14], b[15]]);
    Uuid { hi, lo }
}

/// Relies on bson::DateTime::now and DateTime::timestamp_millis: the
/// current UTC instant in milliseconds. Nothing is assumed of its value.
#[verifier::external_body]
pub(crate) fn now_millis() -> (r: i64) {
    bson::DateTime::now().timestamp_millis()
}

} // verus!
