//! Generation of fresh identifiers for the entities of the hierarchy.

use vstd::prelude::*;

verus! {

/// Draws a fresh 128-bit identifier.
///
/// Relies on `uuid::Uuid::new_v4` (a version-4 UUID drawn from the process's
/// random source) and `uuid::Uuid::as_u128` (the UUID's bytes read as one
/// big-endian 128-bit integer). The value is random, so nothing is promised
/// of it; in particular two calls may or may not collide.
#[verifier::external_body]
pub(crate) fn fresh_id() -> u128 {
    uuid::Uuid::new_v4().as_u128()
}

} // verus!
