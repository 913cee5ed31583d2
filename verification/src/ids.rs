//! Identifiers of map objects: random (version 4) UUIDs, held by their
//! 128-bit value.

use vstd::prelude::*;

verus! {

/// Mask selecting the version nibble and the two variant bits of a UUID.
pub const VERSION_VARIANT_MASK: u128 = 0xF000_C000_0000_0000_0000u128;

/// Version nibble 4 (random) and variant `0b10` (RFC 4122), in place.
pub const RANDOM_VERSION_VARIANT: u128 = 0x4000_8000_0000_0000_0000u128;

/// The identifier carries the version and variant bits of a random UUID.
pub open spec fn is_random_uuid(id: u128) -> bool {
    id & VERSION_VARIANT_MASK == RANDOM_VERSION_VARIANT
}

/// Calls `uuid::Uuid::new_v4` and hands back the UUID's 128-bit value
/// (`Uuid::as_u128`). The crate fills all bits from its random source and then
/// forces the version nibble to 4 and the variant bits to `0b10`; that is all
/// that is claimed of the result. Nothing is claimed about uniqueness. The
/// call panics only if the operating system's random source fails.
#[verifier::external_body]
pub(crate) fn new_random_id() -> (id: u128)
    ensures
        is_random_uuid(id),
{
    uuid::Uuid::new_v4().as_u128()
}

} // verus!
