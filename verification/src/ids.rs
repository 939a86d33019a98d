//! Fresh identifiers for new nodes.

use vstd::prelude::*;

verus! {

/// The bits that every version 4 identifier has in common: the version
/// nibble is 4 and the two variant bits are `10`.
pub open spec fn is_random_id(id: u128) -> bool {
    id & 0x0000_0000_0000_f000_c000_0000_0000_0000 == 0x0000_0000_0000_4000_8000_0000_0000_0000
}

/// Draws a random identifier. Calls `uuid::Uuid::new_v4` and returns its
/// 128 bits as `uuid::Uuid::as_u128` packs them. Which identifier comes
/// back is up to chance; only its version and variant bits are known.
#[verifier::external_body]
pub(crate) fn new_id() -> (id: u128)
    ensures
        is_random_id(id),
{
    uuid::Uuid::new_v4().as_u128()
}

} // verus!
