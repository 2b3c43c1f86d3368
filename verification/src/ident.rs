//! Identifiers: 128-bit values, new ones drawn at random.

use vstd::prelude::*;

verus! {

/// Whether `id` carries the version and variant marks of a random UUID.
pub open spec fn is_random_uuid(id: u128) -> bool {
    id & 0x0000_0000_0000_F000_C000_0000_0000_0000u128
        == 0x0000_0000_0000_4000_8000_0000_0000_0000u128
}

/// A new identifier, drawn at random.
pub fn new_id() -> (id: u128)
    ensures
        is_random_uuid(id),
{
    random_uuid()
}

/// `uuid::Uuid::new_v4`, read through `Uuid::as_u128`: whatever was drawn, the
/// value carries version 4 and the RFC variant.
#[verifier::external_body]
fn random_uuid() -> (id: u128)
    ensures
        is_random_uuid(id),
{
    uuid::Uuid::new_v4().as_u128()
}

} // verus!
