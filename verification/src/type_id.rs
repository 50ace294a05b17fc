//! Type identities from `std::any`.
//!
//! Everything here is trusted: the contracts restate std's documentation and
//! are not proved.

use std::any::TypeId;
use vstd::prelude::*;

verus! {

/// `std::any::TypeId`, declared so that it can stand in fields and
/// signatures; Verus sees nothing inside it.
#[verifier::external_type_specification]
#[verifier::external_body]
pub struct ExTypeId(std::any::TypeId);

/// `TypeId::of`: the identity of type `C`. Nothing is stated of the value.
#[verifier::external_body]
pub(crate) fn type_id_of<C: ?Sized + 'static>() -> (r: TypeId) {
    TypeId::of::<C>()
}

/// `==` on `TypeId`: two type identities compare equal exactly when they are
/// the same value.
#[verifier::external_body]
pub(crate) fn type_ids_equal(a: &TypeId, b: &TypeId) -> (r: bool)
    ensures
        r == (*a == *b),
{
    *a == *b
}

} // verus!
