//! Identity of Rust types, as the filters of this crate see it.
use vstd::prelude::*;

verus! {

/// `TypeId` is an opaque identifier of a Rust type.
#[verifier::external_type_specification]
#[verifier::external_body]
pub struct ExTypeId(core::any::TypeId);

/// Calls `core::any::TypeId::of::<T>()`.
///
/// Nothing is stated of the result: the identifier of a generic type cannot be named
/// in a specification, so two calls with the same `T` are not known to agree.
#[verifier::external_body]
pub(crate) fn type_id_of<T: ?Sized + 'static>() -> (id: core::any::TypeId) {
    core::any::TypeId::of::<T>()
}

/// Compares two type identifiers with `TypeId`'s `==`.
///
/// Claims that the comparison holds exactly when the two identifiers are the same value;
/// std documents `TypeId` as a globally unique identifier of a type that compares equal
/// only for the same type.
#[verifier::external_body]
pub(crate) fn type_id_eq(a: &core::any::TypeId, b: &core::any::TypeId) -> (r: bool)
    ensures
        r == (*a == *b),
{
    *a == *b
}

} // verus!
