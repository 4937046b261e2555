use vstd::prelude::*;

use crate::ids::Id;

verus! {

/// The most components one entity can hold.
pub const COMPONENT_LIMIT: usize = 16;

#[verifier::external_type_specification]
#[verifier::external_body]
#[verifier::reject_recursive_types(T)]
pub struct ExArrayVec<T, const CAP: usize>(arrayvec::ArrayVec<T, CAP>);

/// An entity's component references: (column id, slot index) pairs.
pub type RefList = arrayvec::ArrayVec<(Id, usize), COMPONENT_LIMIT>;

/// What a reference list holds, in order.
pub uninterp spec fn refs_of(v: arrayvec::ArrayVec<(Id, usize), 16>) -> Seq<(Id, usize)>;

/// Relies on arrayvec::ArrayVec::new: the new vector is empty.
#[verifier::external_body]
pub(crate) fn refs_new() -> (r: RefList)
    ensures
        refs_of(r) == Seq::<(Id, usize)>::empty(),
{
    arrayvec::ArrayVec::new()
}

/// Relies on arrayvec::ArrayVec::len: the number of elements, never above the capacity.
#[verifier::external_body]
pub(crate) fn refs_len(v: &RefList) -> (r: usize)
    ensures
        r == refs_of(*v).len(),
        r <= COMPONENT_LIMIT,
{
    v.len()
}

/// Relies on arrayvec::ArrayVec::push: appends at the end; it panics only when full.
#[verifier::external_body]
pub(crate) fn refs_push(v: &mut RefList, x: (Id, usize))
    requires
        refs_of(*old(v)).len() < COMPONENT_LIMIT,
    ensures
        refs_of(*final(v)) == refs_of(*old(v)).push(x),
{
    v.push(x)
}

/// Relies on indexing through arrayvec::ArrayVec::as_slice: the element at `i`.
#[verifier::external_body]
pub(crate) fn refs_get(v: &RefList, i: usize) -> (r: (Id, usize))
    requires
        i < refs_of(*v).len(),
    ensures
        r == refs_of(*v)[i as int],
{
    v.as_slice()[i]
}

} // verus!
