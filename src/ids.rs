use vstd::prelude::*;

use core::cmp::Ordering;

verus! {

/// A 128-bit identifier, shared by entities and columns. Identifiers come
/// from an outside source that keeps them unique; the store never mints one.
pub type Id = u128;

/// How two identifiers order: by their value.
pub open spec fn id_order(a: Id, b: Id) -> Ordering {
    if a < b {
        Ordering::Less
    } else if a > b {
        Ordering::Greater
    } else {
        Ordering::Equal
    }
}

pub fn compare_ids(a: Id, b: Id) -> (r: Ordering)
    ensures
        r == id_order(a, b),
{
    if a < b {
        Ordering::Less
    } else if a > b {
        Ordering::Greater
    } else {
        Ordering::Equal
    }
}

} // verus!
