use vstd::prelude::*;

use core::cmp::Ordering;

use crate::ids::{compare_ids, id_order, Id};

verus! {

/// One component value, tagged with the entity that owns it. Rows compare by
/// their entity alone: the payload is not part of a row's identity.
pub struct Row<T> {
    pub entity: Id,
    pub inner: T,
}

impl<T> Row<T> {
    pub fn new(entity: Id, inner: T) -> (r: Self)
        ensures
            r.entity == entity,
            r.inner == inner,
    {
        Row { entity, inner }
    }
}

impl<T> PartialEq for Row<T> {
    fn eq(&self, other: &Self) -> (r: bool) {
        self.entity == other.entity
    }
}

impl<T> vstd::std_specs::cmp::PartialEqSpecImpl for Row<T> {
    open spec fn obeys_eq_spec() -> bool {
        true
    }

    open spec fn eq_spec(&self, other: &Self) -> bool {
        self.entity == other.entity
    }
}

impl<T> PartialOrd for Row<T> {
    fn partial_cmp(&self, other: &Self) -> (r: Option<Ordering>) {
        Some(compare_ids(self.entity, other.entity))
    }
}

impl<T> vstd::std_specs::cmp::PartialOrdSpecImpl for Row<T> {
    open spec fn obeys_partial_cmp_spec() -> bool {
        true
    }

    open spec fn partial_cmp_spec(&self, other: &Self) -> Option<Ordering> {
        Some(id_order(self.entity, other.entity))
    }
}

/// Storage for one component kind: an append-only sequence of rows. The
/// element type is fixed when the column is made, so every access through its
/// guards is typed by that element type; an access with another type does not
/// compile.
pub struct Column<T> {
    id: Id,
    rows: Vec<Row<T>>,
}

/// Shared access to a column's rows.
pub struct ColumnReadGuard<'a, T> {
    pub id: Id,
    pub rows: &'a Vec<Row<T>>,
}

/// Exclusive access to a column's rows; rows can only be appended.
pub struct ColumnWriteGuard<'a, T> {
    pub id: Id,
    pub rows: &'a mut Vec<Row<T>>,
}

impl<T> Column<T> {
    /// The rows, in the order they were appended.
    pub closed spec fn view(&self) -> Seq<Row<T>> {
        self.rows@
    }

    pub closed spec fn spec_id(&self) -> Id {
        self.id
    }

    /// An empty column for element type `T`.
    pub fn new(id: Id) -> (r: Self)
        ensures
            r.spec_id() == id,
            r@ == Seq::<Row<T>>::empty(),
    {
        Column { id, rows: Vec::new() }
    }

    pub fn id(&self) -> (r: Id)
        ensures
            r == self.spec_id(),
    {
        self.id
    }

    /// Shared, typed access to the rows.
    pub fn read<'a>(&'a self) -> (r: Option<ColumnReadGuard<'a, T>>)
        ensures
            r.is_some(),
            r.unwrap().id == self.spec_id(),
            r.unwrap().rows@ == self@,
    {
        Some(ColumnReadGuard { id: self.id, rows: &self.rows })
    }

    /// Exclusive, typed access to the rows. What the guard leaves in its rows
    /// is what the column holds afterwards.
    pub fn write<'a>(&'a mut self) -> (r: Option<ColumnWriteGuard<'a, T>>)
        ensures
            r.is_some(),
            r.unwrap().id == old(self).spec_id(),
            r.unwrap().rows@ == old(self)@,
            final(self)@ == final(r.unwrap().rows)@,
            final(self).spec_id() == old(self).spec_id(),
    {
        Some(ColumnWriteGuard { id: self.id, rows: &mut self.rows })
    }
}

impl<T> PartialEq for Column<T> {
    fn eq(&self, other: &Self) -> (r: bool) {
        self.id == other.id
    }
}

impl<T> vstd::std_specs::cmp::PartialEqSpecImpl for Column<T> {
    open spec fn obeys_eq_spec() -> bool {
        true
    }

    open spec fn eq_spec(&self, other: &Self) -> bool {
        self.spec_id() == other.spec_id()
    }
}

impl<T> PartialOrd for Column<T> {
    fn partial_cmp(&self, other: &Self) -> (r: Option<Ordering>) {
        Some(compare_ids(self.id, other.id))
    }
}

impl<T> vstd::std_specs::cmp::PartialOrdSpecImpl for Column<T> {
    open spec fn obeys_partial_cmp_spec() -> bool {
        true
    }

    open spec fn partial_cmp_spec(&self, other: &Self) -> Option<Ordering> {
        Some(id_order(self.spec_id(), other.spec_id()))
    }
}

impl<'a, T> ColumnReadGuard<'a, T> {
    pub fn len(&self) -> (r: usize)
        ensures
            r == self.rows@.len(),
    {
        self.rows.len()
    }

    /// The row at slot `i`.
    pub fn get(&self, i: usize) -> (r: &Row<T>)
        requires
            i < self.rows@.len(),
        ensures
            *r == self.rows@[i as int],
    {
        &self.rows[i]
    }
}

impl<'a, T> ColumnWriteGuard<'a, T> {
    /// Appends a row and returns its slot: the number of rows before it.
    pub fn push(&mut self, row: Row<T>) -> (r: usize)
        requires
            old(self).rows@.len() < usize::MAX,
        ensures
            r == old(self).rows@.len(),
            final(self).id == old(self).id,
            final(self).rows@ == old(self).rows@.push(row),
            *final(final(self).rows) == *final(old(self).rows),
    {
        let n = self.rows.len();
        self.rows.push(row);
        n
    }
}

} // verus!
