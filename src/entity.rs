use vstd::prelude::*;

use core::cmp::Ordering;

use crate::column::{ColumnWriteGuard, Row};
use crate::ids::{compare_ids, id_order, Id};
use crate::refs::{refs_get, refs_len, refs_new, refs_of, refs_push, RefList, COMPONENT_LIMIT};

verus! {

/// Whether some reference in `refs` names column `c`.
pub open spec fn has_column(refs: Seq<(Id, usize)>, c: Id) -> bool {
    exists|i: int| 0 <= i < refs.len() && (#[trigger] refs[i]).0 == c
}

/// No column is named twice.
pub open spec fn distinct_columns(refs: Seq<(Id, usize)>) -> bool {
    forall|i: int, j: int| 0 <= i < j < refs.len() ==> (#[trigger] refs[i]).0 != (#[trigger] refs[j]).0
}

/// The slot recorded for column `c`: the first reference that names it.
pub open spec fn find_slot(refs: Seq<(Id, usize)>, c: Id) -> Option<usize>
    decreases refs.len(),
{
    if refs.len() == 0 {
        None
    } else if refs[0].0 == c {
        Some(refs[0].1)
    } else {
        find_slot(refs.drop_first(), c)
    }
}

/// Why a component could not be attached. Nothing changes when it is refused.
#[derive(Debug, Clone, Copy, PartialEq, Eq, Structural)]
pub enum AttachError {
    /// The entity already holds a component of this column.
    Duplicate,
    /// The entity already holds as many components as it can.
    CapacityExceeded,
}

/// An identifier and the places where its components live: one
/// (column id, slot index) pair per component, in the order of attachment.
pub struct Entity {
    pub id: Id,
    pub refs: RefList,
}

/// A slot is found for a column exactly when some reference names it, and the
/// slot found is one that a reference records for it.
pub proof fn lemma_find_slot_some(refs: Seq<(Id, usize)>, c: Id)
    ensures
        find_slot(refs, c).is_some() <==> has_column(refs, c),
        find_slot(refs, c).is_some() ==> exists|i: int|
            0 <= i < refs.len() && #[trigger] refs[i] == (c, find_slot(refs, c).unwrap()),
    decreases refs.len(),
{
    if refs.len() > 0 {
        lemma_find_slot_some(refs.drop_first(), c);
        if refs[0].0 != c {
            if has_column(refs, c) {
                let i = choose|i: int| 0 <= i < refs.len() && (#[trigger] refs[i]).0 == c;
                assert(refs.drop_first()[i - 1].0 == c);
            }
            if find_slot(refs, c).is_some() {
                let i = choose|i: int|
                    0 <= i < refs.len() - 1 && #[trigger] refs.drop_first()[i] == (c, find_slot(refs, c).unwrap());
                assert(refs[i + 1] == (c, find_slot(refs, c).unwrap()));
            }
        } else {
            assert(refs[0] == (c, find_slot(refs, c).unwrap()));
        }
    }
}

/// Appending a reference never changes the slot found for a column that was
/// already recorded; a column not yet recorded is found at the new reference.
pub proof fn lemma_find_slot_push(refs: Seq<(Id, usize)>, x: (Id, usize), c: Id)
    ensures
        find_slot(refs.push(x), c) == if find_slot(refs, c).is_some() {
            find_slot(refs, c)
        } else if x.0 == c {
            Some(x.1)
        } else {
            None::<usize>
        },
    decreases refs.len(),
{
    if refs.len() > 0 {
        assert(refs.push(x).drop_first() == refs.drop_first().push(x));
        lemma_find_slot_push(refs.drop_first(), x, c);
    } else {
        assert(refs.push(x).drop_first() =~= refs);
    }
}

impl Entity {
    /// The component references, in the order of attachment.
    pub closed spec fn view(&self) -> Seq<(Id, usize)> {
        refs_of(self.refs)
    }

    pub open spec fn wf(&self) -> bool {
        distinct_columns(self@) && self@.len() <= COMPONENT_LIMIT
    }

    /// An entity with no components.
    pub fn new(id: Id) -> (r: Self)
        ensures
            r.id == id,
            r@ == Seq::<(Id, usize)>::empty(),
            r.wf(),
    {
        Entity { id, refs: refs_new() }
    }

    pub fn component_count(&self) -> (r: usize)
        ensures
            r == self@.len(),
    {
        refs_len(&self.refs)
    }

    /// The `i`-th component reference: its column id and slot index.
    pub fn component_ref(&self, i: usize) -> (r: (Id, usize))
        requires
            i < self@.len(),
        ensures
            r == self@[i as int],
    {
        refs_get(&self.refs, i)
    }

    /// The slot of this entity's component in column `column_id`, if it has one.
    pub fn slot_of(&self, column_id: Id) -> (r: Option<usize>)
        ensures
            r == find_slot(self@, column_id),
    {
        let n = refs_len(&self.refs);
        let mut i: usize = 0;
        assert(self@.subrange(0, n as int) =~= self@);
        while i < n
            invariant
                n == self@.len(),
                i <= n,
                find_slot(self@, column_id) == find_slot(self@.subrange(i as int, n as int), column_id),
            decreases n - i,
        {
            let (c, s) = refs_get(&self.refs, i);
            assert(self@.subrange(i as int, n as int)[0] == self@[i as int]);
            if c == column_id {
                return Some(s);
            }
            assert(self@.subrange(i as int, n as int).drop_first() == self@.subrange(i + 1, n as int));
            i = i + 1;
        }
        None
    }

    /// Appends `component` to the column behind `column` and records its slot
    /// on this entity. Refused, with nothing changed, when the entity already
    /// has a component in that column or is full.
    pub fn add_component<T>(&mut self, column: &mut ColumnWriteGuard<T>, component: T) -> (r: Result<usize, AttachError>)
        requires
            old(self).wf(),
            old(column).rows@.len() < usize::MAX,
        ensures
            final(self).wf(),
            final(self).id == old(self).id,
            final(column).id == old(column).id,
            *final(final(column).rows) == *final(old(column).rows),
            r is Ok <==> (!has_column(old(self)@, old(column).id) && old(self)@.len() < COMPONENT_LIMIT),
            match r {
                Ok(slot) => {
                    &&& slot == old(column).rows@.len()
                    &&& final(column).rows@ == old(column).rows@.push(
                        (Row { entity: old(self).id, inner: component }),
                    )
                    &&& final(self)@ == old(self)@.push((old(column).id, slot))
                },
                Err(e) => {
                    &&& final(column).rows@ == old(column).rows@
                    &&& final(self)@ == old(self)@
                    &&& (e == AttachError::Duplicate <==> has_column(old(self)@, old(column).id))
                },
            },
    {
        let cid = column.id;
        proof {
            lemma_find_slot_some(self@, cid);
        }
        if self.slot_of(cid).is_some() {
            return Err(AttachError::Duplicate);
        }
        if refs_len(&self.refs) >= COMPONENT_LIMIT {
            return Err(AttachError::CapacityExceeded);
        }
        let slot = column.push(Row::new(self.id, component));
        refs_push(&mut self.refs, (cid, slot));
        Ok(slot)
    }
}

impl PartialEq for Entity {
    fn eq(&self, other: &Self) -> (r: bool) {
        self.id == other.id
    }
}

impl vstd::std_specs::cmp::PartialEqSpecImpl for Entity {
    open spec fn obeys_eq_spec() -> bool {
        true
    }

    open spec fn eq_spec(&self, other: &Self) -> bool {
        self.id == other.id
    }
}

impl PartialOrd for Entity {
    fn partial_cmp(&self, other: &Self) -> (r: Option<Ordering>) {
        Some(compare_ids(self.id, other.id))
    }
}

impl vstd::std_specs::cmp::PartialOrdSpecImpl for Entity {
    open spec fn obeys_partial_cmp_spec() -> bool {
        true
    }

    open spec fn partial_cmp_spec(&self, other: &Self) -> Option<Ordering> {
        Some(id_order(self.id, other.id))
    }
}

} // verus!
