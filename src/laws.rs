use vstd::prelude::*;

use crate::column::Row;
use crate::entity::{find_slot, has_column, lemma_find_slot_push, lemma_find_slot_some};
use crate::ids::Id;
use crate::world::{build_step, covers, flat, lookup, query_windows, window};

verus! {

/// After a successful attach, the slot recorded on the entity for the column
/// is the slot of the new row, and that row holds the entity and the value.
pub proof fn law_attach_then_read<T>(
    rows_before: Seq<Row<T>>,
    rows_after: Seq<Row<T>>,
    refs_before: Seq<(Id, usize)>,
    refs_after: Seq<(Id, usize)>,
    entity: Id,
    column: Id,
    value: T,
    slot: usize,
)
    requires
        !has_column(refs_before, column),
        slot == rows_before.len(),
        rows_after == rows_before.push((Row { entity, inner: value })),
        refs_after == refs_before.push((column, slot)),
    ensures
        find_slot(refs_after, column) == Some(slot),
        rows_after[slot as int].entity == entity,
        rows_after[slot as int].inner == value,
{
    lemma_find_slot_some(refs_before, column);
    lemma_find_slot_push(refs_before, (column, slot), column);
}

/// A recorded slot never moves: appending another reference to the entity
/// keeps the slot found for the column, and appending rows to the column
/// keeps the row at that slot.
pub proof fn law_slot_stable<T>(
    refs: Seq<(Id, usize)>,
    more: (Id, usize),
    column: Id,
    rows: Seq<Row<T>>,
    row: Row<T>,
)
    requires
        find_slot(refs, column).is_some(),
        (find_slot(refs, column).unwrap() as int) < rows.len(),
    ensures
        find_slot(refs.push(more), column) == find_slot(refs, column),
        rows.push(row)[find_slot(refs, column).unwrap() as int] == rows[find_slot(refs, column).unwrap() as int],
{
    lemma_find_slot_push(refs, more, column);
}

proof fn lemma_windows_width(ents: Seq<Seq<(Id, usize)>>, key: Seq<Id>)
    ensures
        forall|i: int| 0 <= i < query_windows(ents, key).len() ==> (#[trigger] query_windows(ents, key)[i]).len() == key.len(),
    decreases ents.len(),
{
    if ents.len() > 0 {
        lemma_windows_width(ents.drop_last(), key);
        let prev = query_windows(ents.drop_last(), key);
        let ws = query_windows(ents, key);
        assert(window(ents.last(), key).len() == key.len());
        assert forall|i: int| 0 <= i < ws.len() implies (#[trigger] ws[i]).len() == key.len() by {
            if i < prev.len() {
                assert(ws[i] == prev[i]);
            }
        }
    }
}

proof fn lemma_flat_chunks(ws: Seq<Seq<usize>>, w: nat)
    requires
        forall|i: int| 0 <= i < ws.len() ==> (#[trigger] ws[i]).len() == w,
    ensures
        flat(ws).len() == ws.len() * w,
        forall|i: int| 0 <= i < ws.len() ==> flat(ws).subrange(i * w, i * w + w) == #[trigger] ws[i],
    decreases ws.len(),
{
    if ws.len() > 0 {
        let prev = ws.drop_last();
        lemma_flat_chunks(prev, w);
        let a = flat(prev);
        let b = ws.last();
        assert(flat(ws) == a + b);
        assert(a.len() == prev.len() * w);
        assert(ws.len() * w == prev.len() * w + w) by (nonlinear_arith)
            requires
                prev.len() + 1 == ws.len(),
        ;
        assert forall|i: int| 0 <= i < ws.len() implies flat(ws).subrange(i * w, i * w + w) == #[trigger] ws[i] by {
            if i < prev.len() {
                assert(i * w + w <= prev.len() * w) by (nonlinear_arith)
                    requires
                        i < prev.len(),
                        0 <= i,
                ;
                assert(0 <= i * w) by (nonlinear_arith)
                    requires
                        0 <= i,
                ;
                assert(flat(ws).subrange(i * w, i * w + w) =~= a.subrange(i * w, i * w + w));
                assert(prev[i] == ws[i]);
            } else {
                assert(i * w == prev.len() * w);
                assert(flat(ws).subrange(i * w, i * w + w) =~= b);
            }
        }
    }
}

/// A built query, read in windows as wide as its key, gives one window per
/// entity that covers the key, in the order the entities were made, and each
/// window holds that entity's slots in the order of the key.
pub proof fn law_query_windows(ents: Seq<Seq<(Id, usize)>>, key: Seq<Id>, i: int)
    requires
        key.len() > 0,
        0 <= i < query_windows(ents, key).len(),
    ensures
        flat(query_windows(ents, key)).len() == query_windows(ents, key).len() * key.len(),
        flat(query_windows(ents, key)).len() as int / key.len() as int == query_windows(ents, key).len(),
        flat(query_windows(ents, key)).subrange(i * key.len(), i * key.len() + key.len())
            == query_windows(ents, key)[i],
{
    let ws = query_windows(ents, key);
    lemma_windows_width(ents, key);
    lemma_flat_chunks(ws, key.len());
    assert((ws.len() * key.len()) as int / key.len() as int == ws.len()) by (nonlinear_arith)
        requires
            key.len() > 0,
    ;
}

/// The windows of the entities with one more entity appended: those before,
/// then the new entity's window if it covers the key.
pub proof fn law_query_windows_push(ents: Seq<Seq<(Id, usize)>>, e: Seq<(Id, usize)>, key: Seq<Id>)
    ensures
        query_windows(ents.push(e), key) == if covers(e, key) {
            query_windows(ents, key).push(window(e, key))
        } else {
            query_windows(ents, key)
        },
{
    assert(ents.push(e).drop_last() =~= ents);
}

proof fn lemma_lookup_push(cache: Seq<(Seq<Id>, Seq<usize>)>, key: Seq<Id>, v: Seq<usize>)
    requires
        lookup(cache, key).is_none(),
    ensures
        lookup(cache.push((key, v)), key) == Some(v),
    decreases cache.len(),
{
    if cache.len() > 0 {
        assert(cache.push((key, v)).drop_first() =~= cache.drop_first().push((key, v)));
        lemma_lookup_push(cache.drop_first(), key, v);
    } else {
        assert(cache.push((key, v))[0] == (key, v));
    }
}

/// Building a query caches it: afterwards the cache answers for the key with
/// the slots of the entities as they stood at the build.
pub proof fn law_build_caches(ents: Seq<Seq<(Id, usize)>>, cache: Seq<(Seq<Id>, Seq<usize>)>, key: Seq<Id>)
    requires
        lookup(cache, key).is_none(),
    ensures
        lookup(build_step(ents, cache, key), key) == Some(flat(query_windows(ents, key))),
{
    lemma_lookup_push(cache, key, flat(query_windows(ents, key)));
}

/// Building the same query twice in a row gives the cache of the first build.
pub proof fn law_build_idempotent(ents: Seq<Seq<(Id, usize)>>, cache: Seq<(Seq<Id>, Seq<usize>)>, key: Seq<Id>)
    ensures
        build_step(ents, build_step(ents, cache, key), key) == build_step(ents, cache, key),
{
    if lookup(cache, key).is_none() {
        law_build_caches(ents, cache, key);
    }
}

/// A built query is a snapshot. Whatever entities and components exist at a
/// later build for the same key, the cache keeps the slots of the first
/// build; an entity made afterwards that covers the key is not among them.
pub proof fn law_cache_is_snapshot(
    ents: Seq<Seq<(Id, usize)>>,
    later: Seq<Seq<(Id, usize)>>,
    cache: Seq<(Seq<Id>, Seq<usize>)>,
    key: Seq<Id>,
    e: Seq<(Id, usize)>,
)
    requires
        lookup(cache, key).is_none(),
    ensures
        build_step(later, build_step(ents, cache, key), key) == build_step(ents, cache, key),
        lookup(build_step(later, build_step(ents, cache, key), key), key) == Some(flat(query_windows(ents, key))),
        covers(e, key) && key.len() > 0 ==> flat(query_windows(ents, key)).len() < flat(
            query_windows(ents.push(e), key),
        ).len(),
{
    law_build_caches(ents, cache, key);
    law_query_windows_push(ents, e, key);
    if covers(e, key) && key.len() > 0 {
        let ws = query_windows(ents, key);
        assert(ws.push(window(e, key)).drop_last() =~= ws);
        assert(flat(ws.push(window(e, key))) == flat(ws) + window(e, key));
    }
}

/// Every slot that an entity records for column `column` holds a row of
/// `rows`, and that row belongs to the entity. Entities are given as their
/// identifier and their component references.
pub open spec fn column_consistent<T>(
    ents: Seq<(Id, Seq<(Id, usize)>)>,
    column: Id,
    rows: Seq<Row<T>>,
) -> bool {
    forall|i: int|
        0 <= i < ents.len() && (#[trigger] find_slot(ents[i].1, column)).is_some() ==> {
            &&& (find_slot(ents[i].1, column).unwrap() as int) < rows.len()
            &&& rows[find_slot(ents[i].1, column).unwrap() as int].entity == ents[i].0
        }
}

/// A new entity, with no components, keeps every column consistent.
pub proof fn law_new_entity_consistent<T>(
    ents: Seq<(Id, Seq<(Id, usize)>)>,
    id: Id,
    column: Id,
    rows: Seq<Row<T>>,
)
    requires
        column_consistent(ents, column, rows),
    ensures
        column_consistent(ents.push((id, Seq::<(Id, usize)>::empty())), column, rows),
{
    let after = ents.push((id, Seq::<(Id, usize)>::empty()));
    assert forall|i: int|
        0 <= i < after.len() && (#[trigger] find_slot(after[i].1, column)).is_some() implies {
            &&& (find_slot(after[i].1, column).unwrap() as int) < rows.len()
            &&& rows[find_slot(after[i].1, column).unwrap() as int].entity == after[i].0
        } by {
        if i < ents.len() {
            assert(after[i] == ents[i]);
        }
    }
}

/// Attaching a value for entity `k` to column `column` keeps that column
/// consistent, with the new row appended, and keeps every other column
/// consistent, with its rows unchanged.
pub proof fn law_attach_consistent<T>(
    ents: Seq<(Id, Seq<(Id, usize)>)>,
    k: int,
    column: Id,
    rows: Seq<Row<T>>,
    value: T,
    other: Id,
    other_rows: Seq<Row<T>>,
)
    requires
        0 <= k < ents.len(),
        rows.len() < usize::MAX,
        !has_column(ents[k].1, column),
        column_consistent(ents, column, rows),
        other != column,
        column_consistent(ents, other, other_rows),
    ensures
        column_consistent(
            ents.update(k, (ents[k].0, ents[k].1.push((column, rows.len() as usize)))),
            column,
            rows.push((Row { entity: ents[k].0, inner: value })),
        ),
        column_consistent(
            ents.update(k, (ents[k].0, ents[k].1.push((column, rows.len() as usize)))),
            other,
            other_rows,
        ),
{
    let slot = rows.len() as usize;
    let after = ents.update(k, (ents[k].0, ents[k].1.push((column, slot))));
    let rows2 = rows.push((Row { entity: ents[k].0, inner: value }));
    lemma_find_slot_some(ents[k].1, column);
    lemma_find_slot_push(ents[k].1, (column, slot), column);
    lemma_find_slot_push(ents[k].1, (column, slot), other);
    assert forall|i: int|
        0 <= i < after.len() && (#[trigger] find_slot(after[i].1, column)).is_some() implies {
            &&& (find_slot(after[i].1, column).unwrap() as int) < rows2.len()
            &&& rows2[find_slot(after[i].1, column).unwrap() as int].entity == after[i].0
        } by {
        if i != k {
            assert(after[i] == ents[i]);
            assert(find_slot(ents[i].1, column).is_some());
        } else {
            assert(after[k].1 == ents[k].1.push((column, slot)));
        }
    }
    assert forall|i: int|
        0 <= i < after.len() && (#[trigger] find_slot(after[i].1, other)).is_some() implies {
            &&& (find_slot(after[i].1, other).unwrap() as int) < other_rows.len()
            &&& other_rows[find_slot(after[i].1, other).unwrap() as int].entity == after[i].0
        } by {
        if i != k {
            assert(after[i] == ents[i]);
        } else {
            assert(after[k].1 == ents[k].1.push((column, slot)));
        }
        assert(find_slot(ents[i].1, other).is_some());
    }
}

} // verus!
