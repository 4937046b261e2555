use vstd::prelude::*;

use crate::column::Column;
use crate::entity::{find_slot, has_column, Entity};
use crate::ids::Id;

verus! {

/// The most columns one query can name.
pub const QUERY_LIMIT: usize = 8;

/// Whether an entity with references `refs` has a component in every column of `key`.
pub open spec fn covers(refs: Seq<(Id, usize)>, key: Seq<Id>) -> bool {
    forall|k: int| 0 <= k < key.len() ==> has_column(refs, #[trigger] key[k])
}

/// The slots of an entity's components in the columns of `key`, in the order of `key`.
pub open spec fn window(refs: Seq<(Id, usize)>, key: Seq<Id>) -> Seq<usize> {
    key.map_values(|c: Id| find_slot(refs, c).unwrap())
}

/// One window per entity that covers `key`, in the order the entities were made.
pub open spec fn query_windows(ents: Seq<Seq<(Id, usize)>>, key: Seq<Id>) -> Seq<Seq<usize>>
    decreases ents.len(),
{
    if ents.len() == 0 {
        Seq::empty()
    } else {
        let prev = query_windows(ents.drop_last(), key);
        if covers(ents.last(), key) {
            prev.push(window(ents.last(), key))
        } else {
            prev
        }
    }
}

/// The windows laid end to end.
pub open spec fn flat(ws: Seq<Seq<usize>>) -> Seq<usize>
    decreases ws.len(),
{
    if ws.len() == 0 {
        Seq::empty()
    } else {
        flat(ws.drop_last()) + ws.last()
    }
}

/// The cached slots for exactly `key`, if a query for it was built.
pub open spec fn lookup(cache: Seq<(Seq<Id>, Seq<usize>)>, key: Seq<Id>) -> Option<Seq<usize>>
    decreases cache.len(),
{
    if cache.len() == 0 {
        None
    } else if cache[0].0 == key {
        Some(cache[0].1)
    } else {
        lookup(cache.drop_first(), key)
    }
}

/// The cache after a build for `key` over entities `ents`: unchanged when
/// `key` is already cached, else extended by the slots of every covering entity.
pub open spec fn build_step(
    ents: Seq<Seq<(Id, usize)>>,
    cache: Seq<(Seq<Id>, Seq<usize>)>,
    key: Seq<Id>,
) -> Seq<(Seq<Id>, Seq<usize>)> {
    if lookup(cache, key).is_some() {
        cache
    } else {
        cache.push((key, flat(query_windows(ents, key))))
    }
}

/// The component references of each entity, in the order the entities were made.
pub open spec fn refs_views(ents: Seq<Entity>) -> Seq<Seq<(Id, usize)>> {
    ents.map_values(|e: Entity| e@)
}

/// A built query: the columns it names, and for every entity that covered
/// them at build time, its slot in each column, laid end to end.
pub struct QueryEntry {
    pub key: Vec<Id>,
    pub indices: Vec<usize>,
}

/// The registry: entities, the ids of the registered columns, and the cache
/// of built queries. A built query is a snapshot: entities made and
/// components attached later do not enter it.
pub struct World {
    pub entities: Vec<Entity>,
    pub queries: Vec<QueryEntry>,
    pub components: Vec<Id>,
}

/// A view of a built query: one window of `width` slots per matching entity.
pub struct QueryCursor<'a> {
    pub indices: &'a Vec<usize>,
    pub width: usize,
}

impl<'a> QueryCursor<'a> {
    /// The number of windows.
    pub fn len(&self) -> (r: usize)
        requires
            self.width > 0,
        ensures
            r == self.indices@.len() as int / self.width as int,
    {
        self.indices.len() / self.width
    }

    /// The `i`-th window: the slots of the `i`-th matching entity.
    pub fn window(&self, i: usize) -> (r: Vec<usize>)
        requires
            self.width > 0,
            i < self.indices@.len() as int / self.width as int,
        ensures
            r@ == self.indices@.subrange(i * self.width, i * self.width + self.width),
    {
        let w = self.width;
        let len = self.indices.len();
        proof {
            let q = len as int / w as int;
            assert((i as int + 1) * (w as int) <= len as int) by (nonlinear_arith)
                requires
                    (i as int) < q,
                    q == len as int / w as int,
                    w > 0,
            {
                assert((i as int + 1) * (w as int) <= q * (w as int));
                assert(q * (w as int) <= len as int);
            }
            assert((i as int + 1) * (w as int) == i as int * w as int + w as int) by (nonlinear_arith);
        }
        let start = i * w;
        let mut r: Vec<usize> = Vec::new();
        let mut j: usize = 0;
        while j < w
            invariant
                start == i * w,
                len == self.indices@.len(),
                start + w <= len,
                j <= w,
                r@ == self.indices@.subrange(start as int, start + j),
            decreases w - j,
        {
            r.push(self.indices[start + j]);
            assert(r@ =~= self.indices@.subrange(start as int, start + j + 1));
            j = j + 1;
        }
        r
    }
}

fn same_key(a: &Vec<Id>, b: &Vec<Id>) -> (r: bool)
    ensures
        r == (a@ == b@),
{
    if a.len() != b.len() {
        return false;
    }
    let mut i: usize = 0;
    while i < a.len()
        invariant
            a@.len() == b@.len(),
            i <= a@.len(),
            forall|k: int| 0 <= k < i ==> a@[k] == b@[k],
        decreases a@.len() - i,
    {
        if a[i] != b[i] {
            return false;
        }
        i = i + 1;
    }
    assert(a@ =~= b@);
    true
}

impl World {
    pub open spec fn cache_view(&self) -> Seq<(Seq<Id>, Seq<usize>)> {
        self.queries@.map_values(|q: QueryEntry| (q.key@, q.indices@))
    }

    pub open spec fn wf(&self) -> bool {
        forall|i: int| 0 <= i < self.entities@.len() ==> (#[trigger] self.entities@[i]).wf()
    }

    /// An empty world.
    pub fn new() -> (r: Self)
        ensures
            r.entities@.len() == 0,
            r.queries@.len() == 0,
            r.components@.len() == 0,
            r.wf(),
    {
        World { entities: Vec::new(), queries: Vec::new(), components: Vec::new() }
    }

    /// Appends an entity with identifier `id` and no components, and hands it
    /// out for attaching components. Built queries are left as they are.
    pub fn new_entity(&mut self, id: Id) -> (r: &mut Entity)
        ensures
            r.id == id,
            r@ == Seq::<(Id, usize)>::empty(),
            r.wf(),
            final(self).entities@ == old(self).entities@.push(*final(r)),
            final(self).queries@ == old(self).queries@,
            final(self).components@ == old(self).components@,
    {
        self.entities.push(Entity::new(id));
        let n = self.entities.len();
        &mut self.entities[n - 1]
    }

    /// Whether a column with identifier `id` is registered.
    pub fn has_component(&self, id: Id) -> (r: bool)
        ensures
            r == self.components@.contains(id),
    {
        let mut i: usize = 0;
        while i < self.components.len()
            invariant
                i <= self.components@.len(),
                forall|k: int| 0 <= k < i ==> self.components@[k] != id,
            decreases self.components@.len() - i,
        {
            if self.components[i] == id {
                return true;
            }
            i = i + 1;
        }
        false
    }

    /// Registers a new, empty column for element type `T` under `id`.
    pub fn new_component<T>(&mut self, id: Id) -> (r: Column<T>)
        requires
            !old(self).components@.contains(id),
        ensures
            r.spec_id() == id,
            r@ == Seq::<crate::column::Row<T>>::empty(),
            final(self).components@ == old(self).components@.push(id),
            final(self).entities@ == old(self).entities@,
            final(self).queries@ == old(self).queries@,
    {
        self.components.push(id);
        Column::new(id)
    }

    /// The position in the cache of the query for exactly `key`, if built.
    fn find_query(&self, key: &Vec<Id>) -> (r: Option<usize>)
        ensures
            match r {
                Some(i) => i < self.queries@.len() && lookup(self.cache_view(), key@) == Some(
                    self.queries@[i as int].indices@,
                ),
                None => lookup(self.cache_view(), key@).is_none(),
            },
    {
        let n = self.queries.len();
        let mut i: usize = 0;
        assert(self.cache_view().subrange(0, n as int) =~= self.cache_view());
        while i < n
            invariant
                n == self.queries@.len(),
                i <= n,
                lookup(self.cache_view(), key@) == lookup(self.cache_view().subrange(i as int, n as int), key@),
            decreases n - i,
        {
            let ghost rest = self.cache_view().subrange(i as int, n as int);
            assert(rest[0] == self.cache_view()[i as int]);
            if same_key(&self.queries[i].key, key) {
                return Some(i);
            }
            assert(rest.drop_first() =~= self.cache_view().subrange(i + 1, n as int));
            i = i + 1;
        }
        None
    }

    /// The slots of `entity` in the columns of `key`, or `None` when it lacks one.
    fn window_of(entity: &Entity, key: &Vec<Id>) -> (r: Option<Vec<usize>>)
        ensures
            r.is_some() == covers(entity@, key@),
            r.is_some() ==> r.unwrap()@ == window(entity@, key@),
    {
        let mut w: Vec<usize> = Vec::new();
        let mut j: usize = 0;
        while j < key.len()
            invariant
                j <= key@.len(),
                forall|k: int| 0 <= k < j ==> has_column(entity@, #[trigger] key@[k]),
                w@ == key@.take(j as int).map_values(|c: Id| find_slot(entity@, c).unwrap()),
            decreases key@.len() - j,
        {
            let c = key[j];
            proof {
                crate::entity::lemma_find_slot_some(entity@, c);
            }
            match entity.slot_of(c) {
                Some(s) => {
                    w.push(s);
                    assert(key@.take(j + 1) =~= key@.take(j as int).push(c));
                    assert(w@ =~= key@.take(j + 1).map_values(|c: Id| find_slot(entity@, c).unwrap()));
                },
                None => {
                    return None;
                },
            }
            j = j + 1;
        }
        assert(key@.take(key@.len() as int) =~= key@);
        Some(w)
    }

    /// Builds and caches the query for `key`, unless one is cached already.
    /// Every entity that has a component in each column of `key` contributes,
    /// in the order the entities were made, its slots in the order of `key`.
    pub fn new_query(&mut self, key: &Vec<Id>)
        requires
            key@.len() <= QUERY_LIMIT,
        ensures
            final(self).entities@ == old(self).entities@,
            final(self).components@ == old(self).components@,
            final(self).cache_view() == build_step(refs_views(old(self).entities@), old(self).cache_view(), key@),
    {
        if self.find_query(key).is_some() {
            return;
        }
        let ghost ents = refs_views(self.entities@);
        let mut indices: Vec<usize> = Vec::new();
        let n = self.entities.len();
        let mut i: usize = 0;
        while i < n
            invariant
                n == self.entities@.len(),
                ents == refs_views(self.entities@),
                i <= n,
                indices@ == flat(query_windows(ents.take(i as int), key@)),
            decreases n - i,
        {
            let ghost before = ents.take(i as int);
            assert(ents.take(i + 1).drop_last() =~= before);
            assert(ents.take(i + 1).last() == self.entities@[i as int]@);
            match World::window_of(&self.entities[i], key) {
                Some(mut w) => {
                    let ghost ws = query_windows(before, key@);
                    assert(ws.push(w@).drop_last() =~= ws);
                    indices.append(&mut w);
                },
                None => {},
            }
            i = i + 1;
        }
        assert(ents.take(n as int) =~= ents);
        let entry = QueryEntry { key: key.clone(), indices };
        self.queries.push(entry);
        assert(self.cache_view() =~= old(self).cache_view().push((key@, flat(query_windows(ents, key@)))));
    }

    /// A cursor over the query built for exactly `key`, or `None` when no
    /// query for it was built. Keys match as given, order included: a query
    /// built for one order of columns is not found under another.
    pub fn query<'a>(&'a self, key: &Vec<Id>) -> (r: Option<QueryCursor<'a>>)
        requires
            key@.len() > 0,
        ensures
            r.is_some() == lookup(self.cache_view(), key@).is_some(),
            r.is_some() ==> r.unwrap().width == key@.len() && r.unwrap().indices@ == lookup(
                self.cache_view(),
                key@,
            ).unwrap(),
    {
        match self.find_query(key) {
            Some(i) => Some(QueryCursor { indices: &self.queries[i].indices, width: key.len() }),
            None => None,
        }
    }
}

} // verus!
