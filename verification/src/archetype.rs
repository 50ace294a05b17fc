//! An archetype stores all entities of one kind: a column per component and
//! a column of entity ids, all indexed by row, plus an arena that maps each
//! entity's id to its row. Removing an entity moves the last row into the
//! gap, so the rows stay dense and the map must follow the moved entity.

use crate::arena::{
    arena_entries, arena_get, arena_insert, arena_insert_at, arena_len, arena_new, arena_remove,
    arena_set, key_is_valid, key_slot,
};
use crate::column::Column;
use crate::query::fetch::Fetch;
use std::marker::PhantomData;
use thunderdome::Arena;
use vstd::prelude::*;

pub mod laws;

verus! {

/// The id of an entity of type `E` in an archetype: the bits of its arena
/// index (generation in the high half, slot in the low half).
pub struct EntityKey<E>(pub u64, pub PhantomData<E>);

impl<E> EntityKey<E> {
    /// A key with the given index bits.
    pub fn new_unchecked(id: u64) -> (r: Self)
        ensures
            r.0 == id,
    {
        EntityKey(id, PhantomData)
    }
}

impl<E> Clone for EntityKey<E> {
    fn clone(&self) -> (r: Self)
        ensures
            r == *self,
    {
        EntityKey(self.0, PhantomData)
    }
}

impl<E> Copy for EntityKey<E> {}

impl<E> PartialEq for EntityKey<E> {
    fn eq(&self, other: &Self) -> (r: bool) {
        self.0 == other.0
    }
}

impl<E> vstd::std_specs::cmp::PartialEqSpecImpl for EntityKey<E> {
    open spec fn obeys_eq_spec() -> bool {
        true
    }

    open spec fn eq_spec(&self, other: &Self) -> bool {
        self.0 == other.0
    }
}

impl<E> Eq for EntityKey<E> {}

/// The component columns of an archetype, seen as one sequence of entities,
/// one per row. Implementations split each entity into its components and
/// keep one column per component.
pub trait Columns: Sized {
    type Entity;

    /// The entity in each row.
    spec fn rows(&self) -> Seq<Self::Entity>;

    /// Columns with no rows.
    fn empty() -> (r: Self)
        ensures
            r.rows().len() == 0,
    ;

    /// Appends an entity as the last row.
    fn push(&mut self, entity: Self::Entity)
        ensures
            final(self).rows() == old(self).rows().push(entity),
    ;

    /// Removes row `index` by moving the last row into its place, and
    /// returns the removed entity.
    fn remove(&mut self, index: usize) -> (r: Self::Entity)
        requires
            index < old(self).rows().len(),
        ensures
            r == old(self).rows()[index as int],
            final(self).rows() == old(self).rows().update(index as int, old(self).rows().last()).drop_last(),
    ;
}

/// A single column that stores whole entities.
impl<E> Columns for Column<E> {
    type Entity = E;

    open spec fn rows(&self) -> Seq<E> {
        self@
    }

    fn empty() -> (r: Self) {
        Column::default()
    }

    fn push(&mut self, entity: E) {
        Column::push(self, entity)
    }

    fn remove(&mut self, index: usize) -> (r: E) {
        Column::remove(self, index)
    }
}

/// All entities of one kind, stored by rows.
pub struct Archetype<T: Columns> {
    indices: Arena<usize>,
    ids: Column<u64>,
    columns: T,
}

impl<T: Columns> View for Archetype<T> {
    type V = Map<u64, T::Entity>;

    /// The live entities, by id.
    closed spec fn view(&self) -> Map<u64, T::Entity> {
        Map::new(
            |k: u64| arena_entries(self.indices).contains_key(k),
            |k: u64| self.columns.rows()[arena_entries(self.indices)[k] as int],
        )
    }
}

impl<T: Columns> Archetype<T> {
    /// The id in each row.
    pub closed spec fn row_ids(&self) -> Seq<u64> {
        self.ids@
    }

    /// The entity in each row.
    pub closed spec fn rows(&self) -> Seq<T::Entity> {
        self.columns.rows()
    }

    /// Whether a live entity other than `id` sits in `id`'s arena slot.
    pub open spec fn spec_slot_taken_by_other(&self, id: u64) -> bool {
        exists|k: u64| #[trigger] self@.contains_key(k) && k != id && key_slot(k) == key_slot(id)
    }

    /// The relation between an archetype and itself after `spawn(entity)`
    /// returned `id`.
    pub open spec fn spawned(self, post: Self, id: u64, entity: T::Entity) -> bool {
        &&& !self@.contains_key(id)
        &&& forall|k: u64| #[trigger] self@.contains_key(k) ==> key_slot(k) != key_slot(id)
        &&& post@ == self@.insert(id, entity)
        &&& post.row_ids() == self.row_ids().push(id)
        &&& post.rows() == self.rows().push(entity)
    }

    /// The row that holds `id`.
    pub open spec fn row_index(&self, id: u64) -> int {
        choose|i: int| 0 <= i < self.row_ids().len() && self.row_ids()[i] == id
    }

    /// The id in each row is found in that row.
    pub proof fn lemma_row_index_of_row(&self, i: int)
        requires
            self.wf(),
            0 <= i < self.row_ids().len(),
        ensures
            self.row_index(self.row_ids()[i]) == i,
            self@.contains_key(self.row_ids()[i]),
    {
        let k = self.ids@[i];
        assert(arena_entries(self.indices).contains_key(k));
        self.lemma_row_index(k);
    }

    /// The arena maps a live id to its row.
    proof fn lemma_row_index(&self, id: u64)
        requires
            self.wf(),
            arena_entries(self.indices).contains_key(id),
        ensures
            self.row_index(id) == arena_entries(self.indices)[id] as int,
    {
        let m = arena_entries(self.indices);
        assert(0 <= m[id] < self.row_ids().len() && self.row_ids()[m[id] as int] == id);
        let i = self.row_index(id);
        assert(m.contains_key(self.ids@[i]));
    }

    /// The relation between an archetype and itself after `despawn(id)`
    /// returned `result`: the last row moves into the row of `id`.
    pub open spec fn despawned(self, post: Self, id: u64, result: Option<T::Entity>) -> bool {
        &&& post.wf()
        &&& result == (if self@.contains_key(id) {
            Some(self@[id])
        } else {
            None
        })
        &&& post@ == self@.remove(id)
        &&& if self@.contains_key(id) {
            let i = self.row_index(id);
            &&& post.row_ids() == self.row_ids().update(i, self.row_ids().last()).drop_last()
            &&& post.rows() == self.rows().update(i, self.rows().last()).drop_last()
        } else {
            &&& post.row_ids() == self.row_ids()
            &&& post.rows() == self.rows()
        }
    }

    /// The map from ids to rows and the id column are inverse to each other,
    /// and every column has a row per id.
    pub closed spec fn wf(&self) -> bool {
        let m = arena_entries(self.indices);
        let ids = self.ids@;
        &&& m.dom().finite()
        &&& m.len() == ids.len()
        &&& self.columns.rows().len() == ids.len()
        &&& forall|k: u64| #[trigger] m.contains_key(k) ==> m[k] < ids.len() && ids[m[k] as int] == k
        &&& forall|i: int| 0 <= i < ids.len() ==> m.contains_key(#[trigger] ids[i]) && m[ids[i]] == i
        &&& forall|k: u64| #[trigger] m.contains_key(k) ==> key_slot(k) < u32::MAX
        &&& forall|k1: u64, k2: u64|
            #![trigger m.contains_key(k1), m.contains_key(k2)]
            m.contains_key(k1) && m.contains_key(k2) && key_slot(k1) == key_slot(k2) ==> k1 == k2
    }

    /// No two live entities share an arena slot, so a live id is never
    /// crowded out of its slot by another.
    pub proof fn lemma_slots_unique(&self, id: u64)
        requires
            self.wf(),
            self@.contains_key(id),
        ensures
            !self.slot_taken_by_other(id),
    {
        let m = arena_entries(self.indices);
        assert forall|k: u64| #[trigger] self@.contains_key(k) && k != id implies key_slot(k)
            != key_slot(id) by {
            assert(m.contains_key(k) && m.contains_key(id));
        }
    }

    /// The ids of the live entities are those in the id column, each
    /// entity sits in the row of its id, and there are as many as rows.
    pub proof fn lemma_view(&self)
        requires
            self.wf(),
        ensures
            self@.dom().finite(),
            self@.len() == self.row_ids().len(),
            self.rows().len() == self.row_ids().len(),
            forall|i: int|
                0 <= i < self.row_ids().len() ==> self@.contains_key(#[trigger] self.row_ids()[i])
                    && self@[self.row_ids()[i]] == self.rows()[i],
            forall|k: u64|
                #[trigger] self@.contains_key(k) ==> exists|i: int|
                    0 <= i < self.row_ids().len() && self.row_ids()[i] == k,
    {
        let m = arena_entries(self.indices);
        assert(self@.dom() =~= m.dom());
        assert forall|k: u64| #[trigger] self@.contains_key(k) implies exists|i: int|
            0 <= i < self.row_ids().len() && self.row_ids()[i] == k by {
            let i = m[k] as int;
            assert(0 <= i < self.row_ids().len());
            assert(self.row_ids()[i] == k);
        }
    }

    /// Whether a live entity other than `id` sits in `id`'s arena slot: the
    /// test that `spawn_at` asks of its caller.
    #[verifier::when_used_as_spec(spec_slot_taken_by_other)]
    pub fn slot_taken_by_other(&self, id: u64) -> (r: bool)
        requires
            self.wf(),
        ensures
            r == self.spec_slot_taken_by_other(id),
    {
        proof {
            self.lemma_view();
        }
        let slot = id % 0x1_0000_0000;
        let mut i: usize = 0;
        while i < self.ids.len()
            invariant
                self.wf(),
                i <= self.row_ids().len(),
                slot == key_slot(id),
                forall|j: int|
                    0 <= j < i ==> !(self.row_ids()[j] != id && key_slot(#[trigger] self.row_ids()[j])
                        == key_slot(id)),
            decreases self.row_ids().len() - i,
        {
            let k = *self.ids.get(i);
            if k != id && k % 0x1_0000_0000 == slot {
                proof {
                    self.lemma_view();
                    assert(self@.contains_key(self.row_ids()[i as int]));
                }
                return true;
            }
            i = i + 1;
        }
        proof {
            self.lemma_view();
            assert forall|k: u64| #[trigger] self@.contains_key(k) && k != id implies key_slot(k)
                != key_slot(id) by {
                let j = choose|j: int| 0 <= j < self.row_ids().len() && self.row_ids()[j] == k;
                assert(!(self.row_ids()[j] != id && key_slot(self.row_ids()[j]) == key_slot(id)));
            }
        }
        false
    }

    /// An empty archetype.
    pub fn new() -> (r: Self)
        ensures
            r.wf(),
            r@ == Map::<u64, T::Entity>::empty(),
            r.row_ids() == Seq::<u64>::empty(),
            r.rows().len() == 0,
    {
        let r = Archetype { indices: arena_new(), ids: Column::default(), columns: T::empty() };
        proof {
            assert(r@ =~= Map::<u64, T::Entity>::empty());
        }
        r
    }

    /// The number of live entities.
    pub fn len(&self) -> (r: usize)
        requires
            self.wf(),
        ensures
            r == self@.len(),
    {
        proof {
            self.lemma_view();
            assert(self@.dom() =~= arena_entries(self.indices).dom());
        }
        arena_len(&self.indices)
    }

    /// Whether `id` names a live entity.
    pub fn contains(&self, id: EntityKey<T::Entity>) -> (r: bool)
        requires
            self.wf(),
        ensures
            r == self@.contains_key(id.0),
    {
        arena_get(&self.indices, id.0).is_some()
    }

    /// The row that holds the entity `id`, if it is live.
    pub fn row_of(&self, id: EntityKey<T::Entity>) -> (r: Option<usize>)
        requires
            self.wf(),
        ensures
            r.is_some() == self@.contains_key(id.0),
            r matches Some(i) ==> i == self.row_index(id.0) && i < self.row_ids().len()
                && self.row_ids()[i as int] == id.0 && self.rows()[i as int] == self@[id.0],
    {
        let r = arena_get(&self.indices, id.0);
        proof {
            if r.is_some() {
                self.lemma_row_index(id.0);
            }
        }
        r
    }

    /// The id column, in row order.
    pub fn ids(&self) -> (r: &Column<u64>)
        ensures
            r@ == self.row_ids(),
    {
        &self.ids
    }

    /// The component columns.
    pub fn columns(&self) -> (r: &T)
        ensures
            r.rows() == self.rows(),
    {
        &self.columns
    }

    /// Lookup by id through `fetch`, the fetch that a query found in this
    /// archetype's columns, if any.
    pub fn fetch<F: Fetch>(&self, fetch: Option<F>) -> (r: ArchetypeWorldFetch<'_, F, T>)
        requires
            self.wf(),
            fetch matches Some(f) ==> f.wf() && f.spec_len() == self.row_ids().len(),
        ensures
            r.wf(),
            r.fetch() == fetch,
            r.is_lookup_of(*self),
            r.rows_by_id() == Map::new(
                |k: u64| self@.contains_key(k),
                |k: u64| self.row_index(k) as usize,
            ),
    {
        let r = ArchetypeWorldFetch(&self.indices, fetch, PhantomData);
        proof {
            let m = arena_entries(self.indices);
            assert forall|k: u64| #[trigger] m.contains_key(k) implies m[k] == self.row_index(k) by {
                self.lemma_row_index(k);
            }
            assert(r.rows_by_id() =~= Map::new(
                |k: u64| self@.contains_key(k),
                |k: u64| self.row_index(k) as usize,
            ));
        }
        r
    }

    fn spawn_impl(&mut self, entity: T::Entity) -> (id: EntityKey<T::Entity>)
        requires
            old(self).wf(),
            old(self)@.len() < u32::MAX,
        ensures
            final(self).wf(),
            old(self).spawned(*final(self), id.0, entity),
            key_is_valid(id.0),
    {
        proof {
            self.lemma_view();
            assert(self@.dom() =~= arena_entries(self.indices).dom());
        }
        let ghost m = arena_entries(self.indices);
        let ghost ids = self.ids@;
        let index = self.ids.len();
        let bits = arena_insert(&mut self.indices, index);
        self.ids.push(bits);
        self.columns.push(entity);
        proof {
            let m1 = arena_entries(self.indices);
            assert forall|k: u64| #[trigger] m1.contains_key(k) implies m1[k] < self.ids@.len()
                && self.ids@[m1[k] as int] == k by {
                if k != bits {
                    assert(m.contains_key(k));
                }
            }
            assert forall|i: int| 0 <= i < self.ids@.len() implies m1.contains_key(
                #[trigger] self.ids@[i],
            ) && m1[self.ids@[i]] == i by {
                if i < ids.len() {
                    assert(self.ids@[i] == ids[i]);
                    assert(m.contains_key(ids[i]));
                }
            }
            assert(self@ =~= old(self)@.insert(bits, entity));
        }
        EntityKey::new_unchecked(bits)
    }

    fn spawn_at_impl(&mut self, id: EntityKey<T::Entity>, entity: T::Entity)
        requires
            old(self).wf(),
            old(self)@.len() < u32::MAX,
            key_is_valid(id.0),
            key_slot(id.0) < u32::MAX,
            !old(self)@.contains_key(id.0),
            !old(self).slot_taken_by_other(id.0),
        ensures
            final(self).wf(),
            final(self)@ == old(self)@.insert(id.0, entity),
            final(self).row_ids() == old(self).row_ids().push(id.0),
            final(self).rows() == old(self).rows().push(entity),
    {
        proof {
            self.lemma_view();
            assert(self@.dom() =~= arena_entries(self.indices).dom());
        }
        let ghost m = arena_entries(self.indices);
        let ghost ids = self.ids@;
        let index = self.ids.len();
        let bits = id.0;
        proof {
            assert forall|k: u64| #[trigger] m.contains_key(k) implies key_slot(k) != key_slot(bits) by {
                assert(self@.contains_key(k));
            }
        }
        let _ = arena_insert_at(&mut self.indices, bits, index);
        self.ids.push(bits);
        self.columns.push(entity);
        proof {
            let m1 = arena_entries(self.indices);
            assert(m1.dom() =~= m.dom().insert(bits));
            assert forall|k: u64| #[trigger] m1.contains_key(k) implies m1[k] < self.ids@.len()
                && self.ids@[m1[k] as int] == k by {
                if k != bits {
                    assert(m.contains_key(k));
                }
            }
            assert forall|i: int| 0 <= i < self.ids@.len() implies m1.contains_key(
                #[trigger] self.ids@[i],
            ) && m1[self.ids@[i]] == i by {
                if i < ids.len() {
                    assert(self.ids@[i] == ids[i]);
                    assert(m.contains_key(ids[i]));
                }
            }
            assert(self@ =~= old(self)@.insert(bits, entity));
        }
    }

    fn despawn_impl(&mut self, id: EntityKey<T::Entity>) -> (r: Option<T::Entity>)
        requires
            old(self).wf(),
        ensures
            final(self).wf(),
            old(self).despawned(*final(self), id.0, r),
    {
        let ghost m = arena_entries(self.indices);
        let ghost ids = self.ids@;
        let index = match arena_remove(&mut self.indices, id.0) {
            Some(index) => index,
            None => {
                proof {
                    assert(self@ =~= old(self)@.remove(id.0));
                }
                return None;
            },
        };
        let ghost n = ids.len();
        let ghost m1 = arena_entries(self.indices);
        proof {
            old(self).lemma_row_index(id.0);
        }
        assert(m.contains_key(id.0));
        assert(index < ids.len());
        assert(ids[index as int] == id.0);
        let row_count = self.ids.len();
        let is_last = index + 1 == row_count;
        self.ids.remove(index);
        if !is_last {
            let moved = *self.ids.get(index);
            proof {
                assert(moved == ids[n - 1]);
                assert(m.contains_key(moved));
                assert(m[moved] == n - 1);
                assert(moved != id.0);
                assert(m1.contains_key(moved));
            }
            arena_set(&mut self.indices, moved, index);
        }
        let entity = self.columns.remove(index);
        proof {
            let m2 = arena_entries(self.indices);
            let ids2 = self.ids@;
            assert(ids2.len() == n - 1);
            assert forall|k: u64| #[trigger] m2.contains_key(k) implies m2[k] < ids2.len()
                && ids2[m2[k] as int] == k by {
                assert(m.contains_key(k));
                assert(k != id.0);
                assert(m[k] != index);
                if !is_last && k == ids[n - 1] {
                } else {
                    assert(m[k] != n - 1);
                }
            }
            assert forall|i: int| 0 <= i < ids2.len() implies m2.contains_key(#[trigger] ids2[i])
                && m2[ids2[i]] == i by {
                if i == index {
                    assert(ids2[i] == ids[n - 1]);
                } else {
                    assert(ids2[i] == ids[i]);
                    assert(m.contains_key(ids[i]));
                    assert(ids[i] != id.0);
                    assert(ids[i] != ids[n - 1]);
                }
            }
            if !is_last {
                assert(m1.contains_key(ids[n - 1]));
                assert(m2.dom() =~= m1.dom());
            }
            assert forall|k: u64| #[trigger] self@.contains_key(k) implies self@[k] == old(self)@[k] by {
                assert(m.contains_key(k));
                if !is_last && k == ids[n - 1] {
                } else {
                    assert(m[k] != n - 1);
                    assert(m[k] != index);
                }
            }
            assert(self@ =~= old(self)@.remove(id.0));
        }
        Some(entity)
    }

    /// Stores `entity` under a new id and returns the id. The entity takes a
    /// new last row.
    pub fn spawn(&mut self, entity: T::Entity) -> (id: EntityKey<T::Entity>)
        requires
            old(self).wf(),
            old(self)@.len() < u32::MAX,
        ensures
            final(self).wf(),
            old(self).spawned(*final(self), id.0, entity),
            key_is_valid(id.0),
    {
        self.spawn_impl(entity)
    }

    /// Removes the entity `id`, if it is live, and returns it. The last row
    /// moves into the freed row.
    pub fn despawn(&mut self, id: EntityKey<T::Entity>) -> (r: Option<T::Entity>)
        requires
            old(self).wf(),
        ensures
            final(self).wf(),
            old(self).despawned(*final(self), id.0, r),
    {
        self.despawn_impl(id)
    }

    /// Stores `entity` under the given id, replacing and returning the entity
    /// that had this id.
    ///
    /// The id's slot must not hold another live entity (one of another
    /// generation): storing there would overwrite that entity's arena entry
    /// and leave its row with no entry that leads to it, so such an id is
    /// outside what this method accepts.
    pub fn spawn_at(&mut self, id: EntityKey<T::Entity>, entity: T::Entity) -> (r: Option<
        T::Entity,
    >)
        requires
            old(self).wf(),
            old(self)@.remove(id.0).len() < u32::MAX,
            key_is_valid(id.0),
            key_slot(id.0) < u32::MAX,
            !old(self).slot_taken_by_other(id.0),
        ensures
            final(self).wf(),
            r == (if old(self)@.contains_key(id.0) {
                Some(old(self)@[id.0])
            } else {
                None
            }),
            final(self)@ == old(self)@.insert(id.0, entity),
            final(self).row_ids() == (if old(self)@.contains_key(id.0) {
                old(self).row_ids().update(
                    old(self).row_index(id.0),
                    old(self).row_ids().last(),
                ).drop_last()
            } else {
                old(self).row_ids()
            }).push(id.0),
            final(self).rows() == (if old(self)@.contains_key(id.0) {
                old(self).rows().update(old(self).row_index(id.0), old(self).rows().last()).drop_last()
            } else {
                old(self).rows()
            }).push(entity),
    {
        let replaced = self.despawn(id);
        proof {
            assert forall|k: u64| #[trigger] self@.contains_key(k) && k != id.0 implies key_slot(k)
                != key_slot(id.0) by {
                assert(old(self)@.contains_key(k));
            }
            assert(self@.insert(id.0, entity) =~= old(self)@.insert(id.0, entity));
        }
        self.spawn_at_impl(id, entity);
        replaced
    }
}

/// Lookup of a query's items by entity id, in one archetype.
pub struct ArchetypeWorldFetch<'w, F, T>(&'w Arena<usize>, Option<F>, PhantomData<T>);

impl<'w, F: Copy, T> Clone for ArchetypeWorldFetch<'w, F, T> {
    fn clone(&self) -> (r: Self)
        ensures
            r == *self,
    {
        ArchetypeWorldFetch(self.0, self.1, PhantomData)
    }
}

impl<'w, F: Copy, T> Copy for ArchetypeWorldFetch<'w, F, T> {}

impl<'w, F: Fetch, T: Columns> ArchetypeWorldFetch<'w, F, T> {
    /// The row of each live entity, by id.
    pub closed spec fn rows_by_id(&self) -> Map<u64, usize> {
        arena_entries(*self.0)
    }

    /// The fetch that the query found in the archetype, if any.
    pub closed spec fn fetch(&self) -> Option<F> {
        self.1
    }

    /// Whether this lookup finds the entities of `archetype`: the live ids
    /// are those of the archetype, each at its row there.
    pub open spec fn is_lookup_of(&self, archetype: Archetype<T>) -> bool {
        self.rows_by_id() == Map::new(
            |k: u64| archetype@.contains_key(k),
            |k: u64| archetype.row_index(k) as usize,
        )
    }

    /// What `get` yields for the entity with id bits `id`.
    pub open spec fn item_of(&self, id: u64) -> Option<F::Item> {
        match self.fetch() {
            Some(f) => if self.rows_by_id().contains_key(id) {
                Some(f.item(self.rows_by_id()[id] as int))
            } else {
                None
            },
            None => None,
        }
    }

    /// Every live entity's row is a row of the fetch.
    pub closed spec fn wf(&self) -> bool {
        self.1 matches Some(f) ==> {
            &&& f.wf()
            &&& forall|k: u64| #[trigger]
                arena_entries(*self.0).contains_key(k) ==> arena_entries(*self.0)[k] < f.spec_len()
        }
    }

    /// The query's item for entity `id`: `None` when the archetype lacks
    /// what the query asks for or `id` names no live entity.
    pub fn get(&self, id: EntityKey<T::Entity>) -> (r: Option<F::Item>)
        requires
            self.wf(),
        ensures
            r == self.item_of(id.0),
    {
        match &self.1 {
            Some(fetch) => match arena_get(self.0, id.0) {
                Some(index) => Some(fetch.get(index)),
                None => None,
            },
            None => None,
        }
    }

    /// The fetch that the query found in the archetype, if any.
    pub fn into_fetch(self) -> (r: Option<F>)
        ensures
            r == self.fetch(),
    {
        self.1
    }

    /// The number of entities the query can reach here: all live entities
    /// when the archetype has what the query asks for, none otherwise.
    pub fn len(&self) -> (r: usize)
        ensures
            r == (if self.fetch().is_some() {
                self.rows_by_id().len()
            } else {
                0
            }),
    {
        if self.1.is_some() {
            arena_len(self.0)
        } else {
            0
        }
    }
}

impl<T: Columns> Default for Archetype<T> {
    fn default() -> (r: Self)
        ensures
            r.wf(),
            r@ == Map::<u64, T::Entity>::empty(),
    {
        Archetype::new()
    }
}

} // verus!
