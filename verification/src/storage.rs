//! A generational store of values.
//!
//! Every value lives in a slot. Removing a value leaves the slot vacant and
//! pushes it on a free list; the next insertion takes the most recently freed
//! slot and bumps its generation, so that keys handed out for the old value
//! never become valid again.
//!
//! The count that `len` reports is not the number of live values: an
//! insertion only checks that the count could grow without overflow and
//! leaves it as it is, while a removal lowers it by one. A removal of a live
//! value therefore needs a count above zero.

use std::marker::PhantomData;
use vstd::prelude::*;

pub mod iter;
pub mod laws;

verus! {

/// What one slot of a [`Storage`] holds.
pub(crate) enum Slot<T> {
    Vacant { next_free_index: Option<usize> },
    Occupied { value: T },
}

impl<T> Slot<T> {
    /// The value of an occupied slot.
    pub(crate) open spec fn spec_value(self) -> Option<T> {
        match self {
            Slot::Occupied { value } => Some(value),
            Slot::Vacant { .. } => None,
        }
    }

    /// The link to the next vacant slot, for a vacant slot.
    pub(crate) open spec fn spec_next_free(self) -> Option<usize> {
        match self {
            Slot::Vacant { next_free_index } => next_free_index,
            Slot::Occupied { .. } => None,
        }
    }

    fn value(&self) -> (r: Option<&T>)
        ensures
            r.is_some() == self.spec_value().is_some(),
            r matches Some(v) ==> Some(*v) == self.spec_value(),
    {
        match self {
            Slot::Occupied { value } => Some(value),
            Slot::Vacant { .. } => None,
        }
    }

    fn value_mut(&mut self) -> (r: Option<&T>)
        ensures
            *final(self) == *old(self),
            r.is_some() == old(self).spec_value().is_some(),
            r matches Some(v) ==> Some(*v) == old(self).spec_value(),
    {
        match self {
            Slot::Occupied { value } => Some(value),
            Slot::Vacant { .. } => None,
        }
    }

    fn next_free_index(&self) -> (r: Option<usize>)
        ensures
            r == self.spec_next_free(),
    {
        match self {
            Slot::Vacant { next_free_index } => *next_free_index,
            Slot::Occupied { .. } => None,
        }
    }

    fn is_occupied(&self) -> (r: bool)
        ensures
            r == self.spec_value().is_some(),
    {
        match self {
            Slot::Occupied { .. } => true,
            Slot::Vacant { .. } => false,
        }
    }
}

/// A slot together with the generation of its current or last value.
pub(crate) struct Entry<T> {
    generation: usize,
    slot: Slot<T>,
}

/// A key to a value in a [`Storage`]: the slot and the generation that the
/// slot had when the value was inserted.
pub struct EntityKey<T> {
    generation: usize,
    index: usize,
    _phantom: PhantomData<T>,
}

impl<T> EntityKey<T> {
    /// The key as a pair of slot and generation.
    pub closed spec fn pair(self) -> (usize, usize) {
        (self.index, self.generation)
    }

    /// The slot that the key points to.
    pub fn index(&self) -> (r: usize)
        ensures
            r == self.pair().0,
    {
        self.index
    }

    /// The generation that the key expects the slot to have.
    pub fn generation(&self) -> (r: usize)
        ensures
            r == self.pair().1,
    {
        self.generation
    }
}

impl<T> Clone for EntityKey<T> {
    fn clone(&self) -> (r: Self)
        ensures
            r.pair() == self.pair(),
    {
        EntityKey { generation: self.generation, index: self.index, _phantom: PhantomData }
    }
}

/// A store of values addressed by generational keys.
pub struct Storage<T> {
    entries: Vec<Entry<T>>,
    first_free_index: Option<usize>,
    len: usize,
    /// The vacant slots, in the order in which insertions will reuse them.
    free: Ghost<Seq<usize>>,
    /// The live values, by slot and generation.
    contents: Ghost<Map<(usize, usize), T>>,
}

impl<T> View for Storage<T> {
    type V = Map<(usize, usize), T>;

    /// The live values, keyed by slot and generation.
    closed spec fn view(&self) -> Map<(usize, usize), T> {
        self.contents@
    }
}

impl<T> Storage<T> {
    /// The number of slots, vacant or occupied.
    pub closed spec fn slot_count(&self) -> nat {
        self.entries@.len()
    }

    /// The generation of each slot.
    pub closed spec fn generations(&self) -> Seq<usize> {
        self.entries@.map_values(|e: Entry<T>| e.generation)
    }

    /// The value in each slot, `None` for a vacant one.
    pub closed spec fn values(&self) -> Seq<Option<T>> {
        self.entries@.map_values(|e: Entry<T>| e.slot.spec_value())
    }

    /// The vacant slots, most recently freed first: the order in which
    /// insertions reuse them.
    pub closed spec fn free_order(&self) -> Seq<usize> {
        self.free@
    }

    /// The count that `len` reports: insertions leave it unchanged and every
    /// removal of a live value lowers it by one.
    pub closed spec fn spec_len(&self) -> nat {
        self.len as nat
    }

    /// Whether `key` was handed out by this storage at some time: its slot
    /// exists and has reached at least the key's generation.
    pub open spec fn issued(&self, key: (usize, usize)) -> bool {
        &&& key.0 < self.slot_count()
        &&& key.1 <= self.generations()[key.0 as int]
    }

    /// Whether `key` was handed out and its value has been removed since.
    pub open spec fn retired(&self, key: (usize, usize)) -> bool {
        self.issued(key) && !self@.contains_key(key)
    }

    /// The slot that the next insertion fills, and the generation it gets.
    pub open spec fn next_key(&self) -> (usize, usize) {
        if self.free_order().len() > 0 {
            let i = self.free_order()[0];
            (i, (self.generations()[i as int] + 1) as usize)
        } else {
            (self.slot_count() as usize, 0)
        }
    }

    /// Whether an insertion can proceed without overflowing a counter.
    pub open spec fn spec_can_insert(&self) -> bool {
        &&& self.spec_len() < usize::MAX
        &&& self.free_order().len() > 0 ==> self.generations()[self.free_order()[0] as int]
            < usize::MAX
    }

    /// The storage's internal consistency: the free list threads exactly the
    /// vacant slots, and the ghost contents match the occupied slots.
    pub closed spec fn wf(&self) -> bool {
        let free = self.free@;
        let entries = self.entries@;
        &&& free.no_duplicates()
        &&& forall|j: int|
            #![trigger free[j]]
            0 <= j < free.len() ==> {
                &&& free[j] < entries.len()
                &&& entries[free[j] as int].slot.spec_value().is_none()
                &&& entries[free[j] as int].slot.spec_next_free() == (if j + 1 < free.len() {
                    Some(free[j + 1])
                } else {
                    None
                })
            }
        &&& forall|i: int|
            0 <= i < entries.len() && (#[trigger] entries[i]).slot.spec_value().is_none()
                ==> free.contains(i as usize)
        &&& self.first_free_index == (if free.len() > 0 {
            Some(free[0])
        } else {
            None
        })
        &&& self.contents@.dom().finite()
        &&& forall|k: (usize, usize)|
            #[trigger] self.contents@.contains_key(k) <==> {
                &&& k.0 < entries.len()
                &&& entries[k.0 as int].generation == k.1
                &&& entries[k.0 as int].slot.spec_value().is_some()
            }
        &&& forall|k: (usize, usize)|
            #[trigger] self.contents@.contains_key(k) ==> entries[k.0 as int].slot.spec_value()
                == Some(self.contents@[k])
    }

    /// The relation between a storage and itself after `insert(value)`
    /// returned `key`.
    pub open spec fn inserted(self, post: Self, key: (usize, usize), value: T) -> bool {
        &&& self.can_insert()
        &&& key == self.next_key()
        &&& post@ == self@.insert(key, value)
        &&& post.spec_len() == self.spec_len()
        &&& if self.free_order().len() > 0 {
            &&& post.slot_count() == self.slot_count()
            &&& post.generations() == self.generations().update(key.0 as int, key.1)
            &&& post.values() == self.values().update(key.0 as int, Some(value))
            &&& post.free_order() == self.free_order().drop_first()
        } else {
            &&& post.slot_count() == self.slot_count() + 1
            &&& post.generations() == self.generations().push(0)
            &&& post.values() == self.values().push(Some(value))
            &&& post.free_order() == self.free_order()
        }
    }

    /// The relation between a storage and itself after `remove(key)`
    /// returned `result`.
    pub open spec fn removed(self, post: Self, key: (usize, usize), result: Option<T>) -> bool {
        if self@.contains_key(key) {
            &&& result == Some(self@[key])
            &&& post@ == self@.remove(key)
            &&& post.spec_len() == self.spec_len() - 1
            &&& post.slot_count() == self.slot_count()
            &&& post.generations() == self.generations()
            &&& post.values() == self.values().update(key.0 as int, None)
            &&& post.free_order() == seq![key.0].add(self.free_order())
        } else {
            &&& result.is_none()
            &&& post@ == self@
            &&& post.spec_len() == self.spec_len()
            &&& post.slot_count() == self.slot_count()
            &&& post.generations() == self.generations()
            &&& post.values() == self.values()
            &&& post.free_order() == self.free_order()
        }
    }

    /// A live key points at an existing slot with exactly its generation.
    pub proof fn lemma_live_is_issued(&self, key: (usize, usize))
        requires
            self.wf(),
            self@.contains_key(key),
        ensures
            key.0 < self.slot_count(),
            self.generations()[key.0 as int] == key.1,
            self.values()[key.0 as int] == Some(self@[key]),
    {
    }

    /// The key that the next insertion returns was never handed out before.
    pub proof fn lemma_next_key_is_fresh(&self)
        requires
            self.wf(),
            self.can_insert(),
        ensures
            !self.issued(self.next_key()),
            !self@.contains_key(self.next_key()),
    {
        self.lemma_wf_bounds();
        if self.free_order().len() > 0 {
            let i = self.free@[0];
            assert(self.entries@[i as int].slot.spec_value().is_none());
            assert(self.generations()[i as int] == self.entries@[i as int].generation);
        }
    }

    /// Bounds that every well-formed storage satisfies.
    pub proof fn lemma_wf_bounds(&self)
        requires
            self.wf(),
        ensures
            self.slot_count() <= usize::MAX,
            self.generations().len() == self.slot_count(),
            self.values().len() == self.slot_count(),
            forall|j: int| 0 <= j < self.free_order().len() ==> #[trigger] self.free_order()[j] < self.slot_count(),
    {
        assert(self.entries@.len() == self.entries.len());
    }

    /// A key is live exactly when its slot exists, has the key's
    /// generation and is occupied; the slot then holds the key's value.
    pub proof fn lemma_live_iff_occupied(&self, key: (usize, usize))
        requires
            self.wf(),
        ensures
            self@.contains_key(key) <==> {
                &&& key.0 < self.slot_count()
                &&& self.generations()[key.0 as int] == key.1
                &&& self.values()[key.0 as int] is Some
            },
            self@.contains_key(key) ==> self.values()[key.0 as int] == Some(self@[key]),
    {
    }

    /// Whether an insertion can proceed without overflowing a counter.
    #[verifier::when_used_as_spec(spec_can_insert)]
    pub fn can_insert(&self) -> (r: bool)
        requires
            self.wf(),
        ensures
            r == self.spec_can_insert(),
    {
        if self.len == usize::MAX {
            return false;
        }
        match self.first_free_index {
            Some(index) => {
                proof {
                    assert(self.free@[0] == index);
                    assert(index < self.entries@.len());
                }
                self.entries[index].generation < usize::MAX
            },
            None => true,
        }
    }

    /// An empty storage.
    pub fn new() -> (r: Self)
        ensures
            r.wf(),
            r@ == Map::<(usize, usize), T>::empty(),
            r.spec_len() == 0,
            r.slot_count() == 0,
            r.generations() == Seq::<usize>::empty(),
            r.values() == Seq::<Option<T>>::empty(),
            r.free_order() == Seq::<usize>::empty(),
    {
        Self::default()
    }

    /// The count: insertions leave it unchanged and every removal of a live
    /// value lowers it by one.
    pub fn len(&self) -> (r: usize)
        requires
            self.wf(),
        ensures
            r == self.spec_len(),
    {
        self.len
    }

    /// Whether the count is zero.
    pub fn is_empty(&self) -> (r: bool)
        requires
            self.wf(),
        ensures
            r == (self.spec_len() == 0),
    {
        self.len() == 0
    }

    /// The value under `key`, if it is live.
    pub fn get(&self, key: EntityKey<T>) -> (r: Option<&T>)
        requires
            self.wf(),
        ensures
            r.is_some() == self@.contains_key(key.pair()),
            r matches Some(v) ==> *v == self@[key.pair()],
            r.is_some() == {
                &&& key.pair().0 < self.slot_count()
                &&& self.generations()[key.pair().0 as int] == key.pair().1
                &&& self.values()[key.pair().0 as int] is Some
            },
            r matches Some(v) ==> self.values()[key.pair().0 as int] == Some(*v),
    {
        proof {
            self.lemma_live_iff_occupied(key.pair());
        }
        if key.index < self.entries.len() {
            let entry = &self.entries[key.index];
            if entry.generation == key.generation {
                entry.slot.value()
            } else {
                None
            }
        } else {
            None
        }
    }

    /// The value under `key`, if it is live, found through exclusive access.
    pub fn get_mut(&mut self, key: EntityKey<T>) -> (r: Option<&T>)
        requires
            old(self).wf(),
        ensures
            *final(self) == *old(self),
            r.is_some() == old(self)@.contains_key(key.pair()),
            r matches Some(v) ==> *v == old(self)@[key.pair()],
    {
        if key.index < self.entries.len() {
            let entry = &self.entries[key.index];
            if entry.generation == key.generation {
                entry.slot.value()
            } else {
                None
            }
        } else {
            None
        }
    }

    /// Whether `key` is live.
    pub fn contains_key(&self, key: EntityKey<T>) -> (r: bool)
        requires
            self.wf(),
        ensures
            r == self@.contains_key(key.pair()),
    {
        self.get(key).is_some()
    }

    /// Stores `value` and returns its key: the most recently freed slot with
    /// its generation bumped, or a new slot of generation 0.
    pub fn insert(&mut self, value: T) -> (key: EntityKey<T>)
        requires
            old(self).wf(),
            old(self).can_insert(),
        ensures
            final(self).wf(),
            old(self).inserted(*final(self), key.pair(), value),
            !old(self).issued(key.pair()),
            !old(self)@.contains_key(key.pair()),
    {
        self.len.checked_add(1).expect("Storage `len` overflowed `usize`");
        if let Some(index) = self.first_free_index {
            let ghost free = self.free@;
            let ghost old_entries = self.entries@;
            assert(free[0] == index);
            let generation = self.entries[index].generation;
            let next_free_index = self.entries[index].slot.next_free_index();
            let next_generation = generation + 1;

            self.first_free_index = next_free_index;
            self.entries.set(index, Entry { generation: next_generation, slot: Slot::Occupied { value } });
            let key = EntityKey { generation: next_generation, index, _phantom: PhantomData };
            proof {
                let k = (index, next_generation);
                assert forall|k2: (usize, usize)| self.contents@.contains_key(k2) implies k2.0 != index by {
                    assert(old_entries[k2.0 as int].slot.spec_value().is_some());
                }
                assert(!self.contents@.contains_key(k));
                self.contents@ = self.contents@.insert(k, value);
                self.free@ = free.drop_first();
                assert(free.drop_first().no_duplicates());
                assert forall|j: int| 0 <= j < free.drop_first().len() implies free.drop_first()[j] != index by {
                    assert(free[j + 1] != free[0]);
                }
                assert forall|i: int|
                    0 <= i < self.entries@.len() && (#[trigger] self.entries@[i]).slot.spec_value().is_none()
                    implies self.free@.contains(i as usize) by {
                    assert(self.entries@[index as int].slot.spec_value().is_some());
                    assert(i != index as int);
                    assert(i < self.entries.len());
                    assert(old_entries[i] == self.entries@[i]);
                    assert(free.contains(i as usize));
                    let j = choose|j: int| 0 <= j < free.len() && free[j] == i as usize;
                    assert(free[j] == i as usize);
                    assert(free[0] == index);
                    assert((i as usize) != index);
                    assert(j != 0);
                    assert(self.free@[j - 1] == i as usize);
                }
                assert(self.generations() =~= old(self).generations().update(index as int, next_generation));
                assert(self.values() =~= old(self).values().update(index as int, Some(value)));
            }
            key
        } else {
            let index = self.entries.len();
            let ghost old_entries = self.entries@;
            self.entries.push(Entry { generation: 0, slot: Slot::Occupied { value } });
            let key = EntityKey { generation: 0, index, _phantom: PhantomData };
            proof {
                let k = (index, 0usize);
                assert(!self.contents@.contains_key(k));
                self.contents@ = self.contents@.insert(k, value);
                assert forall|i: int|
                    0 <= i < self.entries@.len() && (#[trigger] self.entries@[i]).slot.spec_value().is_none()
                    implies self.free@.contains(i as usize) by {
                    assert(old_entries[i] == self.entries@[i]);
                }
                assert(self.generations() =~= old(self).generations().push(0));
                assert(self.values() =~= old(self).values().push(Some(value)));
            }
            key
        }
    }

    /// Removes and returns the value under `key`, if it is live, and puts its
    /// slot at the front of the free list. The count then drops by one, so a
    /// live key needs a count above zero.
    pub fn remove(&mut self, key: EntityKey<T>) -> (r: Option<T>)
        requires
            old(self).wf(),
            old(self)@.contains_key(key.pair()) ==> old(self).spec_len() > 0,
        ensures
            final(self).wf(),
            old(self).removed(*final(self), key.pair(), r),
    {
        if key.index >= self.entries.len() {
            return None;
        }
        if !self.entries[key.index].slot.is_occupied() {
            return None;
        }
        let generation = self.entries[key.index].generation;
        if generation != key.generation {
            return None;
        }
        let ghost free = self.free@;
        let ghost old_entries = self.entries@;
        let ghost k = (key.index, key.generation);
        assert(self.contents@.contains_key(k));

        self.len = self.len - 1;

        let next_free_index = self.first_free_index;
        self.first_free_index = Some(key.index);

        let mut vacated = Entry { generation, slot: Slot::Vacant { next_free_index } };
        self.entries.set_and_swap(key.index, &mut vacated);
        proof {
            assert(!free.contains(key.index)) by {
                if free.contains(key.index) {
                    let j = choose|j: int| 0 <= j < free.len() && free[j] == key.index;
                    assert(old_entries[free[j] as int].slot.spec_value().is_none());
                }
            }
            self.contents@ = self.contents@.remove(k);
            self.free@ = seq![key.index].add(free);
            assert forall|j: int| 0 <= j < self.free@.len() implies #[trigger] self.free@[j] < self.entries@.len()
                && self.entries@[self.free@[j] as int].slot.spec_value().is_none()
                && self.entries@[self.free@[j] as int].slot.spec_next_free() == (if j + 1 < self.free@.len() {
                    Some(self.free@[j + 1])
                } else {
                    None
                }) by {
                if j > 0 {
                    assert(self.free@[j] == free[j - 1]);
                    assert(free[j - 1] != key.index);
                }
            }
            assert(self.free@.no_duplicates()) by {
                assert forall|a: int, b: int| 0 <= a < self.free@.len() && 0 <= b < self.free@.len() && a != b
                    implies self.free@[a] != self.free@[b] by {
                    if a > 0 && b > 0 {
                        assert(free[a - 1] != free[b - 1]);
                    } else if a == 0 {
                        assert(free[b - 1] != key.index);
                    } else {
                        assert(free[a - 1] != key.index);
                    }
                }
            }
            assert forall|i: int|
                0 <= i < self.entries@.len() && (#[trigger] self.entries@[i]).slot.spec_value().is_none()
                implies self.free@.contains(i as usize) by {
                if i == key.index {
                    assert(self.free@[0] == key.index);
                } else {
                    assert(old_entries[i] == self.entries@[i]);
                    let j = choose|j: int| 0 <= j < free.len() && free[j] == i as usize;
                    assert(self.free@[j + 1] == i as usize);
                }
            }
            assert(self.generations() =~= old(self).generations());
            assert(self.values() =~= old(self).values().update(key.index as int, None));
        }
        match vacated.slot {
            Slot::Occupied { value } => Some(value),
            Slot::Vacant { .. } => None,
        }
    }
}

impl<T> Default for Storage<T> {
    fn default() -> (r: Self)
        ensures
            r.wf(),
            r@ == Map::<(usize, usize), T>::empty(),
            r.spec_len() == 0,
            r.slot_count() == 0,
            r.generations() == Seq::<usize>::empty(),
            r.values() == Seq::<Option<T>>::empty(),
            r.free_order() == Seq::<usize>::empty(),
    {
        let r = Storage {
            entries: Vec::new(),
            first_free_index: None,
            len: 0,
            free: Ghost(Seq::empty()),
            contents: Ghost(Map::empty()),
        };
        proof {
            assert(r.generations() =~= Seq::<usize>::empty());
            assert(r.values() =~= Seq::<Option<T>>::empty());
        }
        r
    }
}

} // verus!
