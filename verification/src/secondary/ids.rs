//! The entities that a secondary world holds, kept in a hashbrown set.

use super::world::synchronize_plan;
use crate::archetype::EntityKey;
use std::marker::PhantomData;
use vstd::prelude::*;

verus! {

/// A hashbrown set of entity ids. hashbrown's `HashSet` takes an allocator
/// parameter bounded by a trait that hashbrown does not export, so the set
/// cannot be declared to Verus as it is; it is held here, out of Verus's
/// sight, and known only through `id_set_contents` and the functions below.
#[verifier::external_body]
pub struct IdSet {
    set: hashbrown::HashSet<u64>,
}

/// The ids in an id set.
pub uninterp spec fn id_set_contents(set: IdSet) -> Set<u64>;

/// hashbrown's `HashSet::new`: a set with no ids.
#[verifier::external_body]
fn id_set_new() -> (r: IdSet)
    ensures
        id_set_contents(r) == Set::<u64>::empty(),
{
    IdSet { set: hashbrown::HashSet::new() }
}

/// hashbrown's `HashSet::contains`: whether the set holds `id`.
#[verifier::external_body]
fn id_set_contains(set: &IdSet, id: u64) -> (r: bool)
    ensures
        r == id_set_contents(*set).contains(id),
{
    set.set.contains(&id)
}

/// hashbrown's `HashSet::insert`: adds `id`, and tells whether it was not
/// there before.
#[verifier::external_body]
fn id_set_insert(set: &mut IdSet, id: u64) -> (r: bool)
    ensures
        r == !id_set_contents(*old(set)).contains(id),
        id_set_contents(*final(set)) == id_set_contents(*old(set)).insert(id),
{
    set.set.insert(id)
}

/// hashbrown's `HashSet::remove`: takes `id` out, and tells whether it was
/// there.
#[verifier::external_body]
fn id_set_remove(set: &mut IdSet, id: u64) -> (r: bool)
    ensures
        r == id_set_contents(*old(set)).contains(id),
        id_set_contents(*final(set)) == id_set_contents(*old(set)).remove(id),
{
    set.set.remove(&id)
}

/// hashbrown's `HashSet::iter`, collected: each id of the set once, in an
/// order that the set's hasher decides and that is not stated here.
#[verifier::external_body]
fn id_set_to_vec(set: &IdSet) -> (r: Vec<u64>)
    ensures
        r@.no_duplicates(),
        forall|k: u64| r@.contains(k) <==> id_set_contents(*set).contains(k),
{
    set.set.iter().copied().collect()
}

/// The entities that a secondary world holds, by id.
pub struct SecondaryIds<E>(IdSet, PhantomData<E>);

impl<E> View for SecondaryIds<E> {
    type V = Set<u64>;

    closed spec fn view(&self) -> Set<u64> {
        id_set_contents(self.0)
    }
}

impl<E> SecondaryIds<E> {
    /// No entities.
    pub fn new() -> (r: Self)
        ensures
            r@ == Set::<u64>::empty(),
    {
        SecondaryIds(id_set_new(), PhantomData)
    }

    /// Whether entity `id` is held.
    pub fn contains(&self, id: EntityKey<E>) -> (r: bool)
        ensures
            r == self@.contains(id.0),
    {
        id_set_contains(&self.0, id.0)
    }

    /// Holds entity `id`; `false` when it was already held.
    pub fn insert(&mut self, id: EntityKey<E>) -> (r: bool)
        ensures
            r == !old(self)@.contains(id.0),
            final(self)@ == old(self)@.insert(id.0),
    {
        id_set_insert(&mut self.0, id.0)
    }

    /// Stops holding entity `id`; `false` when it was not held.
    pub fn remove(&mut self, id: EntityKey<E>) -> (r: bool)
        ensures
            r == old(self)@.contains(id.0),
            final(self)@ == old(self)@.remove(id.0),
    {
        id_set_remove(&mut self.0, id.0)
    }

    /// Given the ids alive in the primary world: those alive but not held,
    /// in the order of `alive`, and those held but no longer alive, each
    /// once.
    pub fn synchronize_plan(&self, alive: &Vec<u64>) -> (r: (Vec<u64>, Vec<u64>))
        ensures
            r.0@ == alive@.filter(|k: u64| !self@.contains(k)),
            forall|k: u64| r.1@.contains(k) <==> self@.contains(k) && !alive@.contains(k),
            r.1@.no_duplicates(),
    {
        let held = id_set_to_vec(&self.0);
        let r = synchronize_plan(&held, alive);
        proof {
            let held_pred = |k: u64| !held@.contains(k);
            let self_pred = |k: u64| !self@.contains(k);
            assert(held_pred =~= self_pred);
            let alive_pred = |k: u64| !alive@.contains(k);
            assert(r.1@ == held@.filter(alive_pred));
            assert forall|k: u64| r.1@.contains(k) <==> self@.contains(k) && !alive@.contains(k) by {
                if r.1@.contains(k) {
                    let i = choose|i: int| 0 <= i < r.1@.len() && r.1@[i] == k;
                    held@.lemma_filter_pred(alive_pred, i);
                    held@.lemma_filter_contains_rev(alive_pred, k);
                }
                if self@.contains(k) && !alive@.contains(k) {
                    let i = choose|i: int| 0 <= i < held@.len() && held@[i] == k;
                    held@.lemma_filter_contains(alive_pred, i);
                }
            }
        }
        r
    }
}

/// Despawning each id of a plan's second list, from ids `held` and ids
/// `alive`, leaves exactly the held ids that are alive.
pub proof fn despawning_planned_ids_leaves_alive_ones(held: Set<u64>, alive: Seq<u64>, removed: Seq<u64>)
    requires
        forall|k: u64| removed.contains(k) <==> held.contains(k) && !alive.contains(k),
    ensures
        held.difference(removed.to_set()) == held.filter(|k: u64| alive.contains(k)),
{
    assert(held.difference(removed.to_set()) =~= held.filter(|k: u64| alive.contains(k)));
}

} // verus!
