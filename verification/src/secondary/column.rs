//! A column of optional components, keyed by entity id rather than by row.

use crate::archetype::EntityKey;
use std::collections::HashMap;
use std::marker::PhantomData;
use vstd::prelude::*;

verus! {

broadcast use vstd::std_specs::hash::group_hash_axioms;

/// Components of type `C` for some of the entities of type `E`.
pub struct SecondaryColumn<E, C>(HashMap<u64, C>, PhantomData<E>);

impl<E, C> View for SecondaryColumn<E, C> {
    type V = Map<u64, C>;

    /// The component of each entity that has one, by entity id.
    closed spec fn view(&self) -> Map<u64, C> {
        self.0@
    }
}

impl<E, C> Default for SecondaryColumn<E, C> {
    fn default() -> (r: Self)
        ensures
            r@ == Map::<u64, C>::empty(),
    {
        SecondaryColumn(HashMap::new(), PhantomData)
    }
}

impl<E, C> SecondaryColumn<E, C> {
    /// A column with no components.
    pub fn new() -> (r: Self)
        ensures
            r@ == Map::<u64, C>::empty(),
    {
        Self::default()
    }

    /// The component of entity `id`, if it has one.
    pub fn get(&self, id: EntityKey<E>) -> (r: Option<&C>)
        ensures
            r.is_some() == self@.contains_key(id.0),
            r matches Some(c) ==> *c == self@[id.0],
    {
        self.0.get(&id.0)
    }

    /// Gives entity `id` the component, replacing any it had.
    pub fn insert(&mut self, id: EntityKey<E>, component: C)
        ensures
            final(self)@ == old(self)@.insert(id.0, component),
    {
        self.0.insert(id.0, component);
    }

    /// Takes the component of entity `id` away, if it has one.
    pub fn remove(&mut self, id: EntityKey<E>)
        ensures
            final(self)@ == old(self)@.remove(id.0),
    {
        self.0.remove(&id.0);
    }
}

} // verus!
