//! The world: all entities of a program, stored by the data structure that
//! the entity type names.

use crate::archetype::{Archetype, Columns, EntityKey};
use crate::arena::{key_is_valid, key_slot};
use vstd::prelude::*;

verus! {

/// A store of entities of one type, addressed by ids.
pub trait WorldData: Sized {
    type Entity;
    type Id;

    /// The store's internal consistency.
    spec fn wf(&self) -> bool;

    /// The live entities, by id.
    spec fn entities(&self) -> Map<Self::Id, Self::Entity>;

    /// Whether a spawn fits within the store's limits.
    spec fn can_spawn(&self) -> bool;

    /// Whether an entity can be stored under `id`.
    spec fn can_spawn_at(&self, id: Self::Id) -> bool;

    /// A store with no entities.
    fn empty() -> (r: Self)
        ensures
            r.wf(),
            r.entities() == Map::<Self::Id, Self::Entity>::empty(),
    ;

    /// Stores `entity` under a new id and returns the id.
    fn spawn(&mut self, entity: Self::Entity) -> (id: Self::Id)
        requires
            old(self).wf(),
            old(self).can_spawn(),
        ensures
            final(self).wf(),
            !old(self).entities().contains_key(id),
            final(self).entities() == old(self).entities().insert(id, entity),
    ;

    /// Removes and returns the entity `id`, if it is live.
    fn despawn(&mut self, id: Self::Id) -> (r: Option<Self::Entity>)
        requires
            old(self).wf(),
        ensures
            final(self).wf(),
            r == (if old(self).entities().contains_key(id) {
                Some(old(self).entities()[id])
            } else {
                None
            }),
            final(self).entities() == old(self).entities().remove(id),
    ;

    /// Stores `entity` under `id`, replacing and returning the entity that
    /// had this id.
    fn spawn_at(&mut self, id: Self::Id, entity: Self::Entity) -> (r: Option<Self::Entity>)
        requires
            old(self).wf(),
            old(self).can_spawn_at(id),
        ensures
            final(self).wf(),
            r == (if old(self).entities().contains_key(id) {
                Some(old(self).entities()[id])
            } else {
                None
            }),
            final(self).entities() == old(self).entities().insert(id, entity),
    ;

    /// Whether `id` names a live entity.
    fn contains(&self, id: Self::Id) -> (r: bool)
        requires
            self.wf(),
        ensures
            r == self.entities().contains_key(id),
    ;
}

/// An archetype is the store of a struct entity.
impl<T: Columns> WorldData for Archetype<T> {
    type Entity = T::Entity;
    type Id = EntityKey<T::Entity>;

    open spec fn wf(&self) -> bool {
        Archetype::wf(self)
    }

    open spec fn entities(&self) -> Map<EntityKey<T::Entity>, T::Entity> {
        Map::new(
            |k: EntityKey<T::Entity>| self@.contains_key(k.0),
            |k: EntityKey<T::Entity>| self@[k.0],
        )
    }

    open spec fn can_spawn(&self) -> bool {
        self@.len() < u32::MAX
    }

    open spec fn can_spawn_at(&self, id: EntityKey<T::Entity>) -> bool {
        &&& self@.remove(id.0).len() < u32::MAX
        &&& key_is_valid(id.0)
        &&& key_slot(id.0) < u32::MAX
        &&& !self.slot_taken_by_other(id.0)
    }

    fn empty() -> (r: Self) {
        let r = Archetype::new();
        proof {
            assert(r.entities() =~= Map::<EntityKey<T::Entity>, T::Entity>::empty());
        }
        r
    }

    fn spawn(&mut self, entity: T::Entity) -> (id: EntityKey<T::Entity>) {
        let id = Archetype::spawn(self, entity);
        proof {
            assert(self.entities() =~= old(self).entities().insert(id, entity));
        }
        id
    }

    fn despawn(&mut self, id: EntityKey<T::Entity>) -> (r: Option<T::Entity>) {
        let r = Archetype::despawn(self, id);
        proof {
            assert(self.entities() =~= old(self).entities().remove(id));
        }
        r
    }

    fn spawn_at(&mut self, id: EntityKey<T::Entity>, entity: T::Entity) -> (r: Option<T::Entity>) {
        let r = Archetype::spawn_at(self, id, entity);
        proof {
            assert(self.entities() =~= old(self).entities().insert(id, entity));
        }
        r
    }

    fn contains(&self, id: EntityKey<T::Entity>) -> (r: bool) {
        Archetype::contains(self, id)
    }
}

/// An entity type names the store that holds its entities.
pub trait Entity: Sized {
    type WorldData: WorldData<Entity = Self>;
}

/// All entities of type `E`.
pub struct World<E: Entity>(E::WorldData);

impl<E: Entity> World<E> {
    /// The live entities, by id.
    pub closed spec fn entities(&self) -> Map<<E::WorldData as WorldData>::Id, E> {
        self.0.entities()
    }

    /// The world's internal consistency.
    pub closed spec fn wf(&self) -> bool {
        self.0.wf()
    }

    /// Whether a spawn fits within the world's limits.
    pub closed spec fn can_spawn(&self) -> bool {
        self.0.can_spawn()
    }

    /// Whether an entity can be stored under `id`.
    pub closed spec fn can_spawn_at(&self, id: <E::WorldData as WorldData>::Id) -> bool {
        self.0.can_spawn_at(id)
    }

    /// A world with no entities.
    pub fn new() -> (r: Self)
        ensures
            r.wf(),
            r.entities() == Map::<<E::WorldData as WorldData>::Id, E>::empty(),
    {
        World(E::WorldData::empty())
    }

    /// Stores `entity` under a new id and returns the id.
    pub fn spawn(&mut self, entity: E) -> (id: <E::WorldData as WorldData>::Id)
        requires
            old(self).wf(),
            old(self).can_spawn(),
        ensures
            final(self).wf(),
            !old(self).entities().contains_key(id),
            final(self).entities() == old(self).entities().insert(id, entity),
    {
        self.0.spawn(entity)
    }

    /// Removes and returns the entity `id`, if it is live.
    pub fn despawn(&mut self, id: <E::WorldData as WorldData>::Id) -> (r: Option<E>)
        requires
            old(self).wf(),
        ensures
            final(self).wf(),
            r == (if old(self).entities().contains_key(id) {
                Some(old(self).entities()[id])
            } else {
                None
            }),
            final(self).entities() == old(self).entities().remove(id),
    {
        self.0.despawn(id)
    }

    /// Stores `entity` under `id`, replacing and returning the entity that
    /// had this id.
    pub fn spawn_at(&mut self, id: <E::WorldData as WorldData>::Id, entity: E) -> (r: Option<E>)
        requires
            old(self).wf(),
            old(self).can_spawn_at(id),
        ensures
            final(self).wf(),
            r == (if old(self).entities().contains_key(id) {
                Some(old(self).entities()[id])
            } else {
                None
            }),
            final(self).entities() == old(self).entities().insert(id, entity),
    {
        self.0.spawn_at(id, entity)
    }

    /// Whether `id` names a live entity.
    pub fn contains(&self, id: <E::WorldData as WorldData>::Id) -> (r: bool)
        requires
            self.wf(),
        ensures
            r == self.entities().contains_key(id),
    {
        self.0.contains(id)
    }
}

impl<E: Entity> Default for World<E> {
    fn default() -> (r: Self)
        ensures
            r.wf(),
            r.entities() == Map::<<E::WorldData as WorldData>::Id, E>::empty(),
    {
        World::new()
    }
}

} // verus!
