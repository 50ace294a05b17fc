//! Doubly nested queries: a first query visits one entity, a second query
//! visits any other entity, and a third query may read every entity but
//! those two.

use super::fetch::Fetch;
use crate::archetype::{ArchetypeWorldFetch, Columns, EntityKey};
use vstd::prelude::*;

verus! {

/// The third query of a doubly nested triple, while the first two visit the
/// entities `ignore_ids`.
pub struct Nest1<'w, J1, T: Columns> {
    ignore_ids: [EntityKey<T::Entity>; 2],
    fetch1: ArchetypeWorldFetch<'w, J1, T>,
}

impl<'w, J1: Fetch, T: Columns> Nest1<'w, J1, T> {
    /// The entities that the first two queries visit.
    pub closed spec fn ignored(&self) -> (u64, u64) {
        (self.ignore_ids[0].0, self.ignore_ids[1].0)
    }

    /// The lookup of the third query.
    pub closed spec fn lookup(&self) -> ArchetypeWorldFetch<'w, J1, T> {
        self.fetch1
    }

    /// The third query's item for entity `id`; `None` for the entities that
    /// the first two queries visit.
    pub fn get_mut(&mut self, id: EntityKey<T::Entity>) -> (r: Option<J1::Item>)
        requires
            old(self).lookup().wf(),
        ensures
            *final(self) == *old(self),
            r == (if id.0 == old(self).ignored().0 || id.0 == old(self).ignored().1 {
                None
            } else {
                old(self).lookup().item_of(id.0)
            }),
    {
        if id == self.ignore_ids[0] || id == self.ignore_ids[1] {
            return None;
        }
        self.fetch1.get(id)
    }
}

/// The second and third queries of a doubly nested triple, while the first
/// one visits the entity `ignore_id`.
pub struct Nest2<'w, J0, J1, T: Columns> {
    ignore_id: EntityKey<T::Entity>,
    fetch0: ArchetypeWorldFetch<'w, J0, T>,
    fetch1: ArchetypeWorldFetch<'w, J1, T>,
}

impl<'w, J0: Fetch, J1: Fetch + Copy, T: Columns> Nest2<'w, J0, J1, T> {
    /// The entity that the first query visits.
    pub closed spec fn ignored(&self) -> u64 {
        self.ignore_id.0
    }

    /// The lookup of the second query.
    pub closed spec fn lookup0(&self) -> ArchetypeWorldFetch<'w, J0, T> {
        self.fetch0
    }

    /// The lookup of the third query.
    pub closed spec fn lookup1(&self) -> ArchetypeWorldFetch<'w, J1, T> {
        self.fetch1
    }

    /// The second and third queries, through the given lookups, while the
    /// first query visits `ignore_id`.
    pub fn new(
        ignore_id: EntityKey<T::Entity>,
        fetch0: ArchetypeWorldFetch<'w, J0, T>,
        fetch1: ArchetypeWorldFetch<'w, J1, T>,
    ) -> (r: Self)
        ensures
            r.ignored() == ignore_id.0,
            r.lookup0() == fetch0,
            r.lookup1() == fetch1,
    {
        Nest2 { ignore_id, fetch0, fetch1 }
    }

    /// The second query's item for entity `id`, together with the third
    /// query, which then skips both visited entities; `None` for the entity
    /// that the first query visits.
    pub fn get_mut(&mut self, id: EntityKey<T::Entity>) -> (r: Option<(J0::Item, Nest1<'w, J1, T>)>)
        requires
            old(self).lookup0().wf(),
        ensures
            *final(self) == *old(self),
            id.0 == old(self).ignored() ==> r.is_none(),
            id.0 != old(self).ignored() ==> r.is_some() == old(self).lookup0().item_of(id.0).is_some(),
            r matches Some((item, nest1)) ==> {
                &&& Some(item) == old(self).lookup0().item_of(id.0)
                &&& nest1.ignored() == (old(self).ignored(), id.0)
                &&& nest1.lookup() == old(self).lookup1()
            },
    {
        if id == self.ignore_id {
            return None;
        }
        let nest1 = Nest1 { ignore_ids: [self.ignore_id, id], fetch1: self.fetch1 };
        match self.fetch0.get(id) {
            Some(item) => Some((item, nest1)),
            None => None,
        }
    }
}

} // verus!
