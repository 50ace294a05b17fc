//! Checks that the component borrows of a query respect Rust's rules: a
//! component is borrowed either exclusively once, or shared any number of
//! times.

use crate::type_id::{type_id_of, type_ids_equal};
use std::any::TypeId;
use vstd::prelude::*;

verus! {

/// Why a borrow was refused.
#[derive(Debug, Clone, Copy, PartialEq, Eq, Structural)]
pub enum BorrowConflict {
    /// The component is borrowed both exclusively and shared.
    ExclusiveAndShared,
    /// The component is borrowed exclusively twice.
    ExclusiveAndExclusive,
}

/// The components that a query borrows so far, shared and exclusive.
#[derive(Debug, Clone)]
pub struct BorrowChecker {
    query: &'static str,
    shared_refs: Vec<TypeId>,
    exclusive_refs: Vec<TypeId>,
}

/// Whether `id` occurs in `ids`.
fn contains_id(ids: &Vec<TypeId>, id: &TypeId) -> (r: bool)
    ensures
        r == ids@.contains(*id),
{
    let mut i: usize = 0;
    while i < ids.len()
        invariant
            i <= ids@.len(),
            forall|j: int| 0 <= j < i ==> ids@[j] != *id,
        decreases ids@.len() - i,
    {
        if type_ids_equal(&ids[i], id) {
            return true;
        }
        i = i + 1;
    }
    false
}

impl BorrowChecker {
    /// The components borrowed shared.
    pub closed spec fn shared(&self) -> Set<TypeId> {
        self.shared_refs@.to_set()
    }

    /// The components borrowed exclusively.
    pub closed spec fn exclusive(&self) -> Set<TypeId> {
        self.exclusive_refs@.to_set()
    }

    /// The name of the query being checked.
    pub closed spec fn spec_query(&self) -> &'static str {
        self.query
    }

    /// No component is listed twice.
    pub closed spec fn wf(&self) -> bool {
        self.shared_refs@.no_duplicates() && self.exclusive_refs@.no_duplicates()
    }

    /// The effect of a shared borrow of `id` that returned `r`.
    pub open spec fn borrowed(self, post: Self, id: TypeId, r: Result<(), BorrowConflict>) -> bool {
        &&& post.spec_query() == self.spec_query()
        &&& post.exclusive() == self.exclusive()
        &&& if self.exclusive().contains(id) {
            r == Err::<(), BorrowConflict>(BorrowConflict::ExclusiveAndShared) && post.shared()
                == self.shared()
        } else {
            r is Ok && post.shared() == self.shared().insert(id)
        }
    }

    /// The effect of an exclusive borrow of `id` that returned `r`.
    pub open spec fn borrowed_mut(self, post: Self, id: TypeId, r: Result<(), BorrowConflict>) -> bool {
        &&& post.spec_query() == self.spec_query()
        &&& post.shared() == self.shared()
        &&& if self.shared().contains(id) {
            r == Err::<(), BorrowConflict>(BorrowConflict::ExclusiveAndShared) && post.exclusive()
                == self.exclusive()
        } else if self.exclusive().contains(id) {
            r == Err::<(), BorrowConflict>(BorrowConflict::ExclusiveAndExclusive)
                && post.exclusive() == self.exclusive()
        } else {
            r is Ok && post.exclusive() == self.exclusive().insert(id)
        }
    }

    /// No component is recorded both shared and exclusive.
    pub open spec fn consistent(&self) -> bool {
        self.shared().disjoint(self.exclusive())
    }

    /// A shared borrow keeps a consistent checker consistent.
    pub proof fn borrow_keeps_consistent(self, post: Self, id: TypeId, r: Result<(), BorrowConflict>)
        requires
            self.consistent(),
            self.borrowed(post, id, r),
        ensures
            post.consistent(),
    {
    }

    /// An exclusive borrow keeps a consistent checker consistent.
    pub proof fn borrow_mut_keeps_consistent(self, post: Self, id: TypeId, r: Result<(), BorrowConflict>)
        requires
            self.consistent(),
            self.borrowed_mut(post, id, r),
        ensures
            post.consistent(),
    {
    }

    /// A component borrowed exclusively is never borrowed again, in any way.
    pub proof fn exclusive_borrow_is_unique(self, post: Self, id: TypeId, r: Result<(), BorrowConflict>)
        requires
            self.exclusive().contains(id),
        ensures
            self.borrowed(post, id, r) ==> r is Err,
            self.borrowed_mut(post, id, r) ==> r is Err,
    {
    }

    /// A checker for the query named `query`, with nothing borrowed yet.
    pub fn new(query: &'static str) -> (r: Self)
        ensures
            r.wf(),
            r.consistent(),
            r.spec_query() == query,
            r.shared() == Set::<TypeId>::empty(),
            r.exclusive() == Set::<TypeId>::empty(),
    {
        let r = BorrowChecker { query, shared_refs: Vec::new(), exclusive_refs: Vec::new() };
        proof {
            assert(r.shared() =~= Set::<TypeId>::empty());
            assert(r.exclusive() =~= Set::<TypeId>::empty());
        }
        r
    }

    /// The name of the query being checked.
    pub fn query(&self) -> (r: &'static str)
        ensures
            r == self.spec_query(),
    {
        self.query
    }

    /// Records a shared borrow of the component with identity `type_id`;
    /// refused when the component is already borrowed exclusively.
    pub fn borrow_id(&mut self, type_id: TypeId) -> (r: Result<(), BorrowConflict>)
        requires
            old(self).wf(),
        ensures
            final(self).wf(),
            old(self).borrowed(*final(self), type_id, r),
    {
        if contains_id(&self.exclusive_refs, &type_id) {
            return Err(BorrowConflict::ExclusiveAndShared);
        }
        if !contains_id(&self.shared_refs, &type_id) {
            self.shared_refs.push(type_id);
            proof {
                assert(self.shared_refs@ == old(self).shared_refs@.push(type_id));
                old(self).shared_refs@.lemma_push_to_set_commute(type_id);
            }
        } else {
            proof {
                assert(old(self).shared().insert(type_id) =~= old(self).shared());
            }
        }
        Ok(())
    }

    /// Records an exclusive borrow of the component with identity `type_id`;
    /// refused when the component is already borrowed at all.
    pub fn borrow_mut_id(&mut self, type_id: TypeId) -> (r: Result<(), BorrowConflict>)
        requires
            old(self).wf(),
        ensures
            final(self).wf(),
            old(self).borrowed_mut(*final(self), type_id, r),
    {
        if contains_id(&self.shared_refs, &type_id) {
            return Err(BorrowConflict::ExclusiveAndShared);
        }
        if contains_id(&self.exclusive_refs, &type_id) {
            return Err(BorrowConflict::ExclusiveAndExclusive);
        }
        self.exclusive_refs.push(type_id);
        proof {
            old(self).exclusive_refs@.lemma_push_to_set_commute(type_id);
        }
        Ok(())
    }

    /// Records a shared borrow of component `C`.
    pub fn borrow<C: 'static>(&mut self) -> (r: Result<(), BorrowConflict>)
        requires
            old(self).wf(),
        ensures
            final(self).wf(),
            exists|id: TypeId| #[trigger] old(self).borrowed(*final(self), id, r),
    {
        let type_id = type_id_of::<C>();
        self.borrow_id(type_id)
    }

    /// Records an exclusive borrow of component `C`.
    pub fn borrow_mut<C: 'static>(&mut self) -> (r: Result<(), BorrowConflict>)
        requires
            old(self).wf(),
        ensures
            final(self).wf(),
            exists|id: TypeId| #[trigger] old(self).borrowed_mut(*final(self), id, r),
    {
        let type_id = type_id_of::<C>();
        self.borrow_mut_id(type_id)
    }
}

} // verus!
