//! Nested queries: while a query visits one entity, a second query may read
//! every other entity, but never the visited one, so that the two never hold
//! the same components at once.

use super::fetch::{EntityKeyFetch, Fetch};
use super::iter::{successive_steps_yield_in_order, yields, FetchIter};
use crate::archetype::{Archetype, ArchetypeWorldFetch, Columns, EntityKey};
use vstd::prelude::*;

verus! {

/// The first row at or after `from` whose id is not `ignore`, or the number
/// of rows when there is none.
pub open spec fn first_unignored(ids: Seq<u64>, from: int, ignore: u64) -> int
    decreases ids.len() - from,
{
    if from >= ids.len() {
        ids.len() as int
    } else if ids[from] != ignore {
        from
    } else {
        first_unignored(ids, from + 1, ignore)
    }
}

proof fn lemma_first_unignored_bounds(ids: Seq<u64>, from: int, ignore: u64)
    requires
        0 <= from <= ids.len(),
    ensures
        from <= first_unignored(ids, from, ignore) <= ids.len(),
        first_unignored(ids, from, ignore) < ids.len() ==> ids[first_unignored(ids, from, ignore)]
            != ignore,
    decreases ids.len() - from,
{
    if from < ids.len() && ids[from] == ignore {
        lemma_first_unignored_bounds(ids, from + 1, ignore);
    }
}

/// The rows at or after `from` whose id is not `ignore`, in order.
pub open spec fn unignored_rows(ids: Seq<u64>, from: int, ignore: u64) -> Seq<int>
    decreases ids.len() - from,
{
    if from >= ids.len() {
        Seq::empty()
    } else if ids[from] != ignore {
        seq![from] + unignored_rows(ids, from + 1, ignore)
    } else {
        unignored_rows(ids, from + 1, ignore)
    }
}

/// The items that `fetch` yields for the rows at or after `from` whose id is
/// not `ignore`, in order.
pub open spec fn unignored_items<J: Fetch>(fetch: J, ids: Seq<u64>, from: int, ignore: u64) -> Seq<J::Item> {
    unignored_rows(ids, from, ignore).map_values(|r: int| fetch.item(r))
}

/// The unignored rows from `from` on are the first unignored row followed
/// by those after it, or none.
proof fn lemma_unignored_rows_step(ids: Seq<u64>, from: int, ignore: u64)
    requires
        0 <= from <= ids.len(),
    ensures
        first_unignored(ids, from, ignore) < ids.len() ==> unignored_rows(ids, from, ignore) == seq![
            first_unignored(ids, from, ignore),
        ] + unignored_rows(ids, first_unignored(ids, from, ignore) + 1, ignore),
        first_unignored(ids, from, ignore) >= ids.len() ==> unignored_rows(ids, from, ignore).len()
            == 0,
    decreases ids.len() - from,
{
    if from < ids.len() && ids[from] == ignore {
        lemma_unignored_rows_step(ids, from + 1, ignore);
    }
}

/// The unignored rows from `from` on are exactly the rows at or after
/// `from` whose id is not `ignore`, each once, in increasing order.
pub proof fn lemma_unignored_rows_exactly(ids: Seq<u64>, from: int, ignore: u64)
    requires
        0 <= from <= ids.len(),
    ensures
        forall|r: int|
            unignored_rows(ids, from, ignore).contains(r) <==> from <= r < ids.len() && ids[r] != ignore,
        forall|a: int, b: int|
            0 <= a < b < unignored_rows(ids, from, ignore).len() ==> #[trigger] unignored_rows(
                ids,
                from,
                ignore,
            )[a] < #[trigger] unignored_rows(ids, from, ignore)[b],
        forall|a: int|
            0 <= a < unignored_rows(ids, from, ignore).len() ==> from <= #[trigger] unignored_rows(
                ids,
                from,
                ignore,
            )[a] < ids.len(),
    decreases ids.len() - from,
{
    if from < ids.len() {
        lemma_unignored_rows_exactly(ids, from + 1, ignore);
        let rest = unignored_rows(ids, from + 1, ignore);
        if ids[from] != ignore {
            let all = seq![from] + rest;
            assert(unignored_rows(ids, from, ignore) == all);
            assert forall|r: int| all.contains(r) <==> from <= r < ids.len() && ids[r] != ignore by {
                if all.contains(r) {
                    let i = choose|i: int| 0 <= i < all.len() && all[i] == r;
                    if i > 0 {
                        assert(rest[i - 1] == r);
                        assert(rest.contains(r));
                    }
                }
                if from <= r < ids.len() && ids[r] != ignore {
                    if r == from {
                        assert(all[0] == r);
                    } else {
                        assert(rest.contains(r));
                        let i = choose|i: int| 0 <= i < rest.len() && rest[i] == r;
                        assert(all[i + 1] == r);
                    }
                }
            }
            assert forall|a: int| 0 <= a < all.len() implies from <= #[trigger] all[a] < ids.len() by {
                if a > 0 {
                    assert(all[a] == rest[a - 1]);
                }
            }
            assert forall|a: int, b: int| 0 <= a < b < all.len() implies all[a] < all[b] by {
                assert(all[b] == rest[b - 1]);
                if a > 0 {
                    assert(all[a] == rest[a - 1]);
                }
            }
        } else {
            assert(unignored_rows(ids, from, ignore) == rest);
        }
    } else {
        assert(unignored_rows(ids, from, ignore).len() == 0);
    }
}

/// One step of a nested walk, from row `from`: the item of the first
/// unignored row comes first, and the items after it are what is left.
proof fn lemma_unignored_items_step<J: Fetch>(fetch: J, ids: Seq<u64>, from: int, ignore: u64)
    requires
        0 <= from <= ids.len(),
    ensures
        first_unignored(ids, from, ignore) < ids.len() ==> {
            &&& unignored_items(fetch, ids, from, ignore).len() > 0
            &&& unignored_items(fetch, ids, from, ignore)[0] == fetch.item(
                first_unignored(ids, from, ignore),
            )
            &&& unignored_items(fetch, ids, first_unignored(ids, from, ignore) + 1, ignore)
                == unignored_items(fetch, ids, from, ignore).drop_first()
        },
        first_unignored(ids, from, ignore) >= ids.len() ==> unignored_items(fetch, ids, from, ignore).len()
            == 0,
{
    lemma_unignored_rows_step(ids, from, ignore);
    let q = first_unignored(ids, from, ignore);
    if q < ids.len() {
        let rest = unignored_rows(ids, q + 1, ignore);
        assert(unignored_items(fetch, ids, from, ignore).drop_first() =~= unignored_items(
            fetch,
            ids,
            q + 1,
            ignore,
        ));
    }
}

/// Successive steps of a nested walk that starts at the first row yield the
/// item of every row whose id is not the skipped one, each once and in row
/// order, and then only `None`.
pub proof fn nest_walk_yields_every_other_row<J: Fetch>(
    fetch: J,
    ids: Seq<u64>,
    ignore: u64,
    remaining: Seq<Seq<J::Item>>,
    items: Seq<Option<J::Item>>,
)
    requires
        remaining.len() == items.len() + 1,
        remaining[0] == unignored_items(fetch, ids, 0, ignore),
        forall|k: int| 0 <= k < items.len() ==> #[trigger] yields(remaining[k], remaining[k + 1], items[k]),
    ensures
        forall|k: int|
            0 <= k < items.len() ==> #[trigger] items[k] == if k < unignored_rows(ids, 0, ignore).len() {
                Some(fetch.item(unignored_rows(ids, 0, ignore)[k]))
            } else {
                None
            },
        forall|r: int|
            unignored_rows(ids, 0, ignore).contains(r) <==> 0 <= r < ids.len() && ids[r] != ignore,
        forall|a: int, b: int|
            0 <= a < b < unignored_rows(ids, 0, ignore).len() ==> #[trigger] unignored_rows(
                ids,
                0,
                ignore,
            )[a] < #[trigger] unignored_rows(ids, 0, ignore)[b],
{
    successive_steps_yield_in_order(remaining, items);
    lemma_unignored_rows_exactly(ids, 0, ignore);
    assert forall|k: int| 0 <= k < items.len() implies #[trigger] items[k] == if k < unignored_rows(
        ids,
        0,
        ignore,
    ).len() {
        Some(fetch.item(unignored_rows(ids, 0, ignore)[k]))
    } else {
        None
    } by {
        assert(items[k] == if k < remaining[0].len() {
            Some(remaining[0][k])
        } else {
            None
        });
    }
}

/// The second query of a nested pair, while the first one visits the entity
/// `ignore_id`.
pub struct Nest<'w, J, T: Columns> {
    archetype: &'w Archetype<T>,
    ignore_id: EntityKey<T::Entity>,
    world_fetch_j: ArchetypeWorldFetch<'w, J, T>,
}

impl<'w, J: Fetch, T: Columns> Nest<'w, J, T> {
    /// The archetype that both queries read.
    pub closed spec fn archetype(&self) -> Archetype<T> {
        *self.archetype
    }

    /// The entity that the first query visits.
    pub closed spec fn ignored(&self) -> u64 {
        self.ignore_id.0
    }

    /// The lookup of the second query.
    pub closed spec fn lookup(&self) -> ArchetypeWorldFetch<'w, J, T> {
        self.world_fetch_j
    }

    /// The lookup reads the archetype's rows.
    pub closed spec fn wf(&self) -> bool {
        &&& self.archetype.wf()
        &&& self.world_fetch_j.wf()
        &&& self.world_fetch_j.rows_by_id() == Map::new(
            |k: u64| self.archetype@.contains_key(k),
            |k: u64| self.archetype.row_index(k) as usize,
        )
        &&& self.world_fetch_j.fetch() matches Some(f) ==> f.wf() && f.spec_len()
            == self.archetype.row_ids().len()
    }

    /// The second query over `archetype`, through `fetch`, that skips the
    /// entity `ignore_id`.
    pub fn new(
        archetype: &'w Archetype<T>,
        ignore_id: EntityKey<T::Entity>,
        fetch: Option<J>,
    ) -> (r: Self)
        requires
            archetype.wf(),
            fetch matches Some(f) ==> f.wf() && f.spec_len() == archetype.row_ids().len(),
        ensures
            r.wf(),
            r.archetype() == *archetype,
            r.ignored() == ignore_id.0,
            r.lookup().fetch() == fetch,
            r.lookup().is_lookup_of(*archetype),
    {
        Nest { archetype, ignore_id, world_fetch_j: archetype.fetch(fetch) }
    }

    /// The second query's item for entity `id`; `None` for the entity that
    /// the first query visits.
    pub fn get_mut(&mut self, id: EntityKey<T::Entity>) -> (r: Option<J::Item>)
        requires
            old(self).wf(),
        ensures
            *final(self) == *old(self),
            r == (if id.0 == old(self).ignored() {
                None
            } else {
                old(self).lookup().item_of(id.0)
            }),
    {
        if id == self.ignore_id {
            return None;
        }
        self.world_fetch_j.get(id)
    }

    /// A walk over the second query's items, in row order, without the
    /// visited entity.
    pub fn into_iter(self) -> (r: NestIter<'w, J, T::Entity>)
        requires
            self.wf(),
        ensures
            r.wf(),
            r.ids() == self.archetype().row_ids(),
            r.ignored() == self.ignored(),
            r.position() == 0,
            r.fetch() == self.lookup().fetch(),
    {
        let iter_id = FetchIter::new(EntityKeyFetch::new(self.archetype.ids()));
        let iter_j = match self.world_fetch_j.into_fetch() {
            Some(fetch) => Some(FetchIter::new(fetch)),
            None => None,
        };
        NestIter { ignore_id: self.ignore_id, iter_id, iter_j }
    }
}

/// A walk over the rows of one archetype that skips one entity, yielding
/// what a fetch yields for the other rows.
pub struct NestIter<'w, J, E> {
    ignore_id: EntityKey<E>,
    iter_id: FetchIter<EntityKeyFetch<'w, E>>,
    iter_j: Option<FetchIter<J>>,
}

impl<'w, J: Fetch, E> NestIter<'w, J, E> {
    /// The id in each row.
    pub closed spec fn ids(&self) -> Seq<u64> {
        self.iter_id.fetch().ids()
    }

    /// The entity that is skipped.
    pub closed spec fn ignored(&self) -> u64 {
        self.ignore_id.0
    }

    /// The row at which the walk continues.
    pub closed spec fn position(&self) -> nat {
        self.iter_id.position()
    }

    /// The fetch that yields the items, if the archetype has it.
    pub closed spec fn fetch(&self) -> Option<J> {
        match self.iter_j {
            Some(j) => Some(j.fetch()),
            None => None,
        }
    }

    /// The items that the walk still yields: those of the rows from the
    /// position on whose id is not the skipped one, or none when the
    /// archetype lacks the fetch.
    pub open spec fn remaining(&self) -> Seq<J::Item> {
        match self.fetch() {
            Some(f) => unignored_items(f, self.ids(), self.position() as int, self.ignored()),
            None => Seq::empty(),
        }
    }

    /// Both walks stand at the same row of the same number of rows.
    pub closed spec fn wf(&self) -> bool {
        &&& self.iter_id.wf()
        &&& self.iter_j matches Some(j) ==> {
            &&& j.wf()
            &&& j.fetch().wf()
            &&& j.fetch().spec_len() == self.ids().len()
            &&& j.position() == self.iter_id.position()
        }
    }

    /// The item of the next row whose id is not the skipped one, or `None`
    /// when there is no such row or the archetype lacks the fetch.
    pub fn next(&mut self) -> (r: Option<J::Item>)
        requires
            old(self).wf(),
        ensures
            final(self).wf(),
            final(self).ids() == old(self).ids(),
            final(self).ignored() == old(self).ignored(),
            final(self).fetch() == old(self).fetch(),
            ({
                let q = first_unignored(old(self).ids(), old(self).position() as int, old(self).ignored());
                if q < old(self).ids().len() {
                    &&& final(self).position() == q + 1
                    &&& r == (match old(self).fetch() {
                        Some(f) => Some(f.item(q)),
                        None => None,
                    })
                } else {
                    &&& final(self).position() == old(self).ids().len()
                    &&& r.is_none()
                }
            }),
            yields(old(self).remaining(), final(self).remaining(), r),
    {
        let ghost ids = self.ids();
        let ghost ignore = self.ignored();
        let ghost start = self.position() as int;
        proof {
            lemma_first_unignored_bounds(ids, start, ignore);
            if let Some(f) = self.fetch() {
                lemma_unignored_items_step(f, ids, start, ignore);
                lemma_unignored_items_step(f, ids, ids.len() as int, ignore);
            }
        }
        let mut id = match self.iter_id.next() {
            Some(id) => id,
            None => {
                match &mut self.iter_j {
                    Some(iter_j) => {
                        iter_j.next();
                    },
                    None => {},
                }
                return None;
            },
        };
        while id == self.ignore_id
            invariant
                self.iter_id.wf(),
                self.ids() == ids,
                self.ignored() == ignore,
                ids == old(self).ids(),
                ignore == old(self).ignored(),
                start == old(self).position(),
                0 <= start <= ids.len(),
                self.fetch() == old(self).fetch(),
                1 <= self.position() <= ids.len(),
                id.0 == ids[self.position() - 1],
                self.iter_j matches Some(j) ==> {
                    &&& j.wf()
                    &&& j.fetch().wf()
                    &&& j.fetch().spec_len() == ids.len()
                    &&& j.position() == self.position() - 1
                },
                first_unignored(ids, start, ignore) == first_unignored(
                    ids,
                    self.position() - 1,
                    ignore,
                ),
            decreases ids.len() - self.position(),
        {
            let ghost p = self.position() as int;
            proof {
                assert(ids[p - 1] == ignore);
                assert(first_unignored(ids, p - 1, ignore) == first_unignored(ids, p, ignore));
            }
            match &mut self.iter_j {
                Some(iter_j) => {
                    iter_j.skip_one();
                },
                None => {},
            }
            id = match self.iter_id.next() {
                Some(next_id) => next_id,
                None => {
                    proof {
                        assert(p == ids.len());
                        assert(first_unignored(ids, p, ignore) == ids.len());
                    }
                    match &mut self.iter_j {
                        Some(iter_j) => {
                            iter_j.next();
                        },
                        None => {},
                    }
                    proof {
                        if let Some(f) = self.fetch() {
                            lemma_unignored_items_step(f, ids, start, ignore);
                            lemma_unignored_items_step(f, ids, ids.len() as int, ignore);
                        }
                    }
                    return None;
                },
            };
        }
        match &mut self.iter_j {
            Some(iter_j) => iter_j.next(),
            None => None,
        }
    }
}

} // verus!
