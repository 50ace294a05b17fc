//! Walking the rows of one archetype with a fetch.

use super::fetch::Fetch;
use crate::archetype::{ArchetypeWorldFetch, Columns};
use vstd::prelude::*;

verus! {

/// A walk over the rows of a fetch, from the first to the last.
pub struct FetchIter<F> {
    i: usize,
    fetch: F,
}

impl<F: Fetch> FetchIter<F> {
    /// The fetch being walked.
    pub closed spec fn fetch(&self) -> F {
        self.fetch
    }

    /// The row that the walk yields next.
    pub closed spec fn position(&self) -> nat {
        self.i as nat
    }

    /// The position never passes the last row.
    pub open spec fn wf(&self) -> bool {
        self.position() <= self.fetch().spec_len()
    }

    /// A walk that starts at the first row.
    pub fn new(fetch: F) -> (r: Self)
        ensures
            r.wf(),
            r.fetch() == fetch,
            r.position() == 0,
    {
        FetchIter { i: 0, fetch }
    }

    /// Passes over the current row without yielding it; does nothing at the
    /// end.
    pub fn skip_one(&mut self)
        requires
            old(self).wf(),
        ensures
            final(self).wf(),
            final(self).fetch() == old(self).fetch(),
            final(self).position() == if old(self).position() < old(self).fetch().spec_len() {
                old(self).position() + 1
            } else {
                old(self).position()
            },
    {
        if self.i < self.fetch.len() {
            self.i = self.i + 1;
        }
    }

    /// Yields the item of the current row and moves on, or `None` at the end.
    pub fn next(&mut self) -> (r: Option<F::Item>)
        requires
            old(self).wf(),
            old(self).fetch().wf(),
        ensures
            final(self).wf(),
            final(self).fetch() == old(self).fetch(),
            if old(self).position() < old(self).fetch().spec_len() {
                &&& r == Some(old(self).fetch().item(old(self).position() as int))
                &&& final(self).position() == old(self).position() + 1
            } else {
                &&& r.is_none()
                &&& final(self).position() == old(self).position()
            },
            yields(old(self).remaining(), final(self).remaining(), r),
    {
        if self.i == self.fetch.len() {
            None
        } else {
            let item = self.fetch.get(self.i);
            self.i = self.i + 1;
            proof {
                assert(self.remaining() =~= old(self).remaining().drop_first());
            }
            Some(item)
        }
    }
}

/// Whether one step of a walk, from the items `before` it still had to the
/// items `after` it has left, yielded `r`: the first item, or `None` once
/// nothing is left.
pub open spec fn yields<T>(before: Seq<T>, after: Seq<T>, r: Option<T>) -> bool {
    &&& before.len() > 0 ==> r == Some(before[0]) && after == before.drop_first()
    &&& before.len() == 0 ==> r.is_none() && after.len() == 0
}

/// Successive steps of a walk yield the items it had at the start, in
/// order, and then only `None`.
pub proof fn successive_steps_yield_in_order<T>(remaining: Seq<Seq<T>>, items: Seq<Option<T>>)
    requires
        remaining.len() == items.len() + 1,
        forall|k: int| 0 <= k < items.len() ==> #[trigger] yields(remaining[k], remaining[k + 1], items[k]),
    ensures
        forall|k: int|
            0 <= k < items.len() ==> #[trigger] items[k] == if k < remaining[0].len() {
                Some(remaining[0][k])
            } else {
                None
            },
{
    assert forall|k: int| 0 <= k <= items.len() implies #[trigger] remaining[k] == (if k <= remaining[0].len() {
        remaining[0].skip(k)
    } else {
        Seq::<T>::empty()
    }) by {
        lemma_steps_skip(remaining, items, k);
    }
    assert forall|k: int| 0 <= k < items.len() implies #[trigger] items[k] == if k < remaining[0].len() {
        Some(remaining[0][k])
    } else {
        None
    } by {
        assert(yields(remaining[k], remaining[k + 1], items[k]));
        if k < remaining[0].len() {
            assert(remaining[k] == remaining[0].skip(k));
            assert(remaining[k][0] == remaining[0][k]);
        } else {
            assert(remaining[k].len() == 0);
        }
    }
}

proof fn lemma_steps_skip<T>(remaining: Seq<Seq<T>>, items: Seq<Option<T>>, k: int)
    requires
        remaining.len() == items.len() + 1,
        forall|j: int| 0 <= j < items.len() ==> #[trigger] yields(remaining[j], remaining[j + 1], items[j]),
        0 <= k <= items.len(),
    ensures
        remaining[k] == (if k <= remaining[0].len() {
            remaining[0].skip(k)
        } else {
            Seq::<T>::empty()
        }),
    decreases k,
{
    if k == 0 {
        assert(remaining[0].skip(0) =~= remaining[0]);
    } else {
        lemma_steps_skip(remaining, items, k - 1);
        let j = k - 1;
        assert(yields(remaining[j], remaining[j + 1], items[j]));
        assert(remaining[j + 1] == remaining[k]);
        if k <= remaining[0].len() {
            assert(remaining[0].skip(k - 1).drop_first() =~= remaining[0].skip(k));
        } else if k - 1 == remaining[0].len() {
            assert(remaining[0].skip(k - 1).len() == 0);
        }
    }
}

/// A walk over one fetch, started by `FetchIter::new`, yields the item of
/// every row in order, and then only `None`.
pub proof fn fetch_walk_yields_every_row<F: Fetch>(
    fetch: F,
    remaining: Seq<Seq<F::Item>>,
    items: Seq<Option<F::Item>>,
)
    requires
        remaining.len() == items.len() + 1,
        remaining[0] == items_from(fetch, 0),
        forall|k: int| 0 <= k < items.len() ==> #[trigger] yields(remaining[k], remaining[k + 1], items[k]),
    ensures
        forall|k: int|
            0 <= k < items.len() ==> #[trigger] items[k] == if k < fetch.spec_len() {
                Some(fetch.item(k))
            } else {
                None
            },
{
    successive_steps_yield_in_order(remaining, items);
    assert forall|k: int| 0 <= k < items.len() implies #[trigger] items[k] == if k < fetch.spec_len() {
        Some(fetch.item(k))
    } else {
        None
    } by {
        assert(items[k] == if k < remaining[0].len() {
            Some(remaining[0][k])
        } else {
            None
        });
    }
}

/// The items that a walk over `fetch` yields from row `from` on.
pub open spec fn items_from<F: Fetch>(fetch: F, from: int) -> Seq<F::Item> {
    Seq::new((fetch.spec_len() - from) as nat, |i: int| fetch.item(from + i))
}

impl<F: Fetch> FetchIter<F> {
    /// The items that the walk still yields.
    pub open spec fn remaining(&self) -> Seq<F::Item> {
        items_from(self.fetch(), self.position() as int)
    }
}

/// A walk over the items of a query in all the fetches of a world: the
/// current fetch, then the fetches still to come.
pub struct WorldFetchIter<F> {
    len: usize,
    world_iter: Option<F>,
    current_fetch_iter: Option<FetchIter<F>>,
}

impl<F: Fetch> WorldFetchIter<F> {
    /// The items that the walk still yields, in order.
    pub closed spec fn remaining(&self) -> Seq<F::Item> {
        let current = match self.current_fetch_iter {
            Some(it) => it.remaining(),
            None => Seq::empty(),
        };
        let later = match self.world_iter {
            Some(f) => items_from(f, 0),
            None => Seq::empty(),
        };
        current + later
    }

    /// The items that the current fetch still yields.
    pub closed spec fn current_remaining(&self) -> Seq<F::Item> {
        match self.current_fetch_iter {
            Some(it) => it.remaining(),
            None => Seq::empty(),
        }
    }

    /// The items of the fetches still to come, in order.
    pub closed spec fn waiting_items(&self) -> Seq<F::Item> {
        match self.world_iter {
            Some(f) => items_from(f, 0),
            None => Seq::empty(),
        }
    }

    /// The walk yields the rest of the current fetch, then every row of each
    /// fetch still to come; with `successive_steps_yield_in_order`, the items
    /// of successive `next` calls are these, in order.
    pub proof fn lemma_remaining_is_concatenation(&self)
        ensures
            self.remaining() == self.current_remaining() + self.waiting_items(),
    {
    }

    /// The number of items the query reaches in the world.
    pub closed spec fn spec_len(&self) -> nat {
        self.len as nat
    }

    /// Every fetch agrees on its rows, and the current walk is in range.
    pub closed spec fn wf(&self) -> bool {
        &&& self.current_fetch_iter matches Some(it) ==> it.wf() && it.fetch().wf()
        &&& self.world_iter matches Some(f) ==> f.wf()
    }

    /// A walk over the items of `world_fetch`, the lookup of a query in an
    /// archetype world.
    pub fn new<'w, T: Columns>(world_fetch: ArchetypeWorldFetch<'w, F, T>) -> (r: Self)
        requires
            world_fetch.fetch() matches Some(f) ==> f.wf(),
        ensures
            r.wf(),
            r.spec_len() == (if world_fetch.fetch().is_some() {
                world_fetch.rows_by_id().len()
            } else {
                0
            }),
            r.remaining() == (match world_fetch.fetch() {
                Some(f) => items_from(f, 0),
                None => Seq::empty(),
            }),
    {
        let len = world_fetch.len();
        let mut world_iter = world_fetch.into_fetch();
        let current_fetch_iter = match world_iter.take() {
            Some(fetch) => Some(FetchIter::new(fetch)),
            None => None,
        };
        let r = WorldFetchIter { len, world_iter, current_fetch_iter };
        proof {
            if let Some(f) = world_fetch.fetch() {
                assert(r.remaining() =~= items_from(f, 0));
            } else {
                assert(r.remaining() =~= Seq::<F::Item>::empty());
            }
        }
        r
    }

    /// The number of items the query reaches in the world, as the lower and
    /// upper bound of a size hint.
    pub fn size_hint(&self) -> (r: (usize, Option<usize>))
        ensures
            r == (self.spec_len() as usize, Some(self.spec_len() as usize)),
    {
        (self.len, Some(self.len))
    }

    /// Yields the next item, moving on to the next fetch when the current
    /// one is used up.
    pub fn next(&mut self) -> (r: Option<F::Item>)
        requires
            old(self).wf(),
        ensures
            final(self).wf(),
            final(self).spec_len() == old(self).spec_len(),
            old(self).remaining().len() > 0 ==> r == Some(old(self).remaining()[0])
                && final(self).remaining() == old(self).remaining().drop_first(),
            old(self).remaining().len() == 0 ==> r.is_none() && final(self).remaining().len()
                == 0,
            yields(old(self).remaining(), final(self).remaining(), r),
    {
        loop
            invariant
                self.wf(),
                self.spec_len() == old(self).spec_len(),
                self.remaining() == old(self).remaining(),
            decreases
                (if self.world_iter is Some {
                    2int
                } else {
                    0
                }) + (if self.current_fetch_iter is Some {
                    1int
                } else {
                    0
                }),
        {
            let ghost before = self.remaining();
            let ghost waiting = self.world_iter;
            match &mut self.current_fetch_iter {
                Some(fetch_iter) => {
                    let ghost it = *fetch_iter;
                    let item = fetch_iter.next();
                    match item {
                        Some(item) => {
                            proof {
                                let later = match waiting {
                                    Some(f) => items_from(f, 0),
                                    None => Seq::empty(),
                                };
                                assert(it.remaining()[0] == it.fetch().item(it.position() as int));
                                assert(fetch_iter.remaining() =~= it.remaining().drop_first());
                                assert((it.remaining() + later).drop_first() =~= it.remaining().drop_first() + later);
                            }
                            return Some(item);
                        },
                        None => {
                            proof {
                                assert(it.remaining() =~= Seq::<F::Item>::empty());
                            }
                        },
                    }
                },
                None => {},
            }
            let next_fetch = self.world_iter.take();
            self.current_fetch_iter = match next_fetch {
                Some(fetch) => Some(FetchIter::new(fetch)),
                None => None,
            };
            proof {
                match waiting {
                    Some(f) => {
                        assert(self.remaining() =~= before);
                    },
                    None => {
                        assert(before =~= Seq::<F::Item>::empty());
                    },
                }
            }
            if self.current_fetch_iter.is_none() {
                return None;
            }
        }
    }

    /// Passes over the current row of the current fetch without yielding it.
    pub fn skip_one(&mut self)
        requires
            old(self).wf(),
        ensures
            final(self).wf(),
            final(self).spec_len() == old(self).spec_len(),
            final(self).remaining() == if old(self).current_remaining().len() > 0 {
                old(self).remaining().drop_first()
            } else {
                old(self).remaining()
            },
    {
        let ghost waiting = self.world_iter;
        match &mut self.current_fetch_iter {
            Some(fetch_iter) => {
                let ghost it = *fetch_iter;
                fetch_iter.skip_one();
                proof {
                    let later = match waiting {
                        Some(f) => items_from(f, 0),
                        None => Seq::empty(),
                    };
                    if it.remaining().len() > 0 {
                        assert(fetch_iter.remaining() =~= it.remaining().drop_first());
                        assert((it.remaining() + later).drop_first() =~= it.remaining().drop_first() + later);
                    } else {
                        assert(fetch_iter.remaining() =~= it.remaining());
                    }
                }
            },
            None => {},
        }
    }
}

} // verus!
