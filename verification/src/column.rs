//! A column holds one component for each entity of an archetype, in the
//! order of the archetype's rows.

use crate::Component;
use std::any::Any;
use vstd::prelude::*;

pub mod iter;

verus! {

/// The components of one type, one per row.
#[derive(Debug)]
pub struct Column<C>(Vec<C>);

impl<C> View for Column<C> {
    type V = Seq<C>;

    closed spec fn view(&self) -> Seq<C> {
        self.0@
    }
}

impl<C: Clone> Clone for Column<C> {
    fn clone(&self) -> (r: Self)
        ensures
            r@.len() == self@.len(),
            forall|i: int| 0 <= i < self@.len() ==> cloned::<C>(self@[i], #[trigger] r@[i]),
    {
        Column(self.0.clone())
    }
}

impl<C> Default for Column<C> {
    fn default() -> (r: Self)
        ensures
            r@ == Seq::<C>::empty(),
    {
        Column(Vec::new())
    }
}

impl<C> Column<C> {
    /// The number of rows.
    pub fn len(&self) -> (r: usize)
        ensures
            r == self@.len(),
    {
        self.0.len()
    }

    /// Whether there are no rows.
    pub fn is_empty(&self) -> (r: bool)
        ensures
            r == (self@.len() == 0),
    {
        self.len() == 0
    }

    /// The component in row `index`.
    pub fn get(&self, index: usize) -> (r: &C)
        requires
            index < self@.len(),
        ensures
            *r == self@[index as int],
    {
        &self.0[index]
    }

    /// Appends a component as the last row.
    pub fn push(&mut self, component: C)
        ensures
            final(self)@ == old(self)@.push(component),
    {
        self.0.push(component);
    }

    /// Removes row `index` by moving the last row into its place, and returns
    /// the removed component.
    pub fn remove(&mut self, index: usize) -> (r: C)
        requires
            index < old(self)@.len(),
        ensures
            r == old(self)@[index as int],
            final(self)@ == old(self)@.update(index as int, old(self)@.last()).drop_last(),
    {
        self.0.swap_remove(index)
    }

    /// The component in the last row, if there is one.
    pub fn last(&self) -> (r: Option<&C>)
        ensures
            r.is_some() == (self@.len() > 0),
            r matches Some(c) ==> *c == self@.last(),
    {
        self.0.as_slice().last()
    }

    /// The rows in order.
    pub fn as_slice(&self) -> (r: &[C])
        ensures
            r@ == self@,
    {
        self.0.as_slice()
    }

    /// The rows in order, as a vector.
    pub fn into_vec(self) -> (r: Vec<C>)
        ensures
            r@ == self@,
    {
        self.0
    }

    /// A read-only view of the rows, for fetching components by row.
    pub fn as_raw_parts(&self) -> (r: ColumnRawParts<'_, C>)
        ensures
            r.rows@ == self@,
    {
        ColumnRawParts { rows: self.0.as_slice() }
    }
}

/// Whether `after` is `before` with one row appended, as `push` does, when
/// `pushed` holds, or with one row removed by moving the last row into it,
/// as `remove` does, otherwise.
pub open spec fn column_step<C>(before: Seq<C>, after: Seq<C>, pushed: bool) -> bool {
    if pushed {
        exists|c: C| after == #[trigger] before.push(c)
    } else {
        exists|i: int|
            0 <= i < before.len() && after == #[trigger] before.update(i, before.last()).drop_last()
    }
}

/// The number of `true` entries.
pub open spec fn count_true(s: Seq<bool>) -> int
    decreases s.len(),
{
    if s.len() == 0 {
        0
    } else {
        count_true(s.drop_last()) + if s.last() {
            1int
        } else {
            0
        }
    }
}

/// A column made by `default` and then `push` and `remove` calls has as many
/// rows as there were pushes less removes.
pub proof fn len_counts_pushes_and_removes<C>(rows: Seq<Seq<C>>, pushed: Seq<bool>)
    requires
        rows.len() == pushed.len() + 1,
        rows[0].len() == 0,
        forall|k: int| 0 <= k < pushed.len() ==> #[trigger] column_step(rows[k], rows[k + 1], pushed[k]),
    ensures
        rows.last().len() == count_true(pushed) - (pushed.len() - count_true(pushed)),
{
    lemma_len_after_steps(rows, pushed, pushed.len() as int);
    assert(pushed.take(pushed.len() as int) =~= pushed);
}

proof fn lemma_len_after_steps<C>(rows: Seq<Seq<C>>, pushed: Seq<bool>, k: int)
    requires
        rows.len() == pushed.len() + 1,
        rows[0].len() == 0,
        forall|j: int| 0 <= j < pushed.len() ==> #[trigger] column_step(rows[j], rows[j + 1], pushed[j]),
        0 <= k <= pushed.len(),
    ensures
        rows[k].len() == count_true(pushed.take(k)) - (k - count_true(pushed.take(k))),
    decreases k,
{
    if k > 0 {
        let j = k - 1;
        lemma_len_after_steps(rows, pushed, j);
        assert(column_step(rows[j], rows[j + 1], pushed[j]));
        assert(pushed.take(k).drop_last() =~= pushed.take(j));
        if pushed[j] {
            let c = choose|c: C| rows[j + 1] == #[trigger] rows[j].push(c);
            assert(rows[k].len() == rows[j].len() + 1);
        } else {
            let i = choose|i: int|
                0 <= i < rows[j].len() && rows[j + 1] == #[trigger] rows[j].update(i, rows[j].last()).drop_last();
            assert(rows[k].len() == rows[j].len() - 1);
        }
    } else {
        assert(pushed.take(0).len() == 0);
    }
}

/// The rows of a column, borrowed for reading.
pub struct ColumnRawParts<'a, C> {
    pub rows: &'a [C],
}

impl<'a, C> Clone for ColumnRawParts<'a, C> {
    fn clone(&self) -> (r: Self)
        ensures
            r.rows@ == self.rows@,
    {
        ColumnRawParts { rows: self.rows }
    }
}

impl<'a, C> Copy for ColumnRawParts<'a, C> {}

/// The same column seen as one of components of type `D`, when `D` is `C`.
///
/// Calls std's `Any::downcast_ref`, which gives the reference back exactly
/// when the two types are the same; which they are is not stated here, only
/// that a column handed back is the one given, of the same length.
#[verifier::external_body]
pub fn downcast_ref<C: Component, D: Component>(column: &Column<C>) -> (r: Option<&Column<D>>)
    ensures
        r matches Some(d) ==> d@.len() == column@.len(),
{
    (column as &dyn Any).downcast_ref()
}

} // verus!
