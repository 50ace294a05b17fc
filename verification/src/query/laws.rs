//! What combined queries borrow, and what combined fetches yield, in terms
//! of their parts.

use super::fetch::{EntityKeyFetch, Fetch, OptionFetch, WithFetch, WithoutFetch};
use crate::column::ColumnRawParts;
use super::{Or, Query, With, Without};
use vstd::prelude::*;

verus! {

/// A one-part tuple query lists exactly the borrows of its part.
pub proof fn tuple1_query_lists_its_part<Q0: Query>()
    ensures
        <(Q0,) as Query>::exclusivity() == Q0::exclusivity(),
        <(Q0,) as Query>::is_shared() == Q0::is_shared(),
{
}

/// A pair query lists every borrow of its first part, then every borrow of
/// its second part; it is shared exactly when both parts are.
pub proof fn tuple2_query_lists_every_part<Q0: Query, Q1: Query>()
    ensures
        <(Q0, Q1) as Query>::exclusivity() == Q0::exclusivity() + Q1::exclusivity(),
        <(Q0, Q1) as Query>::exclusivity().len() == Q0::exclusivity().len()
            + Q1::exclusivity().len(),
        <(Q0, Q1) as Query>::is_shared() == (Q0::is_shared() && Q1::is_shared()),
{
}

/// A triple query lists every borrow of its first part, then of its second,
/// then of its third, none left out; it is shared exactly when all three
/// parts are.
pub proof fn tuple3_query_lists_every_part<Q0: Query, Q1: Query, Q2: Query>()
    ensures
        <(Q0, Q1, Q2) as Query>::exclusivity() == Q0::exclusivity() + Q1::exclusivity()
            + Q2::exclusivity(),
        <(Q0, Q1, Q2) as Query>::exclusivity().len() == Q0::exclusivity().len()
            + Q1::exclusivity().len() + Q2::exclusivity().len(),
        <(Q0, Q1, Q2) as Query>::is_shared() == (Q0::is_shared() && Q1::is_shared()
            && Q2::is_shared()),
{
}

/// `With` and `Without` borrow only what the filtered query borrows, and an
/// optional query borrows what its inner query does.
pub proof fn filters_and_options_borrow_their_query<Q: Query, R: Query>()
    ensures
        <With<Q, R> as Query>::exclusivity() == Q::exclusivity(),
        <With<Q, R> as Query>::is_shared() == Q::is_shared(),
        <Without<Q, R> as Query>::exclusivity() == Q::exclusivity(),
        <Without<Q, R> as Query>::is_shared() == Q::is_shared(),
        <Option<Q> as Query>::exclusivity() == Q::exclusivity(),
        <Option<Q> as Query>::is_shared() == Q::is_shared(),
{
}

/// An `Or` query lists the borrows of its left query, then those of its
/// right query.
pub proof fn or_query_lists_both_sides<L: Query, R: Query>()
    ensures
        <Or<L, R> as Query>::exclusivity() == L::exclusivity() + R::exclusivity(),
        <Or<L, R> as Query>::is_shared() == (L::is_shared() && R::is_shared()),
{
}

/// A one-part tuple fetch yields, for each row, its part's item for that
/// row.
pub proof fn tuple1_fetch_reads_its_part_at_the_row<F0: Fetch>(f0: F0, index: int)
    ensures
        <(F0,) as Fetch>::item(&(f0,), index) == (f0.item(index),),
        <(F0,) as Fetch>::spec_len(&(f0,)) == f0.spec_len(),
        <(F0,) as Fetch>::wf(&(f0,)) == f0.wf(),
{
}

/// A pair fetch yields, for each row, the pair of what each part yields for
/// that same row; it has as many rows as its first part, and is consistent
/// when both parts are and have the same number of rows.
pub proof fn tuple2_fetch_reads_each_part_at_the_row<F0: Fetch, F1: Fetch>(
    f0: F0,
    f1: F1,
    index: int,
)
    ensures
        <(F0, F1) as Fetch>::item(&(f0, f1), index) == (f0.item(index), f1.item(index)),
        <(F0, F1) as Fetch>::spec_len(&(f0, f1)) == f0.spec_len(),
        <(F0, F1) as Fetch>::wf(&(f0, f1)) == (f0.wf() && f1.wf() && f1.spec_len()
            == f0.spec_len()),
{
}

/// A triple fetch yields, for each row, the triple of what each part yields
/// for that same row; it has as many rows as its first part, and is
/// consistent when all parts are and have the same number of rows.
pub proof fn tuple3_fetch_reads_each_part_at_the_row<F0: Fetch, F1: Fetch, F2: Fetch>(
    f0: F0,
    f1: F1,
    f2: F2,
    index: int,
)
    ensures
        <(F0, F1, F2) as Fetch>::item(&(f0, f1, f2), index) == (
            f0.item(index),
            f1.item(index),
            f2.item(index),
        ),
        <(F0, F1, F2) as Fetch>::spec_len(&(f0, f1, f2)) == f0.spec_len(),
        <(F0, F1, F2) as Fetch>::wf(&(f0, f1, f2)) == (f0.wf() && f1.wf() && f2.wf()
            && f1.spec_len() == f0.spec_len() && f2.spec_len() == f0.spec_len()),
{
}

/// Two rows of a triple fetch whose parts yield the same items yield the
/// same triple, and rows whose triples differ differ in some part.
pub proof fn tuple3_fetch_rows_agree_with_parts<F0: Fetch, F1: Fetch, F2: Fetch>(
    f: (F0, F1, F2),
    i: int,
    j: int,
)
    ensures
        f.item(i) == f.item(j) <==> (f.0.item(i) == f.0.item(j) && f.1.item(i) == f.1.item(j)
            && f.2.item(i) == f.2.item(j)),
        f.item(i).2 == f.2.item(i),
        f.item(i).1 == f.1.item(i),
        f.item(i).0 == f.0.item(i),
{
}

/// A filtered fetch yields, for each row, what its inner fetch yields for
/// that row, over the inner fetch's rows.
pub proof fn filtered_fetches_read_their_inner_fetch<F: Fetch, R: Fetch>(
    with: WithFetch<F, R>,
    without: WithoutFetch<F, R>,
    index: int,
)
    ensures
        with.item(index) == with.inner().item(index),
        with.spec_len() == with.inner().spec_len(),
        without.item(index) == without.inner().item(index),
        without.spec_len() == without.inner().spec_len(),
{
}

/// An optional fetch yields, for each row, `Some` of its inner fetch's item
/// for that row when the archetype has the inner fetch, and `None` when it
/// does not.
pub proof fn option_fetch_reads_its_inner_fetch<F: Fetch>(f: OptionFetch<F>, index: int)
    ensures
        f.inner() is None ==> f.item(index) is None,
        f.inner() matches Some(inner) ==> f.item(index) == Some(inner.item(index)),
{
}

/// An `Or` fetch yields, for each row, what the sides it has yield for that
/// same row, in the same variant.
pub proof fn or_fetch_reads_its_sides_at_the_row<L: Fetch, R: Fetch>(f: Or<L, R>, index: int)
    ensures
        f matches Or::Left(l) ==> f.item(index) == Or::<L::Item, R::Item>::Left(l.item(index)),
        f matches Or::Right(r) ==> f.item(index) == Or::<L::Item, R::Item>::Right(r.item(index)),
        f matches Or::Both(l, r) ==> f.item(index) == Or::<L::Item, R::Item>::Both(
            l.item(index),
            r.item(index),
        ),
{
}

/// A column's fetch yields, for each row, the component in that row, over
/// as many rows as the column has; the id fetch yields the id in each row.
pub proof fn column_fetches_read_the_row<'a, C, E>(
    parts: ColumnRawParts<'a, C>,
    ids: EntityKeyFetch<'a, E>,
    index: int,
)
    ensures
        *parts.item(index) == parts.rows@[index],
        parts.spec_len() == parts.rows@.len(),
        ids.item(index).0 == ids.ids()[index],
        ids.spec_len() == ids.ids().len(),
{
}

} // verus!
