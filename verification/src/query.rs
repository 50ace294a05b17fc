use crate::archetype::EntityKey;
use crate::type_id::{type_id_of, type_ids_equal};
use crate::Component;
use std::any::TypeId;
use std::marker::PhantomData;
use vstd::prelude::*;

pub mod borrow_checker;
pub mod fetch;
pub mod iter;
pub mod laws;
pub mod nest;
pub mod nest2;

verus! {

/// The result of a query that matches either side, or both.
#[derive(Debug, Clone, Copy)]
pub enum Or<L, R> {
    Left(L),
    Right(R),
    Both(L, R),
}

impl<L, R> Or<L, R> {
    /// The left value, if there is one.
    pub open spec fn spec_left(self) -> Option<L> {
        match self {
            Or::Left(l) => Some(l),
            Or::Right(_) => None,
            Or::Both(l, _) => Some(l),
        }
    }

    /// The right value, if there is one.
    pub open spec fn spec_right(self) -> Option<R> {
        match self {
            Or::Left(_) => None,
            Or::Right(r) => Some(r),
            Or::Both(_, r) => Some(r),
        }
    }

    /// The value that `new` builds from two optional parts.
    pub open spec fn from_parts(left: Option<L>, right: Option<R>) -> Option<Self> {
        match (left, right) {
            (None, None) => None,
            (Some(l), None) => Some(Or::Left(l)),
            (None, Some(r)) => Some(Or::Right(r)),
            (Some(l), Some(r)) => Some(Or::Both(l, r)),
        }
    }

    /// Combines two optional values; `None` only when both are absent.
    pub fn new(left: Option<L>, right: Option<R>) -> (r: Option<Self>)
        ensures
            r == Self::from_parts(left, right),
            r.is_none() <==> (left.is_none() && right.is_none()),
            r matches Some(o) ==> o.spec_left() == left && o.spec_right() == right,
    {
        match (left, right) {
            (None, None) => None,
            (Some(left), None) => Some(Or::Left(left)),
            (None, Some(right)) => Some(Or::Right(right)),
            (Some(left), Some(right)) => Some(Or::Both(left, right)),
        }
    }

    /// The left and the right value, each if there is one.
    pub fn split(self) -> (r: (Option<L>, Option<R>))
        ensures
            r == (self.spec_left(), self.spec_right()),
    {
        match self {
            Or::Left(left) => (Some(left), None),
            Or::Right(right) => (None, Some(right)),
            Or::Both(left, right) => (Some(left), Some(right)),
        }
    }

    /// The left value, if there is one.
    pub fn left(self) -> (r: Option<L>)
        ensures
            r == self.spec_left(),
    {
        match self {
            Or::Left(left) => Some(left),
            Or::Right(_) => None,
            Or::Both(left, _) => Some(left),
        }
    }

    /// The right value, if there is one.
    pub fn right(self) -> (r: Option<R>)
        ensures
            r == self.spec_right(),
    {
        match self {
            Or::Left(_) => None,
            Or::Right(right) => Some(right),
            Or::Both(_, right) => Some(right),
        }
    }

    /// Applies `f` to the left value and `g` to the right value, keeping the variant.
    pub fn map<L1, R1, F, G>(self, f: F, g: G) -> (r: Or<L1, R1>) where
        F: FnOnce(L) -> L1,
        G: FnOnce(R) -> R1,

        requires
            self.spec_left() matches Some(l) ==> f.requires((l,)),
            self.spec_right() matches Some(x) ==> g.requires((x,)),
        ensures
            match (self, r) {
                (Or::Left(l), Or::Left(l1)) => f.ensures((l,), l1),
                (Or::Right(x), Or::Right(x1)) => g.ensures((x,), x1),
                (Or::Both(l, x), Or::Both(l1, x1)) => f.ensures((l,), l1) && g.ensures((x,), x1),
                _ => false,
            },
    {
        match self {
            Or::Left(left) => Or::Left(f(left)),
            Or::Right(right) => Or::Right(g(right)),
            Or::Both(left, right) => Or::Both(f(left), g(right)),
        }
    }

    /// The same variant, holding references to the values.
    pub fn as_ref(&self) -> (r: Or<&L, &R>)
        ensures
            match (*self, r) {
                (Or::Left(l), Or::Left(l1)) => *l1 == l,
                (Or::Right(x), Or::Right(x1)) => *x1 == x,
                (Or::Both(l, x), Or::Both(l1, x1)) => *l1 == l && *x1 == x,
                _ => false,
            },
    {
        match self {
            Or::Left(left) => Or::Left(left),
            Or::Right(right) => Or::Right(right),
            Or::Both(left, right) => Or::Both(left, right),
        }
    }

    /// The same variant, holding exclusive references to the values.
    pub fn as_mut(&mut self) -> (r: Or<&mut L, &mut R>)
        ensures
            match (*old(self), r) {
                (Or::Left(l), Or::Left(l1)) => *l1 == l && *final(self) == Or::<L, R>::Left(
                    *final(l1),
                ),
                (Or::Right(x), Or::Right(x1)) => *x1 == x && *final(self) == Or::<L, R>::Right(
                    *final(x1),
                ),
                (Or::Both(l, x), Or::Both(l1, x1)) => *l1 == l && *x1 == x && *final(self)
                    == Or::<L, R>::Both(*final(l1), *final(x1)),
                _ => false,
            },
    {
        match self {
            Or::Left(left) => Or::Left(left),
            Or::Right(right) => Or::Right(right),
            Or::Both(left, right) => Or::Both(left, right),
        }
    }
}

/// Splitting a value and combining the parts gives the value back.
pub proof fn or_split_then_new<L, R>(o: Or<L, R>)
    ensures
        (o.spec_left().is_some() || o.spec_right().is_some()),
        Or::<L, R>::from_parts(o.spec_left(), o.spec_right()) == Some(o),
{
}

/// Whether `new` is `old` followed by more borrows, all of them shared when
/// `shared` holds.
pub open spec fn appends_borrows(old: Seq<(TypeId, bool)>, new: Seq<(TypeId, bool)>, shared: bool) -> bool {
    &&& new.len() >= old.len()
    &&& new.subrange(0, old.len() as int) == old
    &&& shared ==> forall|i: int| old.len() <= i < new.len() ==> !(#[trigger] new[i]).1
}

/// Whether each borrow that `new` has beyond `old` is exclusive.
pub open spec fn added_flags(old: Seq<(TypeId, bool)>, new: Seq<(TypeId, bool)>) -> Seq<bool> {
    new.subrange(old.len() as int, new.len() as int).map_values(|b: (TypeId, bool)| b.1)
}

/// Whether each borrow in `borrows` is exclusive.
pub open spec fn borrow_flags(borrows: Seq<(TypeId, bool)>) -> Seq<bool> {
    borrows.map_values(|b: (TypeId, bool)| b.1)
}

/// A query names the components it reads, and whether it reads each one
/// shared or exclusively.
pub trait Query {
    /// Whether every borrow of the query is shared.
    spec fn is_shared() -> bool;

    /// Whether each borrow of the query, in order, is exclusive.
    spec fn exclusivity() -> Seq<bool>;

    /// Appends the borrows of the query: each a component identity and
    /// whether the borrow is exclusive.
    fn for_each_borrow(borrows: &mut Vec<(TypeId, bool)>)
        ensures
            appends_borrows(old(borrows)@, final(borrows)@, Self::is_shared()),
            added_flags(old(borrows)@, final(borrows)@) == Self::exclusivity(),
    ;
}

/// A query that only borrows shared.
pub trait QueryShared: Query {
    proof fn lemma_is_shared()
        ensures
            Self::is_shared(),
    ;
}

/// Appending a single borrow.
proof fn lemma_push_appends(old: Seq<(TypeId, bool)>, b: (TypeId, bool))
    ensures
        appends_borrows(old, old.push(b), !b.1),
{
    assert(old.push(b).subrange(0, old.len() as int) =~= old);
}

/// The flags of a single appended borrow.
proof fn lemma_push_flags(old: Seq<(TypeId, bool)>, b: (TypeId, bool))
    ensures
        added_flags(old, old.push(b)) == seq![b.1],
{
    assert(added_flags(old, old.push(b)) =~= seq![b.1]);
}

/// Appending nothing adds no flags.
proof fn lemma_no_flags(old: Seq<(TypeId, bool)>)
    ensures
        added_flags(old, old) == Seq::<bool>::empty(),
{
    assert(added_flags(old, old) =~= Seq::<bool>::empty());
}

/// The flags of two appending steps, one after the other.
proof fn lemma_flags_trans(a: Seq<(TypeId, bool)>, b: Seq<(TypeId, bool)>, c: Seq<(TypeId, bool)>, s1: bool, s2: bool)
    requires
        appends_borrows(a, b, s1),
        appends_borrows(b, c, s2),
    ensures
        added_flags(a, c) == added_flags(a, b) + added_flags(b, c),
{
    assert forall|i: int| 0 <= i < b.len() implies c[i] == b[i] by {
        assert(c.subrange(0, b.len() as int)[i] == c[i]);
    }
    assert(added_flags(a, c) =~= added_flags(a, b) + added_flags(b, c));
}

/// Appending in two steps.
proof fn lemma_appends_trans(a: Seq<(TypeId, bool)>, b: Seq<(TypeId, bool)>, c: Seq<(TypeId, bool)>, s1: bool, s2: bool)
    requires
        appends_borrows(a, b, s1),
        appends_borrows(b, c, s2),
    ensures
        appends_borrows(a, c, s1 && s2),
{
    assert(c.subrange(0, a.len() as int) =~= b.subrange(0, a.len() as int));
    if s1 && s2 {
        assert forall|i: int| a.len() <= i < c.len() implies !(#[trigger] c[i]).1 by {
            if i < b.len() {
                assert(c[i] == c.subrange(0, b.len() as int)[i]);
                assert(!b[i].1);
            }
        }
    }
}

impl<'q, C: Component> Query for &'q C {
    open spec fn is_shared() -> bool {
        true
    }

    open spec fn exclusivity() -> Seq<bool> {
        seq![false]
    }

    /// Appends one shared borrow.
    fn for_each_borrow(borrows: &mut Vec<(TypeId, bool)>)
        ensures
            exists|id: TypeId| final(borrows)@ == #[trigger] old(borrows)@.push((id, false)),
    {
        let id = type_id_of::<C>();
        proof {
            lemma_push_appends(old(borrows)@, (id, false));
            lemma_push_flags(old(borrows)@, (id, false));
        }
        borrows.push((id, false));
    }
}

impl<'q, C: Component> QueryShared for &'q C {
    proof fn lemma_is_shared() {
    }
}

impl<'q, C: Component> Query for &'q mut C {
    open spec fn is_shared() -> bool {
        false
    }

    open spec fn exclusivity() -> Seq<bool> {
        seq![true]
    }

    /// Appends one exclusive borrow.
    fn for_each_borrow(borrows: &mut Vec<(TypeId, bool)>)
        ensures
            exists|id: TypeId| final(borrows)@ == #[trigger] old(borrows)@.push((id, true)),
    {
        let id = type_id_of::<C>();
        proof {
            lemma_push_appends(old(borrows)@, (id, true));
            lemma_push_flags(old(borrows)@, (id, true));
        }
        borrows.push((id, true));
    }
}

impl<E> Query for EntityKey<E> {
    open spec fn is_shared() -> bool {
        true
    }

    open spec fn exclusivity() -> Seq<bool> {
        Seq::empty()
    }

    /// Appends nothing.
    fn for_each_borrow(borrows: &mut Vec<(TypeId, bool)>)
        ensures
            final(borrows)@ == old(borrows)@,
    {
        proof {
            assert(borrows@.subrange(0, borrows@.len() as int) =~= borrows@);
            lemma_no_flags(borrows@);
        }
    }
}

impl<E> QueryShared for EntityKey<E> {
    proof fn lemma_is_shared() {
    }
}

impl Query for () {
    open spec fn is_shared() -> bool {
        true
    }

    open spec fn exclusivity() -> Seq<bool> {
        Seq::empty()
    }

    /// Appends nothing.
    fn for_each_borrow(borrows: &mut Vec<(TypeId, bool)>)
        ensures
            final(borrows)@ == old(borrows)@,
    {
        proof {
            assert(borrows@.subrange(0, borrows@.len() as int) =~= borrows@);
            lemma_no_flags(borrows@);
        }
    }
}

impl QueryShared for () {
    proof fn lemma_is_shared() {
    }
}

impl<Q0: Query> Query for (Q0,) {
    open spec fn is_shared() -> bool {
        Q0::is_shared()
    }

    open spec fn exclusivity() -> Seq<bool> {
        Q0::exclusivity()
    }

    fn for_each_borrow(borrows: &mut Vec<(TypeId, bool)>) {
        Q0::for_each_borrow(borrows);
    }
}

impl<Q0: QueryShared> QueryShared for (Q0,) {
    proof fn lemma_is_shared() {
        Q0::lemma_is_shared();
    }
}

impl<Q0: Query, Q1: Query> Query for (Q0, Q1) {
    open spec fn is_shared() -> bool {
        Q0::is_shared() && Q1::is_shared()
    }

    open spec fn exclusivity() -> Seq<bool> {
        Q0::exclusivity() + Q1::exclusivity()
    }

    fn for_each_borrow(borrows: &mut Vec<(TypeId, bool)>) {
        let ghost b0 = borrows@;
        Q0::for_each_borrow(borrows);
        let ghost b1 = borrows@;
        Q1::for_each_borrow(borrows);
        proof {
            lemma_appends_trans(b0, b1, borrows@, Q0::is_shared(), Q1::is_shared());
            lemma_flags_trans(b0, b1, borrows@, Q0::is_shared(), Q1::is_shared());
        }
    }
}

impl<Q0: QueryShared, Q1: QueryShared> QueryShared for (Q0, Q1) {
    proof fn lemma_is_shared() {
        Q0::lemma_is_shared();
        Q1::lemma_is_shared();
    }
}

impl<Q0: Query, Q1: Query, Q2: Query> Query for (Q0, Q1, Q2) {
    open spec fn is_shared() -> bool {
        Q0::is_shared() && Q1::is_shared() && Q2::is_shared()
    }

    open spec fn exclusivity() -> Seq<bool> {
        Q0::exclusivity() + Q1::exclusivity() + Q2::exclusivity()
    }

    fn for_each_borrow(borrows: &mut Vec<(TypeId, bool)>) {
        let ghost b0 = borrows@;
        Q0::for_each_borrow(borrows);
        let ghost b1 = borrows@;
        Q1::for_each_borrow(borrows);
        let ghost b2 = borrows@;
        Q2::for_each_borrow(borrows);
        proof {
            lemma_appends_trans(b0, b1, b2, Q0::is_shared(), Q1::is_shared());
            lemma_flags_trans(b0, b1, b2, Q0::is_shared(), Q1::is_shared());
            lemma_appends_trans(b0, b2, borrows@, Q0::is_shared() && Q1::is_shared(), Q2::is_shared());
            lemma_flags_trans(b0, b2, borrows@, Q0::is_shared() && Q1::is_shared(), Q2::is_shared());
        }
    }
}

impl<Q0: QueryShared, Q1: QueryShared, Q2: QueryShared> QueryShared for (Q0, Q1, Q2) {
    proof fn lemma_is_shared() {
        Q0::lemma_is_shared();
        Q1::lemma_is_shared();
        Q2::lemma_is_shared();
    }
}

/// Query `Q`, restricted to entities that also match `R`. Only `Q` is
/// borrowed.
pub struct With<Q, R>(PhantomData<(Q, R)>);

impl<Q: Query, R: Query> Query for With<Q, R> {
    open spec fn is_shared() -> bool {
        Q::is_shared()
    }

    open spec fn exclusivity() -> Seq<bool> {
        Q::exclusivity()
    }

    fn for_each_borrow(borrows: &mut Vec<(TypeId, bool)>) {
        Q::for_each_borrow(borrows);
    }
}

impl<Q: QueryShared, R: Query> QueryShared for With<Q, R> {
    proof fn lemma_is_shared() {
        Q::lemma_is_shared();
    }
}

/// Query `Q`, restricted to entities that do not match `R`. Only `Q` is
/// borrowed.
pub struct Without<Q, R>(PhantomData<(Q, R)>);

impl<Q: Query, R: Query> Query for Without<Q, R> {
    open spec fn is_shared() -> bool {
        Q::is_shared()
    }

    open spec fn exclusivity() -> Seq<bool> {
        Q::exclusivity()
    }

    fn for_each_borrow(borrows: &mut Vec<(TypeId, bool)>) {
        Q::for_each_borrow(borrows);
    }
}

impl<Q: QueryShared, R: Query> QueryShared for Without<Q, R> {
    proof fn lemma_is_shared() {
        Q::lemma_is_shared();
    }
}

impl<L: Query, R: Query> Query for Or<L, R> {
    open spec fn is_shared() -> bool {
        L::is_shared() && R::is_shared()
    }

    open spec fn exclusivity() -> Seq<bool> {
        L::exclusivity() + R::exclusivity()
    }

    fn for_each_borrow(borrows: &mut Vec<(TypeId, bool)>) {
        let ghost b0 = borrows@;
        L::for_each_borrow(borrows);
        let ghost b1 = borrows@;
        R::for_each_borrow(borrows);
        proof {
            lemma_appends_trans(b0, b1, borrows@, L::is_shared(), R::is_shared());
            lemma_flags_trans(b0, b1, borrows@, L::is_shared(), R::is_shared());
        }
    }
}

impl<L: QueryShared, R: QueryShared> QueryShared for Or<L, R> {
    proof fn lemma_is_shared() {
        L::lemma_is_shared();
        R::lemma_is_shared();
    }
}

impl<Q: Query> Query for Option<Q> {
    open spec fn is_shared() -> bool {
        Q::is_shared()
    }

    open spec fn exclusivity() -> Seq<bool> {
        Q::exclusivity()
    }

    fn for_each_borrow(borrows: &mut Vec<(TypeId, bool)>) {
        Q::for_each_borrow(borrows);
    }
}

impl<Q: QueryShared> QueryShared for Option<Q> {
    proof fn lemma_is_shared() {
        Q::lemma_is_shared();
    }
}

/// The borrows of query `Q`, in the order the query lists them.
pub fn query_borrows<Q: Query>() -> (r: Vec<(TypeId, bool)>)
    ensures
        borrow_flags(r@) == Q::exclusivity(),
        Q::is_shared() ==> forall|i: int| 0 <= i < r@.len() ==> !(#[trigger] r@[i]).1,
{
    let mut borrows: Vec<(TypeId, bool)> = Vec::new();
    Q::for_each_borrow(&mut borrows);
    proof {
        assert(borrows@.subrange(0, borrows@.len() as int) =~= borrows@);
    }
    borrows
}

/// Whether `r` is what `find_borrow_violation` returns for `borrows`: the
/// first violating pair in the order `i`, then `j`, or `None` when there is
/// none.
pub open spec fn first_violation(borrows: Seq<(TypeId, bool)>, r: Option<(usize, usize)>) -> bool {
    &&& r is None <==> forall|i: int, j: int| !#[trigger] violates(borrows, i, j)
    &&& r matches Some((i, j)) ==> {
        &&& violates(borrows, i as int, j as int)
        &&& forall|i2: int, j2: int|
            #[trigger] violates(borrows, i2, j2) ==> i < i2 || (i == i2 && j <= j2)
    }
}

/// The first pair of borrows of query `Q` that breaks Rust's borrowing
/// rules, if any.
pub fn query_borrow_violation<Q: Query>() -> (r: Option<(usize, usize)>)
    ensures
        exists|borrows: Seq<(TypeId, bool)>|
            #[trigger] borrow_flags(borrows) == Q::exclusivity() && first_violation(borrows, r),
        Q::is_shared() ==> r.is_none(),
{
    let borrows = query_borrows::<Q>();
    let r = find_borrow_violation(&borrows);
    proof {
        assert(first_violation(borrows@, r));
        if Q::is_shared() {
            lemma_shared_borrows_never_violate(borrows@);
        }
    }
    r
}

/// Borrows that are all shared never break Rust's borrowing rules.
pub proof fn lemma_shared_borrows_never_violate(borrows: Seq<(TypeId, bool)>)
    requires
        forall|i: int| 0 <= i < borrows.len() ==> !(#[trigger] borrows[i]).1,
    ensures
        forall|i: int, j: int| !#[trigger] violates(borrows, i, j),
{
}

/// Whether borrow `i` of a query is exclusive and borrow `j` is another
/// borrow of the same component.
pub open spec fn violates(borrows: Seq<(TypeId, bool)>, i: int, j: int) -> bool {
    &&& 0 <= i < borrows.len()
    &&& 0 <= j < borrows.len()
    &&& i != j
    &&& borrows[i].1
    &&& borrows[i].0 == borrows[j].0
}

/// Checks the borrows of a query, each a component identity and whether the
/// borrow is exclusive, against Rust's rules. Returns the first violating
/// pair `(i, j)` in the order `i`, then `j`, or `None` when there is none.
pub fn find_borrow_violation(borrows: &Vec<(TypeId, bool)>) -> (r: Option<(usize, usize)>)
    ensures
        r is None <==> forall|i: int, j: int| !#[trigger] violates(borrows@, i, j),
        r matches Some((i, j)) ==> {
            &&& violates(borrows@, i as int, j as int)
            &&& forall|i2: int, j2: int|
                #[trigger] violates(borrows@, i2, j2) ==> i < i2 || (i == i2 && j <= j2)
        },
{
    let mut i: usize = 0;
    while i < borrows.len()
        invariant
            i <= borrows@.len(),
            forall|i2: int, j2: int| 0 <= i2 < i ==> !#[trigger] violates(borrows@, i2, j2),
        decreases borrows@.len() - i,
    {
        if borrows[i].1 {
            let mut j: usize = 0;
            while j < borrows.len()
                invariant
                    i < borrows@.len(),
                    j <= borrows@.len(),
                    borrows@[i as int].1,
                    forall|i2: int, j2: int| 0 <= i2 < i ==> !#[trigger] violates(borrows@, i2, j2),
                    forall|j2: int| 0 <= j2 < j ==> !#[trigger] violates(borrows@, i as int, j2),
                decreases borrows@.len() - j,
            {
                if i != j && type_ids_equal(&borrows[i].0, &borrows[j].0) {
                    assert(violates(borrows@, i as int, j as int));
                    return Some((i, j));
                }
                j = j + 1;
            }
        }
        i = i + 1;
    }
    None
}

} // verus!
