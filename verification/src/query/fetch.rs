//! Fetches read the components that a query asks for, row by row, from the
//! columns of one archetype.

use super::Or;
use crate::archetype::EntityKey;
use crate::column::{Column, ColumnRawParts};
use std::marker::PhantomData;
use vstd::prelude::*;

verus! {

/// Access to the rows of one archetype for one query.
pub trait Fetch {
    type Item;

    /// Whether the parts of the fetch agree on the number of rows.
    spec fn wf(&self) -> bool;

    /// The number of rows.
    spec fn spec_len(&self) -> nat;

    /// What the fetch yields for row `index`.
    spec fn item(&self, index: int) -> Self::Item;

    fn len(&self) -> (r: usize)
        ensures
            r == self.spec_len(),
    ;

    fn is_empty(&self) -> (r: bool)
        ensures
            r == (self.spec_len() == 0),
    {
        self.len() == 0
    }

    /// The item for row `index`.
    fn get(&self, index: usize) -> (r: Self::Item)
        requires
            self.wf(),
            index < self.spec_len(),
        ensures
            r == self.item(index as int),
    ;
}

impl<'a, C> Fetch for ColumnRawParts<'a, C> {
    type Item = &'a C;

    open spec fn wf(&self) -> bool {
        true
    }

    open spec fn spec_len(&self) -> nat {
        self.rows@.len()
    }

    open spec fn item(&self, index: int) -> &'a C {
        &self.rows@[index]
    }

    fn len(&self) -> (r: usize) {
        self.rows.len()
    }

    fn get(&self, index: usize) -> (r: &'a C) {
        &self.rows[index]
    }
}

/// Yields the id of the entity in each row.
pub struct EntityKeyFetch<'a, E>(ColumnRawParts<'a, u64>, PhantomData<E>);

impl<'a, E> EntityKeyFetch<'a, E> {
    /// A fetch over the given id column.
    pub fn new(ids: &'a Column<u64>) -> (r: Self)
        ensures
            r.ids() == ids@,
    {
        EntityKeyFetch(ids.as_raw_parts(), PhantomData)
    }

    /// The id in each row.
    pub closed spec fn ids(&self) -> Seq<u64> {
        self.0.rows@
    }
}

impl<'a, E> Clone for EntityKeyFetch<'a, E> {
    fn clone(&self) -> (r: Self)
        ensures
            r.ids() == self.ids(),
    {
        EntityKeyFetch(self.0, PhantomData)
    }
}

impl<'a, E> Copy for EntityKeyFetch<'a, E> {}

impl<'a, E> Fetch for EntityKeyFetch<'a, E> {
    type Item = EntityKey<E>;

    open spec fn wf(&self) -> bool {
        true
    }

    open spec fn spec_len(&self) -> nat {
        self.ids().len()
    }

    open spec fn item(&self, index: int) -> EntityKey<E> {
        EntityKey(self.ids()[index], PhantomData)
    }

    fn len(&self) -> (r: usize) {
        self.0.rows.len()
    }

    fn get(&self, index: usize) -> (r: EntityKey<E>) {
        EntityKey::new_unchecked(self.0.rows[index])
    }
}

/// Yields `()` for each of a number of rows.
#[derive(Clone, Copy)]
pub struct UnitFetch(usize);

impl UnitFetch {
    /// A fetch over `len` rows.
    pub fn new(len: usize) -> (r: Self)
        ensures
            r.spec_len() == len,
    {
        UnitFetch(len)
    }
}

impl Fetch for UnitFetch {
    type Item = ();

    open spec fn wf(&self) -> bool {
        true
    }

    closed spec fn spec_len(&self) -> nat {
        self.0 as nat
    }

    open spec fn item(&self, index: int) -> () {
        ()
    }

    fn len(&self) -> (r: usize) {
        self.0
    }

    fn get(&self, index: usize) -> (r: ()) {
    }
}

impl<F0: Fetch> Fetch for (F0,) {
    type Item = (F0::Item,);

    open spec fn wf(&self) -> bool {
        self.0.wf()
    }

    open spec fn spec_len(&self) -> nat {
        self.0.spec_len()
    }

    open spec fn item(&self, index: int) -> (F0::Item,) {
        (self.0.item(index),)
    }

    fn len(&self) -> (r: usize) {
        self.0.len()
    }

    fn get(&self, index: usize) -> (r: (F0::Item,)) {
        (self.0.get(index),)
    }
}

impl<F0: Fetch, F1: Fetch> Fetch for (F0, F1) {
    type Item = (F0::Item, F1::Item);

    open spec fn wf(&self) -> bool {
        &&& self.0.wf()
        &&& self.1.wf()
        &&& self.1.spec_len() == self.0.spec_len()
    }

    open spec fn spec_len(&self) -> nat {
        self.0.spec_len()
    }

    open spec fn item(&self, index: int) -> (F0::Item, F1::Item) {
        (self.0.item(index), self.1.item(index))
    }

    fn len(&self) -> (r: usize) {
        self.0.len()
    }

    fn get(&self, index: usize) -> (r: (F0::Item, F1::Item)) {
        (self.0.get(index), self.1.get(index))
    }
}

impl<F0: Fetch, F1: Fetch, F2: Fetch> Fetch for (F0, F1, F2) {
    type Item = (F0::Item, F1::Item, F2::Item);

    open spec fn wf(&self) -> bool {
        &&& self.0.wf()
        &&& self.1.wf()
        &&& self.2.wf()
        &&& self.1.spec_len() == self.0.spec_len()
        &&& self.2.spec_len() == self.0.spec_len()
    }

    open spec fn spec_len(&self) -> nat {
        self.0.spec_len()
    }

    open spec fn item(&self, index: int) -> (F0::Item, F1::Item, F2::Item) {
        (self.0.item(index), self.1.item(index), self.2.item(index))
    }

    fn len(&self) -> (r: usize) {
        self.0.len()
    }

    fn get(&self, index: usize) -> (r: (F0::Item, F1::Item, F2::Item)) {
        (self.0.get(index), self.1.get(index), self.2.get(index))
    }
}

/// Yields what `F` yields, for archetypes that also have what `R` fetches.
pub struct WithFetch<F, R> {
    fetch: F,
    _phantom: PhantomData<R>,
}

impl<F: Copy, R> Clone for WithFetch<F, R> {
    fn clone(&self) -> (r: Self)
        ensures
            r == *self,
    {
        WithFetch { fetch: self.fetch, _phantom: PhantomData }
    }
}

impl<F: Copy, R> Copy for WithFetch<F, R> {}

impl<F: Fetch, R: Fetch> WithFetch<F, R> {
    /// The inner fetch.
    pub closed spec fn inner(&self) -> F {
        self.fetch
    }

    /// Combines the fetches found for an archetype: present only when both
    /// the fetch and the required one are.
    pub fn new(fetch: Option<F>, required: Option<R>) -> (r: Option<Self>)
        ensures
            r.is_some() == (fetch.is_some() && required.is_some()),
            r matches Some(w) ==> fetch == Some(w.inner()),
    {
        match (fetch, required) {
            (Some(fetch), Some(_)) => Some(WithFetch { fetch, _phantom: PhantomData }),
            _ => None,
        }
    }
}

impl<F: Fetch, R: Fetch> Fetch for WithFetch<F, R> {
    type Item = F::Item;

    open spec fn wf(&self) -> bool {
        self.inner().wf()
    }

    open spec fn spec_len(&self) -> nat {
        self.inner().spec_len()
    }

    open spec fn item(&self, index: int) -> F::Item {
        self.inner().item(index)
    }

    fn len(&self) -> (r: usize) {
        self.fetch.len()
    }

    fn get(&self, index: usize) -> (r: F::Item) {
        self.fetch.get(index)
    }
}

/// Yields what `F` yields, for archetypes that lack what `R` fetches.
pub struct WithoutFetch<F, R> {
    fetch: F,
    _phantom: PhantomData<R>,
}

impl<F: Copy, R> Clone for WithoutFetch<F, R> {
    fn clone(&self) -> (r: Self)
        ensures
            r == *self,
    {
        WithoutFetch { fetch: self.fetch, _phantom: PhantomData }
    }
}

impl<F: Copy, R> Copy for WithoutFetch<F, R> {}

impl<F: Fetch, R: Fetch> WithoutFetch<F, R> {
    /// The inner fetch.
    pub closed spec fn inner(&self) -> F {
        self.fetch
    }

    /// Combines the fetches found for an archetype: present only when the
    /// fetch is and the excluded one is not.
    pub fn new(fetch: Option<F>, excluded: Option<R>) -> (r: Option<Self>)
        ensures
            r.is_some() == (fetch.is_some() && excluded.is_none()),
            r matches Some(w) ==> fetch == Some(w.inner()),
    {
        let fetch = match fetch {
            Some(fetch) => fetch,
            None => return None,
        };
        if excluded.is_some() {
            return None;
        }
        Some(WithoutFetch { fetch, _phantom: PhantomData })
    }
}

impl<F: Fetch, R: Fetch> Fetch for WithoutFetch<F, R> {
    type Item = F::Item;

    open spec fn wf(&self) -> bool {
        self.inner().wf()
    }

    open spec fn spec_len(&self) -> nat {
        self.inner().spec_len()
    }

    open spec fn item(&self, index: int) -> F::Item {
        self.inner().item(index)
    }

    fn len(&self) -> (r: usize) {
        self.fetch.len()
    }

    fn get(&self, index: usize) -> (r: F::Item) {
        self.fetch.get(index)
    }
}

impl<L: Fetch, R: Fetch> Fetch for Or<L, R> {
    type Item = Or<L::Item, R::Item>;

    open spec fn wf(&self) -> bool {
        match self {
            Or::Left(l) => l.wf(),
            Or::Right(r) => r.wf(),
            Or::Both(l, r) => l.wf() && r.wf() && l.spec_len() == r.spec_len(),
        }
    }

    open spec fn spec_len(&self) -> nat {
        match self {
            Or::Left(l) => l.spec_len(),
            Or::Right(r) => r.spec_len(),
            Or::Both(l, _) => l.spec_len(),
        }
    }

    open spec fn item(&self, index: int) -> Or<L::Item, R::Item> {
        match self {
            Or::Left(l) => Or::Left(l.item(index)),
            Or::Right(r) => Or::Right(r.item(index)),
            Or::Both(l, r) => Or::Both(l.item(index), r.item(index)),
        }
    }

    fn len(&self) -> (r: usize) {
        match self {
            Or::Left(left) => left.len(),
            Or::Right(right) => right.len(),
            Or::Both(left, _) => left.len(),
        }
    }

    fn get(&self, index: usize) -> (r: Or<L::Item, R::Item>) {
        match self {
            Or::Left(left) => Or::Left(left.get(index)),
            Or::Right(right) => Or::Right(right.get(index)),
            Or::Both(left, right) => Or::Both(left.get(index), right.get(index)),
        }
    }
}

/// Yields `Some` of what `F` yields for archetypes that have it, and `None`
/// for every row of archetypes that do not.
#[derive(Clone, Copy)]
pub struct OptionFetch<F> {
    fetch: Option<F>,
    len: usize,
}

impl<F: Fetch> OptionFetch<F> {
    /// The inner fetch, if the archetype has it.
    pub closed spec fn inner(&self) -> Option<F> {
        self.fetch
    }

    /// A fetch over `len` rows, with the inner fetch if the archetype has it.
    pub fn new(fetch: Option<F>, len: usize) -> (r: Self)
        ensures
            r.inner() == fetch,
            r.spec_len() == len,
    {
        OptionFetch { fetch, len }
    }
}

impl<F: Fetch> Fetch for OptionFetch<F> {
    type Item = Option<F::Item>;

    open spec fn wf(&self) -> bool {
        self.inner() matches Some(f) ==> f.wf() && f.spec_len() == self.spec_len()
    }

    closed spec fn spec_len(&self) -> nat {
        self.len as nat
    }

    open spec fn item(&self, index: int) -> Option<F::Item> {
        match self.inner() {
            Some(f) => Some(f.item(index)),
            None => None,
        }
    }

    fn len(&self) -> (r: usize) {
        self.len
    }

    fn get(&self, index: usize) -> (r: Option<F::Item>) {
        match &self.fetch {
            Some(fetch) => Some(fetch.get(index)),
            None => None,
        }
    }
}

} // verus!
