use super::Storage;
use vstd::prelude::*;

verus! {

/// A position in a walk over the live values of a [`Storage`].
pub struct Iter<'a, T> {
    storage: &'a Storage<T>,
    index: usize,
}

} // verus!
