use super::Column;
use vstd::prelude::*;

verus! {

/// A position in a walk over the rows of a [`Column`].
pub struct Iter<'a, C> {
    column: &'a Column<C>,
    index: usize,
}

} // verus!
