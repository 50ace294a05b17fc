//! A small entity-component store: generational storage, columns of
//! components, archetypes that keep entity ids and component rows in step,
//! and the bookkeeping that queries need to stay within Rust's borrowing rules.

use vstd::prelude::*;

pub mod archetype;
pub mod arena;
pub mod column;
pub mod query;
pub mod secondary;
pub mod storage;
mod type_id;
pub mod world;

verus! {

/// Anything that can be stored as a component.
pub trait Component: 'static {}

impl<T: 'static> Component for T {}

} // verus!
