//! Components that live beside the archetypes, keyed by entity id.

pub mod column;
pub mod ids;
pub mod world;
