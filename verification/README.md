# stecs

A small entity-component store, verified with Verus.

- `src/storage.rs`: a generational store with a free list; keys of removed
  values never read a value again.
- `src/column.rs`: a column of components, one per row, with swap-removal.
- `src/archetype.rs`: entities of one kind stored by rows, with an arena
  (from the `thunderdome` crate) that maps each entity id to its row; the map
  and the id column stay inverse to each other through every spawn and
  despawn. `src/arena.rs` states what the library relies on from the arena.
- `src/world.rs`: the world of all entities, over a store named by the entity
  type.
- `src/query/`: the borrow rules of queries, fetches that read rows, walks
  over rows, and nested lookups that never reach the entity being visited.
- `src/secondary/`: components kept beside the archetypes, keyed by id, the
  set of ids a secondary world holds (a `hashbrown` set), and which ids a
  synchronization adds and despawns.
- `app/`: what stays outside the verified library: panics with messages,
  downcasts through `Any`, serde support for entity keys, and the secondary
  world's type-erased columns.

Proof functions whose names state a property (in `storage/laws.rs`,
`archetype/laws.rs` and beside the types) hold across calls.
