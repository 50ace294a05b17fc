//! What holds of an [`Archetype`] across calls.

use super::{Archetype, ArchetypeWorldFetch, Columns};
use crate::query::fetch::Fetch;
use vstd::prelude::*;

verus! {

/// Despawning the id that a spawn returned gives the entity back and leaves
/// the same live entities as before the spawn.
pub proof fn despawn_undoes_spawn<T: Columns>(
    a: Archetype<T>,
    b: Archetype<T>,
    c: Archetype<T>,
    id: u64,
    entity: T::Entity,
    result: Option<T::Entity>,
)
    requires
        a.spawned(b, id, entity),
        b.despawned(c, id, result),
    ensures
        result == Some(entity),
        c@ == a@,
{
    assert(c@ =~= a@);
}

/// A spawned entity is found in the new last row under its id.
pub proof fn spawned_entity_is_found<T: Columns>(
    a: Archetype<T>,
    b: Archetype<T>,
    id: u64,
    entity: T::Entity,
)
    requires
        a.wf(),
        a.spawned(b, id, entity),
    ensures
        b.row_index(id) == a.row_ids().len(),
        b.rows()[b.row_index(id)] == entity,
        b@[id] == entity,
{
    a.lemma_view();
    let n = a.row_ids().len() as int;
    assert(b.row_ids()[n] == id);
    let i = b.row_index(id);
    if i != n {
        assert(a.row_ids()[i] == id);
        assert(a@.contains_key(a.row_ids()[i]));
    }
}

/// Spawning leaves every other entity where it was, under the same id.
pub proof fn spawn_keeps_others<T: Columns>(
    a: Archetype<T>,
    b: Archetype<T>,
    id: u64,
    entity: T::Entity,
    other: u64,
)
    requires
        a.spawned(b, id, entity),
        a@.contains_key(other),
    ensures
        other != id,
        b@.contains_key(other),
        b@[other] == a@[other],
{
}

/// After a despawn the id names nothing, and every other entity is kept.
pub proof fn despawn_keeps_others<T: Columns>(
    a: Archetype<T>,
    b: Archetype<T>,
    id: u64,
    result: Option<T::Entity>,
    other: u64,
)
    requires
        a.despawned(b, id, result),
    ensures
        !b@.contains_key(id),
        other != id ==> b@.contains_key(other) == a@.contains_key(other),
        other != id && a@.contains_key(other) ==> b@[other] == a@[other],
{
}

/// Despawning a live entity returns the entity of its row, moves the last
/// row into that row, where the map from ids to rows then finds the moved
/// entity, and leaves the archetype consistent; despawning an id that names
/// nothing changes nothing.
pub proof fn despawn_moves_last_row<T: Columns>(
    a: Archetype<T>,
    b: Archetype<T>,
    id: u64,
    result: Option<T::Entity>,
)
    requires
        a.wf(),
        a.despawned(b, id, result),
    ensures
        b.wf(),
        a@.contains_key(id) ==> {
            let p = a.row_index(id);
            &&& result == Some(a.rows()[p])
            &&& !b@.contains_key(id)
            &&& b.row_ids().len() == a.row_ids().len() - 1
            &&& p < b.row_ids().len() ==> {
                &&& b.row_ids()[p] == a.row_ids().last()
                &&& b.rows()[p] == a.rows().last()
                &&& b.row_index(b.row_ids()[p]) == p
            }
            &&& forall|i: int|
                0 <= i < b.row_ids().len() && i != p ==> {
                    &&& #[trigger] b.row_ids()[i] == a.row_ids()[i]
                    &&& b.rows()[i] == a.rows()[i]
                    &&& b.row_index(b.row_ids()[i]) == i
                }
        },
        !a@.contains_key(id) ==> result.is_none() && b@ == a@ && b.row_ids() == a.row_ids()
            && b.rows() == a.rows(),
{
    a.lemma_view();
    if a@.contains_key(id) {
        let p = a.row_index(id);
        let i = choose|i: int| 0 <= i < a.row_ids().len() && a.row_ids()[i] == id;
        a.lemma_row_index_of_row(i);
        assert(a@[a.row_ids()[p]] == a.rows()[p]);
        if p < b.row_ids().len() {
            b.lemma_row_index_of_row(p);
        }
        assert forall|i: int| 0 <= i < b.row_ids().len() && i != p implies {
            &&& #[trigger] b.row_ids()[i] == a.row_ids()[i]
            &&& b.rows()[i] == a.rows()[i]
            &&& b.row_index(b.row_ids()[i]) == i
        } by {
            b.lemma_row_index_of_row(i);
        }
    }
}

/// Despawning twice finds nothing the second time and changes nothing.
pub proof fn despawn_twice_finds_nothing<T: Columns>(
    a: Archetype<T>,
    b: Archetype<T>,
    c: Archetype<T>,
    id: u64,
    first: Option<T::Entity>,
    second: Option<T::Entity>,
)
    requires
        a.despawned(b, id, first),
        b.despawned(c, id, second),
    ensures
        second.is_none(),
        c@ == b@,
{
    assert(c@ =~= b@);
}

/// A lookup through an archetype's fetch finds an item for an id exactly
/// when the archetype holds a live entity with that id (and has what the
/// query asks for); the item is then the fetch's item at the row that holds
/// the entity, the row whose id is `id`. An id of a despawned entity finds
/// nothing, even when its slot has been reused.
pub proof fn lookup_finds_exactly_live_entities_at_their_rows<'w, F: Fetch, T: Columns>(
    a: Archetype<T>,
    w: ArchetypeWorldFetch<'w, F, T>,
    id: u64,
)
    requires
        a.wf(),
        w.is_lookup_of(a),
    ensures
        w.item_of(id) is Some <==> (a@.contains_key(id) && w.fetch() is Some),
        !a@.contains_key(id) ==> w.item_of(id) is None,
        a@.contains_key(id) ==> {
            let p = a.row_index(id);
            &&& 0 <= p < a.row_ids().len()
            &&& a.row_ids()[p] == id
            &&& a.rows()[p] == a@[id]
            &&& w.fetch() matches Some(f) ==> w.item_of(id) == Some(f.item(p))
        },
{
    a.lemma_view();
    if a@.contains_key(id) {
        let i = choose|i: int| 0 <= i < a.row_ids().len() && a.row_ids()[i] == id;
        a.lemma_row_index_of_row(i);
        assert(w.rows_by_id().contains_key(id));
        assert(w.rows_by_id()[id] == a.row_index(id) as usize);
    } else {
        assert(!w.rows_by_id().contains_key(id));
    }
}

} // verus!
