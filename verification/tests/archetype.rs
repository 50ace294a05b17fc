use stecs::archetype::{Archetype, EntityKey};
use stecs::column::Column;

type Players = Archetype<Column<&'static str>>;

#[test]
fn spawn_then_lookup() {
    let mut players = Players::new();
    let a = players.spawn("alice");
    let b = players.spawn("bob");
    assert_eq!(players.len(), 2);
    assert!(players.contains(a));
    assert!(players.contains(b));
    assert_eq!(players.row_of(a), Some(0));
    assert_eq!(players.row_of(b), Some(1));
    assert!(a != b);
}

#[test]
fn ids_carry_thunderdome_bits() {
    let mut players = Players::new();
    let a = players.spawn("alice");
    let b = players.spawn("bob");
    let ia = thunderdome::Index::from_bits(a.0).unwrap();
    let ib = thunderdome::Index::from_bits(b.0).unwrap();
    assert_eq!((ia.slot(), ia.generation()), (0, 1));
    assert_eq!((ib.slot(), ib.generation()), (1, 1));
}

#[test]
fn despawn_returns_entity_and_moves_last_row() {
    let mut players = Players::new();
    let a = players.spawn("alice");
    let b = players.spawn("bob");
    let c = players.spawn("carol");
    assert_eq!(players.despawn(a), Some("alice"));
    assert_eq!(players.len(), 2);
    assert!(!players.contains(a));
    assert_eq!(players.row_of(c), Some(0));
    assert_eq!(players.row_of(b), Some(1));
    assert_eq!(players.despawn(a), None);
    assert_eq!(players.despawn(c), Some("carol"));
    assert_eq!(players.despawn(b), Some("bob"));
    assert_eq!(players.len(), 0);
}

#[test]
fn despawn_last_row() {
    let mut players = Players::new();
    let a = players.spawn("alice");
    let b = players.spawn("bob");
    assert_eq!(players.despawn(b), Some("bob"));
    assert_eq!(players.row_of(a), Some(0));
    assert_eq!(players.len(), 1);
}

#[test]
fn respawn_gets_new_generation() {
    let mut players = Players::new();
    let a = players.spawn("alice");
    players.despawn(a);
    let b = players.spawn("bob");
    let ia = thunderdome::Index::from_bits(a.0).unwrap();
    let ib = thunderdome::Index::from_bits(b.0).unwrap();
    assert_eq!(ia.slot(), ib.slot());
    assert_eq!(ib.generation(), ia.generation() + 1);
    assert!(!players.contains(a));
    assert!(players.contains(b));
}

#[test]
fn spawn_at_replaces_entity() {
    let mut players = Players::new();
    let a = players.spawn("alice");
    let b = players.spawn("bob");
    assert_eq!(players.spawn_at(a, "anna"), Some("alice"));
    assert_eq!(players.len(), 2);
    assert_eq!(players.row_of(b), Some(0));
    assert_eq!(players.row_of(a), Some(1));
    assert_eq!(players.despawn(a), Some("anna"));
}

#[test]
fn spawn_at_free_id() {
    let mut players = Players::new();
    let id = EntityKey::new_unchecked(thunderdome::Index::from_bits((7u64 << 32) | 3).unwrap().to_bits());
    assert_eq!(players.spawn_at(id, "zed"), None);
    assert!(players.contains(id));
    assert_eq!(players.row_of(id), Some(0));
    let other = players.spawn("yan");
    assert!(players.contains(other));
    assert_eq!(players.len(), 2);
}

#[test]
fn invalid_bits_name_nothing() {
    let mut players = Players::new();
    players.spawn("alice");
    let bogus = EntityKey::new_unchecked(5);
    assert!(!players.contains(bogus));
    assert_eq!(players.row_of(bogus), None);
    assert_eq!(players.despawn(bogus), None);
}

#[test]
fn world_fetch_reads_by_id() {
    let mut players = Players::new();
    let a = players.spawn("alice");
    let b = players.spawn("bob");
    players.despawn(a);
    let fetch = players.fetch(Some(players.columns().as_raw_parts()));
    assert_eq!(fetch.len(), 1);
    assert_eq!(fetch.get(b), Some(&"bob"));
    assert_eq!(fetch.get(a), None);
    let missing = players.fetch::<stecs::column::ColumnRawParts<&str>>(None);
    assert_eq!(missing.len(), 0);
    assert_eq!(missing.get(b), None);
}

#[test]
fn id_column_follows_rows() {
    let mut players = Players::new();
    let a = players.spawn("alice");
    let b = players.spawn("bob");
    let c = players.spawn("carol");
    players.despawn(a);
    assert_eq!(players.ids().as_slice(), &[c.0, b.0]);
    assert_eq!(players.columns().as_slice(), &["carol", "bob"]);
}

#[test]
fn slot_taken_by_other_finds_stale_slot() {
    let mut players = Players::new();
    let a = players.spawn("alice");
    let b = players.spawn("bob");
    assert!(!players.slot_taken_by_other(a.0));
    // Same slot as `a`, another generation.
    let stale = (a.0 & 0xFFFF_FFFF) | (9u64 << 32);
    assert!(players.slot_taken_by_other(stale));
    // A slot no entity uses.
    let free = 7u64 | (1u64 << 32);
    assert!(!players.slot_taken_by_other(free));
    assert!(players.contains(b));
}

#[test]
fn spawn_at_live_id_moves_it_to_last_row() {
    let mut players = Players::new();
    let a = players.spawn("alice");
    let b = players.spawn("bob");
    let c = players.spawn("carol");
    assert_eq!(players.spawn_at(a, "anna"), Some("alice"));
    assert_eq!(players.ids().as_slice(), &[c.0, b.0, a.0]);
    assert_eq!(players.columns().as_slice(), &["carol", "bob", "anna"]);
}
