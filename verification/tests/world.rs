use stecs::archetype::Archetype;
use stecs::column::Column;
use stecs::world::{Entity, World};

#[derive(Debug, Clone, PartialEq)]
struct Player {
    pos: i32,
    health: i32,
}

impl Entity for Player {
    type WorldData = Archetype<Column<Player>>;
}

#[test]
fn world_spawn_despawn() {
    let mut world: World<Player> = World::new();
    let a = world.spawn(Player { pos: 0, health: 10 });
    let b = world.spawn(Player { pos: 5, health: 3 });
    assert!(world.contains(a));
    assert!(world.contains(b));
    assert_eq!(world.despawn(a), Some(Player { pos: 0, health: 10 }));
    assert!(!world.contains(a));
    assert_eq!(world.despawn(a), None);
    assert!(world.contains(b));
}

#[test]
fn world_spawn_at_replaces() {
    let mut world: World<Player> = World::default();
    let a = world.spawn(Player { pos: 1, health: 1 });
    let old = world.spawn_at(a, Player { pos: 2, health: 2 });
    assert_eq!(old, Some(Player { pos: 1, health: 1 }));
    assert_eq!(world.despawn(a), Some(Player { pos: 2, health: 2 }));
}
