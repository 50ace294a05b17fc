use stecs::secondary::ids::SecondaryIds;
use stecs::secondary::world::synchronize_plan;
use stecs::archetype::EntityKey;
use stecs::secondary::column::SecondaryColumn;

#[test]
fn secondary_column_insert_get_remove() {
    let mut column: SecondaryColumn<u8, &str> = SecondaryColumn::new();
    let a = EntityKey::new_unchecked(1 << 32);
    let b = EntityKey::new_unchecked((1 << 32) | 1);
    assert_eq!(column.get(a), None);
    column.insert(a, "x");
    column.insert(b, "y");
    assert_eq!(column.get(a), Some(&"x"));
    column.insert(a, "z");
    assert_eq!(column.get(a), Some(&"z"));
    column.remove(a);
    assert_eq!(column.get(a), None);
    assert_eq!(column.get(b), Some(&"y"));
    column.remove(a);
    assert_eq!(column.get(b), Some(&"y"));
}

#[test]
fn synchronize_plan_adds_and_removes() {
    let held = vec![1, 2, 3];
    let alive = vec![3, 4, 1, 5];
    let (added, removed) = synchronize_plan(&held, &alive);
    assert_eq!(added, vec![4, 5]);
    assert_eq!(removed, vec![2]);
    let (added, removed) = synchronize_plan(&vec![], &vec![]);
    assert!(added.is_empty() && removed.is_empty());
}

#[test]
fn secondary_ids_insert_and_remove_report_change() {
    let mut ids: SecondaryIds<u8> = SecondaryIds::new();
    let a = EntityKey::new_unchecked(1 << 32);
    let b = EntityKey::new_unchecked((1 << 32) | 1);
    assert!(!ids.contains(a));
    assert!(ids.insert(a));
    assert!(!ids.insert(a));
    assert!(ids.contains(a));
    assert!(!ids.contains(b));
    assert!(!ids.remove(b));
    assert!(ids.remove(a));
    assert!(!ids.contains(a));
    assert!(!ids.remove(a));
}

#[test]
fn secondary_ids_synchronize_plan() {
    let mut ids: SecondaryIds<u8> = SecondaryIds::new();
    for k in [1u64, 2, 3, 7] {
        ids.insert(EntityKey::new_unchecked(k));
    }
    let alive = vec![3, 4, 1, 5];
    let (added, mut removed) = ids.synchronize_plan(&alive);
    assert_eq!(added, vec![4, 5]);
    removed.sort();
    assert_eq!(removed, vec![2, 7]);
}
