use stecs::storage::Storage;

#[test]
fn new_storage_is_empty() {
    let storage: Storage<i32> = Storage::new();
    assert_eq!(storage.len(), 0);
    assert!(storage.is_empty());
}

#[test]
fn insert_then_get() {
    let mut storage = Storage::new();
    let a = storage.insert("a");
    let b = storage.insert("b");
    assert_eq!(storage.get(a.clone()), Some(&"a"));
    assert_eq!(storage.get(b.clone()), Some(&"b"));
    assert_eq!(storage.get_mut(a.clone()), Some(&"a"));
    assert!(storage.contains_key(b));
}

#[test]
fn insert_leaves_the_count_unchanged() {
    let mut storage = Storage::new();
    storage.insert(1);
    storage.insert(2);
    assert_eq!(storage.len(), 0);
    assert!(storage.is_empty());
}

#[test]
fn fresh_slots_start_at_generation_zero() {
    let mut storage = Storage::new();
    let a = storage.insert(10);
    let b = storage.insert(20);
    assert_eq!((a.index(), a.generation()), (0, 0));
    assert_eq!((b.index(), b.generation()), (1, 0));
}

#[test]
fn key_from_unknown_slot_reads_nothing() {
    let mut storage = Storage::new();
    let a = storage.insert(1);
    let mut other = Storage::new();
    other.insert(1);
    let far = other.insert(2);
    assert_eq!(storage.get(far.clone()), None);
    assert_eq!(storage.remove(far), None);
    assert_eq!(storage.len(), 0);
    assert_eq!(storage.get(a), Some(&1));
}

#[test]
fn can_insert_on_ordinary_storage() {
    let mut storage = Storage::new();
    assert!(storage.can_insert());
    storage.insert(1);
    assert!(storage.can_insert());
}
