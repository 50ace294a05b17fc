use stecs::archetype::Archetype;
use stecs::column::Column;
use stecs::query::iter::WorldFetchIter;
use stecs::query::nest::Nest;
use stecs::query::nest2::Nest2;

type Numbers = Archetype<Column<i32>>;

#[test]
fn nest_skips_visited_entity_on_lookup() {
    let mut numbers = Numbers::new();
    let a = numbers.spawn(1);
    let b = numbers.spawn(2);
    let mut nest = Nest::new(&numbers, a, Some(numbers.columns().as_raw_parts()));
    assert_eq!(nest.get_mut(a), None);
    assert_eq!(nest.get_mut(b), Some(&2));
}

#[test]
fn nest_iter_skips_visited_entity() {
    let mut numbers = Numbers::new();
    let _a = numbers.spawn(1);
    let b = numbers.spawn(2);
    let _c = numbers.spawn(3);
    let nest = Nest::new(&numbers, b, Some(numbers.columns().as_raw_parts()));
    let mut iter = nest.into_iter();
    assert_eq!(iter.next(), Some(&1));
    assert_eq!(iter.next(), Some(&3));
    assert_eq!(iter.next(), None);
    assert_eq!(iter.next(), None);
}

#[test]
fn nest_iter_when_visited_is_last() {
    let mut numbers = Numbers::new();
    let a = numbers.spawn(1);
    let nest = Nest::new(&numbers, a, Some(numbers.columns().as_raw_parts()));
    let mut iter = nest.into_iter();
    assert_eq!(iter.next(), None);
}

#[test]
fn nest_iter_without_fetch_yields_nothing() {
    let mut numbers = Numbers::new();
    let a = numbers.spawn(1);
    numbers.spawn(2);
    let nest = Nest::<stecs::column::ColumnRawParts<i32>, _>::new(&numbers, a, None);
    let mut iter = nest.into_iter();
    assert_eq!(iter.next(), None);
}

#[test]
fn nest2_skips_both_visited_entities() {
    let mut numbers = Numbers::new();
    let a = numbers.spawn(1);
    let b = numbers.spawn(2);
    let c = numbers.spawn(3);
    let parts = numbers.columns().as_raw_parts();
    let mut nest2 = Nest2::new(a, numbers.fetch(Some(parts)), numbers.fetch(Some(parts)));
    assert!(nest2.get_mut(a).is_none());
    let (item, mut nest1) = nest2.get_mut(b).unwrap();
    assert_eq!(item, &2);
    assert_eq!(nest1.get_mut(a), None);
    assert_eq!(nest1.get_mut(b), None);
    assert_eq!(nest1.get_mut(c), Some(&3));
}

#[test]
fn world_fetch_iter_yields_rows_in_order() {
    let mut numbers = Numbers::new();
    numbers.spawn(4);
    numbers.spawn(5);
    let mut iter = WorldFetchIter::new(numbers.fetch(Some(numbers.columns().as_raw_parts())));
    assert_eq!(iter.size_hint(), (2, Some(2)));
    assert_eq!(iter.next(), Some(&4));
    assert_eq!(iter.next(), Some(&5));
    assert_eq!(iter.next(), None);
    let mut empty = WorldFetchIter::new(numbers.fetch::<stecs::column::ColumnRawParts<i32>>(None));
    assert_eq!(empty.size_hint(), (0, Some(0)));
    assert_eq!(empty.next(), None);
}

#[test]
fn world_fetch_iter_skip_one() {
    let mut numbers = Numbers::new();
    numbers.spawn(4);
    numbers.spawn(5);
    let mut iter = WorldFetchIter::new(numbers.fetch(Some(numbers.columns().as_raw_parts())));
    iter.skip_one();
    assert_eq!(iter.next(), Some(&5));
}

#[test]
fn nest_iter_yields_every_other_row_in_row_order() {
    let mut numbers = Numbers::new();
    let _a = numbers.spawn(1);
    let b = numbers.spawn(2);
    let c = numbers.spawn(3);
    let _d = numbers.spawn(4);
    let _e = numbers.spawn(5);
    assert_eq!(numbers.despawn(b), Some(2));
    assert_eq!(numbers.columns().as_slice(), &[1, 5, 3, 4]);
    let nest = Nest::new(&numbers, c, Some(numbers.columns().as_raw_parts()));
    let mut iter = nest.into_iter();
    let mut seen = Vec::new();
    while let Some(v) = iter.next() {
        seen.push(*v);
    }
    assert_eq!(seen, vec![1, 5, 4]);
    assert_eq!(iter.next(), None);
}
