use std::any::TypeId;
use stecs::archetype::EntityKey;
use stecs::column::Column;
use stecs::query::borrow_checker::{BorrowChecker, BorrowConflict};
use stecs::query::fetch::{Fetch, OptionFetch, UnitFetch, WithFetch, WithoutFetch};
use stecs::query::iter::FetchIter;
use stecs::query::{find_borrow_violation, query_borrow_violation, query_borrows, Or, With, Without};

#[test]
fn or_new_cases() {
    assert!(Or::<i32, i32>::new(None, None).is_none());
    assert!(matches!(Or::<i32, i32>::new(Some(1), None), Some(Or::Left(1))));
    assert!(matches!(Or::<i32, i32>::new(None, Some(2)), Some(Or::Right(2))));
    assert!(matches!(Or::<i32, i32>::new(Some(1), Some(2)), Some(Or::Both(1, 2))));
}

#[test]
fn or_accessors() {
    let both: Or<i32, &str> = Or::Both(1, "x");
    assert_eq!(both.split(), (Some(1), Some("x")));
    assert_eq!(both.left(), Some(1));
    assert_eq!(both.right(), Some("x"));
    let left: Or<i32, &str> = Or::Left(4);
    assert_eq!(left.split(), (Some(4), None));
    assert_eq!(left.right(), None);
    let right: Or<i32, &str> = Or::Right("y");
    assert_eq!(right.left(), None);
    assert_eq!(right.split(), (None, Some("y")));
}

#[test]
fn or_map_keeps_variant() {
    let both: Or<i32, i32> = Or::Both(2, 3);
    assert!(matches!(both.map(|l| l * 10, |r| r + 1), Or::Both(20, 4)));
    let left: Or<i32, i32> = Or::Left(5);
    assert!(matches!(left.map(|l| l - 1, |r| r), Or::Left(4)));
}

#[test]
fn or_as_ref_and_as_mut() {
    let mut both: Or<i32, i32> = Or::Both(2, 3);
    assert!(matches!(both.as_ref(), Or::Both(&2, &3)));
    if let Or::Both(l, r) = both.as_mut() {
        *l += 1;
        *r += 1;
    }
    assert!(matches!(both, Or::Both(3, 4)));
}

#[test]
fn borrow_violations_found_in_order() {
    let a = TypeId::of::<u8>();
    let b = TypeId::of::<u16>();
    assert_eq!(find_borrow_violation(&vec![(a, false), (b, false), (a, false)]), None);
    assert_eq!(find_borrow_violation(&vec![(a, false), (b, true), (a, true)]), Some((2, 0)));
    assert_eq!(find_borrow_violation(&vec![(a, true), (a, true)]), Some((0, 1)));
    assert_eq!(find_borrow_violation(&vec![(a, true), (b, true)]), None);
    assert_eq!(find_borrow_violation(&vec![]), None);
}

#[test]
fn query_borrows_follow_the_query() {
    let borrows = query_borrows::<(&u8, &mut u16, EntityKey<u32>)>();
    assert_eq!(borrows, vec![(TypeId::of::<u8>(), false), (TypeId::of::<u16>(), true)]);
    assert_eq!(query_borrows::<With<&u8, &mut u16>>(), vec![(TypeId::of::<u8>(), false)]);
    assert_eq!(query_borrows::<Without<&mut u8, &u16>>(), vec![(TypeId::of::<u8>(), true)]);
    assert_eq!(query_borrows::<Option<&u8>>(), vec![(TypeId::of::<u8>(), false)]);
    assert_eq!(query_borrows::<()>(), vec![]);
}

#[test]
fn query_violations() {
    assert_eq!(query_borrow_violation::<(&u8, &u8)>(), None);
    assert_eq!(query_borrow_violation::<(&u8, &mut u16)>(), None);
    assert_eq!(query_borrow_violation::<(&u8, &mut u8)>(), Some((1, 0)));
    assert_eq!(query_borrow_violation::<Or<&mut u8, (&u16, &mut u8)>>(), Some((0, 2)));
}

#[test]
fn borrow_checker_accepts_shared_then_refuses_exclusive() {
    let mut checker = BorrowChecker::new("q");
    assert_eq!(checker.query(), "q");
    assert_eq!(checker.borrow::<u8>(), Ok(()));
    assert_eq!(checker.borrow::<u8>(), Ok(()));
    assert_eq!(checker.borrow_mut::<u8>(), Err(BorrowConflict::ExclusiveAndShared));
    assert_eq!(checker.borrow_mut::<u16>(), Ok(()));
    assert_eq!(checker.borrow_mut::<u16>(), Err(BorrowConflict::ExclusiveAndExclusive));
    assert_eq!(checker.borrow::<u16>(), Err(BorrowConflict::ExclusiveAndShared));
}

#[test]
fn borrow_checker_by_id() {
    let mut checker = BorrowChecker::new("q");
    let id = TypeId::of::<i64>();
    assert_eq!(checker.borrow_mut_id(id), Ok(()));
    assert_eq!(checker.borrow_id(id), Err(BorrowConflict::ExclusiveAndShared));
}

fn column_of(values: &[i32]) -> Column<i32> {
    let mut column = Column::default();
    for v in values {
        column.push(*v);
    }
    column
}

#[test]
fn column_fetch_yields_rows() {
    let column = column_of(&[4, 5, 6]);
    let fetch = column.as_raw_parts();
    assert_eq!(fetch.len(), 3);
    assert!(!fetch.is_empty());
    assert_eq!(*fetch.get(2), 6);
}

#[test]
fn with_and_without_fetch() {
    let column = column_of(&[1, 2]);
    let parts = column.as_raw_parts();
    assert!(WithFetch::new(Some(parts), Some(UnitFetch::new(2))).is_some());
    assert!(WithFetch::new(Some(parts), None::<UnitFetch>).is_none());
    assert!(WithFetch::<_, UnitFetch>::new(None::<UnitFetch>, Some(UnitFetch::new(2))).is_none());
    assert!(WithoutFetch::new(Some(parts), None::<UnitFetch>).is_some());
    assert!(WithoutFetch::new(Some(parts), Some(UnitFetch::new(2))).is_none());
    let with = WithFetch::new(Some(parts), Some(UnitFetch::new(2))).unwrap();
    assert_eq!(*with.get(1), 2);
    assert_eq!(with.len(), 2);
}

#[test]
fn option_fetch_yields_none_without_column() {
    let column = column_of(&[1, 2]);
    let present = OptionFetch::new(Some(column.as_raw_parts()), 2);
    assert_eq!(present.get(0), Some(&1));
    let absent = OptionFetch::<UnitFetch>::new(None, 3);
    assert_eq!(absent.len(), 3);
    assert_eq!(absent.get(2), None);
}

#[test]
fn or_fetch_combines() {
    let column = column_of(&[1, 2]);
    let other = column_of(&[3, 4]);
    let both = Or::new(Some(column.as_raw_parts()), Some(other.as_raw_parts())).unwrap();
    assert!(matches!(both.get(1), Or::Both(&2, &4)));
    assert_eq!(both.len(), 2);
}

#[test]
fn tuple_fetch_reads_each_part() {
    let column = column_of(&[1, 2]);
    let other = column_of(&[3, 4]);
    let pair = (column.as_raw_parts(), other.as_raw_parts());
    assert_eq!(pair.get(0), (&1, &3));
    assert_eq!(pair.len(), 2);
}

#[test]
fn fetch_iter_walks_rows() {
    let column = column_of(&[7, 8, 9]);
    let mut iter = FetchIter::new(column.as_raw_parts());
    assert_eq!(iter.next(), Some(&7));
    iter.skip_one();
    assert_eq!(iter.next(), Some(&9));
    assert_eq!(iter.next(), None);
    iter.skip_one();
    assert_eq!(iter.next(), None);
}

#[test]
fn unit_fetch_counts_rows() {
    let mut iter = FetchIter::new(UnitFetch::new(2));
    assert_eq!(iter.next(), Some(()));
    assert_eq!(iter.next(), Some(()));
    assert_eq!(iter.next(), None);
}

#[test]
fn or_split_then_new_round_trip() {
    let values: [Or<i32, i32>; 3] = [Or::Left(1), Or::Right(2), Or::Both(3, 4)];
    for v in values {
        let (l, r) = v.split();
        let back = Or::new(l, r).unwrap();
        assert_eq!(back.split(), v.split());
    }
}
