use stecs::column::{downcast_ref, Column};

fn column_of(values: &[i32]) -> Column<i32> {
    let mut column = Column::default();
    for v in values {
        column.push(*v);
    }
    column
}

#[test]
fn push_and_read() {
    let column = column_of(&[1, 2, 3]);
    assert_eq!(column.len(), 3);
    assert!(!column.is_empty());
    assert_eq!(*column.get(1), 2);
    assert_eq!(column.last(), Some(&3));
    assert_eq!(column.as_slice(), &[1, 2, 3]);
}

#[test]
fn empty_column() {
    let column: Column<i32> = Column::default();
    assert!(column.is_empty());
    assert_eq!(column.last(), None);
    assert_eq!(column.into_vec(), Vec::<i32>::new());
}

#[test]
fn remove_moves_last_row_into_gap() {
    let mut column = column_of(&[10, 20, 30, 40]);
    assert_eq!(column.remove(1), 20);
    assert_eq!(column.as_slice(), &[10, 40, 30]);
    assert_eq!(column.remove(2), 30);
    assert_eq!(column.into_vec(), vec![10, 40]);
}

#[test]
fn raw_parts_see_all_rows() {
    let column = column_of(&[5, 6]);
    let parts = column.as_raw_parts();
    assert_eq!(parts.rows, &[5, 6]);
}

#[test]
fn clone_copies_rows() {
    let column = column_of(&[7, 8]);
    let copy = column.clone();
    assert_eq!(copy.as_slice(), column.as_slice());
}

#[test]
fn downcast_to_own_type_gives_same_column() {
    let column = column_of(&[4, 5, 6]);
    let same = downcast_ref::<i32, i32>(&column).expect("same type");
    assert_eq!(same.as_slice(), &[4, 5, 6]);
    assert!(std::ptr::eq(same, &column));
}

#[test]
fn downcast_to_other_type_gives_none() {
    let column = column_of(&[4, 5, 6]);
    assert!(downcast_ref::<i32, u64>(&column).is_none());
}
