use data_view::DataView;
use data_view::OutOfBounds;

#[test]
fn new_starts_at_zero() {
    let view = DataView::new(vec![0; 16]);
    assert_eq!(view.offset, 0);
    assert_eq!(view.data, vec![0; 16]);
}

#[test]
fn from_vec_and_default() {
    let view = DataView::from(vec![1, 2, 3]);
    assert_eq!(view.offset, 0);
    assert_eq!(view.data, vec![1, 2, 3]);
    let empty = DataView::default();
    assert_eq!(empty.offset, 0);
    assert!(empty.data.is_empty());
}

#[test]
fn write_then_read_round_trip() {
    let mut view = DataView::new(vec![0; 4]);
    assert_eq!(view.write::<u16>(42), Ok(()));
    view.offset = 0;
    assert_eq!(view.read::<u16>(), Some(42));
}

#[test]
fn end_to_end_scenario() {
    // Four zero bytes, little-endian mode.
    let mut cursor = DataView::new(vec![0, 0, 0, 0]);
    assert_eq!(cursor.write::<u16>(42), Ok(()));
    assert_eq!(cursor.data, vec![42, 0, 0, 0]);
    assert_eq!(cursor.offset, 2);
    assert_eq!(cursor.write::<u16>(300), Ok(()));
    assert_eq!(cursor.data, vec![42, 0, 44, 1]);
    assert_eq!(cursor.offset, 4);
    // Zero bytes remain: the write fails, nothing moves.
    assert_eq!(cursor.write::<u8>(1), Err(OutOfBounds));
    assert_eq!(cursor.data, vec![42, 0, 44, 1]);
    assert_eq!(cursor.offset, 4);
}

#[test]
fn offset_accumulates_over_successful_operations() {
    let mut view = DataView::new(vec![0; 32]);
    assert_eq!(view.write::<u8>(1), Ok(()));
    assert_eq!(view.write::<u16>(2), Ok(()));
    assert_eq!(view.write::<u32>(3), Ok(()));
    assert_eq!(view.write::<u64>(4), Ok(()));
    assert_eq!(view.write_slice(&[5, 6, 7]), Ok(()));
    assert_eq!(view.offset, 1 + 2 + 4 + 8 + 3);
    view.offset = 0;
    assert_eq!(view.read::<u8>(), Some(1));
    assert_eq!(view.read::<u16>(), Some(2));
    assert_eq!(view.read::<u32>(), Some(3));
    assert_eq!(view.read::<u64>(), Some(4));
    assert!(view.read_slice(3).is_some());
    assert_eq!(view.offset, 1 + 2 + 4 + 8 + 3);
}

#[test]
fn failing_read_changes_nothing() {
    let mut view = DataView::new(vec![1, 2, 3]);
    view.offset = 2;
    assert_eq!(view.read::<u32>(), None);
    assert_eq!(view.offset, 2);
    assert_eq!(view.data, vec![1, 2, 3]);
    assert!(view.read_slice(2).is_none());
    assert_eq!(view.offset, 2);
    assert!(view.read_buf::<2>().is_none());
    assert_eq!(view.offset, 2);
}

#[test]
fn failing_write_changes_nothing() {
    let mut view = DataView::new(vec![1, 2, 3]);
    view.offset = 2;
    assert_eq!(view.write::<u16>(0xFFFF), Err(OutOfBounds));
    assert_eq!(view.offset, 2);
    assert_eq!(view.data, vec![1, 2, 3]);
    assert_eq!(view.write_slice(&[9, 9]), Err(OutOfBounds));
    assert_eq!(view.offset, 2);
    assert_eq!(view.data, vec![1, 2, 3]);
}

#[test]
fn read_slice_consecutive() {
    let mut view = DataView::new(vec![1, 2, 3, 4]);
    assert_eq!(view.read_slice(2).unwrap(), &[1, 2]);
    assert_eq!(view.read_slice(2).unwrap(), &[3, 4]);
    assert!(view.read_slice(1).is_none());
}

#[test]
fn read_slice_unchecked_consecutive() {
    let mut view = DataView::new(vec![1, 2, 3, 4]);
    assert_eq!(view.read_slice_unchecked(2), &[1, 2]);
    assert_eq!(view.read_slice_unchecked(2), &[3, 4]);
    assert_eq!(view.offset, 4);
}

#[test]
fn read_buf_consecutive() {
    let mut view = DataView::new(vec![1, 2, 3, 4]);
    assert_eq!(view.read_buf::<2>().unwrap(), [1, 2]);
    assert_eq!(view.read_buf::<2>().unwrap(), [3, 4]);
    assert!(view.read_buf::<1>().is_none());
}

#[test]
fn read_buf_unchecked_consecutive() {
    let mut view = DataView::new(vec![1, 2, 3, 4]);
    assert_eq!(view.read_buf_unchecked::<2>(), [1, 2]);
    assert_eq!(view.read_buf_unchecked::<2>(), [3, 4]);
    assert_eq!(view.offset, 4);
}

#[test]
fn read_buf_of_zero_bytes_always_succeeds_in_bounds() {
    let mut view = DataView::new(vec![1, 2]);
    assert_eq!(view.read_buf::<0>(), Some([]));
    assert_eq!(view.offset, 0);
}

#[test]
fn read_unchecked_sequential() {
    let mut view = DataView::new(vec![0x34, 0x12, 0xFF]);
    let v: u16 = view.read_unchecked();
    assert_eq!(v, 0x1234);
    let w: u8 = view.read_unchecked();
    assert_eq!(w, 0xFF);
    assert_eq!(view.offset, 3);
}

#[test]
fn write_single_bytes() {
    let mut view = DataView::new(vec![0; 2]);
    assert_eq!(view.write::<u8>(12), Ok(()));
    assert_eq!(view.write::<u8>(34), Ok(()));
    assert_eq!(view.data, vec![12, 34]);
}

#[test]
fn write_slice_consecutive() {
    let mut view = DataView::new(vec![0; 4]);
    assert_eq!(view.write_slice(&[1, 2]), Ok(()));
    assert_eq!(view.write_slice(&[3, 4]), Ok(()));
    assert_eq!(view.data, vec![1, 2, 3, 4]);
    assert_eq!(view.offset, 4);
}

#[test]
fn write_slice_of_nothing_moves_nothing() {
    let mut view = DataView::new(vec![7, 8]);
    assert_eq!(view.write_slice(&[]), Ok(()));
    assert_eq!(view.offset, 0);
    assert_eq!(view.data, vec![7, 8]);
}

#[test]
fn remaining_slice_views_the_tail() {
    let mut view = DataView::new(vec![1, 2, 3]);
    assert_eq!(view.remaining_slice(), &[1, 2, 3]);
    view.offset = 1;
    assert_eq!(view.remaining_slice(), &[2, 3]);
    view.offset = 3;
    assert!(view.remaining_slice().is_empty());
}

#[test]
fn remaining_slice_never_fails_beyond_the_end() {
    let mut view = DataView::new(vec![1, 2, 3]);
    view.offset = 100;
    assert!(view.remaining_slice().is_empty());
    assert_eq!(view.offset, 100);
    view.offset = usize::MAX;
    assert!(view.remaining_slice().is_empty());
}

#[test]
fn operations_fail_beyond_the_end() {
    let mut view = DataView::new(vec![1, 2, 3]);
    view.offset = 100;
    assert_eq!(view.read::<u8>(), None);
    assert_eq!(view.write::<u8>(1), Err(OutOfBounds));
    assert_eq!(view.write_slice(&[]), Err(OutOfBounds));
    assert_eq!(view.offset, 100);
    assert_eq!(view.data, vec![1, 2, 3]);
}

#[test]
fn wide_values_through_the_cursor() {
    let mut view = DataView::new(vec![0; 32]);
    assert_eq!(view.write::<u128>(u128::MAX - 5), Ok(()));
    assert_eq!(view.write::<i128>(i128::MIN + 1), Ok(()));
    assert_eq!(view.offset, 32);
    view.offset = 0;
    assert_eq!(view.read::<u128>(), Some(u128::MAX - 5));
    assert_eq!(view.read::<i128>(), Some(i128::MIN + 1));
}

#[test]
fn cursor_clone_and_eq() {
    let mut view = DataView::new(vec![1, 2, 3, 4]);
    assert_eq!(view.read::<u16>(), Some(0x0201));
    let copy = view.clone();
    assert_eq!(copy, view);
    assert_eq!(copy.offset, 2);
}
