use fastio::range::{FileRange, RangeRead};
use fastio::{ByteRange, Bytes, ErrorKind, RequestIndex};
use std::path::Path;

#[test]
fn byte_range_new_validates_order() {
    let range = ByteRange::new(10, 20).unwrap();
    assert_eq!(range.start(), 10);
    assert_eq!(range.end(), 20);
    assert_eq!(range.len(), 10);
    assert!(!range.is_empty());
    assert!(ByteRange::new(20, 10).is_err());
}

#[test]
fn byte_range_from_offset_len_validates_overflow() {
    let range = ByteRange::from_offset_len(10, 5).unwrap();
    assert_eq!(range, ByteRange::new(10, 15).unwrap());
    assert!(ByteRange::from_offset_len(u64::MAX, 1).is_err());
}

#[test]
fn byte_range_errors_are_invalid_input() {
    assert_eq!(ByteRange::new(5, 4).unwrap_err().kind(), ErrorKind::InvalidInput);
    assert_eq!(
        ByteRange::from_offset_len(u64::MAX - 2, 3).unwrap_err().kind(),
        ErrorKind::InvalidInput
    );
    assert_eq!(ByteRange::new(5, 4).unwrap_err().message(), "byte range end is before start");
    assert_eq!(ByteRange::from_offset_len(u64::MAX, 1).unwrap_err().message(), "byte range overflow");
}

#[test]
fn byte_range_edges() {
    let empty = ByteRange::new(7, 7).unwrap();
    assert!(empty.is_empty());
    assert_eq!(empty.len(), 0);
    assert_eq!(empty.len_usize().unwrap(), 0);
    let full = ByteRange::new(0, u64::MAX).unwrap();
    assert_eq!(full.len(), u64::MAX);
    let last = ByteRange::from_offset_len(u64::MAX - 3, 3).unwrap();
    assert_eq!(last.end(), u64::MAX);
    assert_eq!(ByteRange::new(3, 11).unwrap().len_usize().unwrap(), 8);
}

#[test]
fn request_index_roundtrips_and_displays() {
    let idx = RequestIndex::new(42);
    assert_eq!(idx.as_usize(), 42);
    assert_eq!(idx.to_string(), "42");
    assert_eq!(RequestIndex::new(0).to_string(), "0");
    assert_eq!(RequestIndex::new(1090).to_string(), "1090");
    assert!(RequestIndex::new(3) < RequestIndex::new(4));
}

#[test]
fn file_range_and_range_read_hold_their_parts() {
    let path = Path::new("model.bin");
    let range = ByteRange::new(2, 5).unwrap();
    let fr: FileRange = FileRange::new(path, range);
    assert_eq!(fr.path, path);
    assert_eq!(fr.range, range);
    let read = RangeRead {
        request_index: RequestIndex::new(1),
        range,
        bytes: Bytes::from_vec(b"cde".to_vec()),
    };
    assert_eq!(read.data(), b"cde");
    assert_eq!(read.request_index.as_usize(), 1);
}
