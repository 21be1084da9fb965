use fastio::mmap::{map_range_end, plan_map_range, plan_map_window, whole_map_len, MapWindow};
use fastio::options::OpenFlags;
use fastio::positioned::{positioned_offset, read_len, record_progress, write_workers};
use fastio::ring::TransferMode;
use fastio::{Error, ErrorKind};

const SEEK_READ_ZERO: &str = "unexpected EOF during positioned read";
const SEEK_WRITE_ZERO: &str = "seek_write returned zero bytes";

#[test]
fn map_window_aligns_to_pages() {
    let w = plan_map_window(4106, 20, 4126, 8192, 4096).unwrap();
    assert_eq!(w, MapWindow { aligned_offset: 4096, start: 10, map_len: 30 });
    let w = plan_map_window(4096, 100, 4196, 8192, 4096).unwrap();
    assert_eq!(w, MapWindow { aligned_offset: 4096, start: 0, map_len: 100 });
    let w = plan_map_window(10, 20, 30, 100, 4096).unwrap();
    assert_eq!(w, MapWindow { aligned_offset: 0, start: 10, map_len: 30 });
}

#[test]
fn map_window_errors() {
    assert_eq!(plan_map_window(0, 1000, 1000, 2, 4096).unwrap_err().kind(), ErrorKind::UnexpectedEof);
    assert_eq!(plan_map_window(0, 10, 10, 20, 0).unwrap_err().kind(), ErrorKind::InvalidInput);
    assert_eq!(map_range_end(0, 0).unwrap_err().kind(), ErrorKind::InvalidInput);
    assert_eq!(map_range_end(u64::MAX, 2).unwrap_err().kind(), ErrorKind::InvalidInput);
    assert_eq!(map_range_end(10, 20).unwrap(), 30);
    assert_eq!(whole_map_len(0).unwrap_err().kind(), ErrorKind::InvalidData);
    assert_eq!(whole_map_len(4096).unwrap(), 4096);
}

#[test]
fn map_range_on_this_system_covers_the_request() {
    let w = plan_map_range(4196, 100, 4296, 8192).unwrap();
    assert_eq!(w.aligned_offset + w.start as u64, 4196);
    assert_eq!(w.map_len, w.start + 100);
    assert!(w.start > 0);
    assert_eq!(plan_map_range(0, 1000, 1000, 2).unwrap_err().kind(), ErrorKind::UnexpectedEof);
}

#[test]
fn positioned_helpers() {
    assert_eq!(read_len(5).unwrap(), 5);
    assert_eq!(positioned_offset(10, 5, TransferMode::Read).unwrap(), 15);
    let err = positioned_offset(u64::MAX, 1, TransferMode::Read).unwrap_err();
    assert_eq!(err.kind(), ErrorKind::InvalidInput);
    assert_eq!(err.message(), "read offset overflow");
    let err = positioned_offset(u64::MAX, 1, TransferMode::Write).unwrap_err();
    assert_eq!(err.message(), "write offset overflow");
    assert_eq!(record_progress(2, 3, 5, TransferMode::Read, SEEK_READ_ZERO).unwrap(), 5);
    let err = record_progress(0, 0, 5, TransferMode::Read, SEEK_READ_ZERO).unwrap_err();
    assert_eq!(err.kind(), ErrorKind::UnexpectedEof);
    assert_eq!(err.message(), SEEK_READ_ZERO);
    let err = record_progress(0, 0, 5, TransferMode::Write, SEEK_WRITE_ZERO).unwrap_err();
    assert_eq!(err.kind(), ErrorKind::WriteZero);
    assert_eq!(err.message(), SEEK_WRITE_ZERO);
}

#[test]
fn write_workers_are_bounded() {
    assert_eq!(write_workers(Some(8), 3), 3);
    assert_eq!(write_workers(Some(2), 16), 2);
    assert_eq!(write_workers(None, 5), 1);
    assert_eq!(write_workers(Some(0), 5), 1);
    assert_eq!(write_workers(Some(4), 0), 1);
}

#[test]
fn open_flags_builder_sets_each_flag() {
    let mut flags = OpenFlags::new();
    flags.read(true).create(true).truncate(true);
    assert_eq!(
        flags,
        OpenFlags { read: true, write: false, append: false, truncate: true, create: true, create_new: false }
    );
    flags.write(true).append(true).create_new(true).read(false);
    assert_eq!(
        flags,
        OpenFlags { read: false, write: true, append: true, truncate: true, create: true, create_new: true }
    );
    assert_eq!(OpenFlags::default(), OpenFlags::new());
}

#[test]
fn errors_carry_kind_message_and_code() {
    let e = Error::new(ErrorKind::InvalidData, "bad");
    assert_eq!(e.kind(), ErrorKind::InvalidData);
    assert_eq!(e.message(), "bad");
    assert_eq!(e.raw_os_error(), None);
    assert_eq!(Error::other("x").kind(), ErrorKind::Other);
    let os = Error::from_raw_os_error(2);
    assert_eq!(os.kind(), ErrorKind::Os);
    assert_eq!(os.raw_os_error(), Some(2));
}
