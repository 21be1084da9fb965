use fastio::ring::{needs_new_ring, validate_ring_options, RingTransfer, Submission, TransferMode};
use fastio::{ErrorKind, IoUring, IoUringOptions, WriteSlice, WriteSlices};

fn sub(segment: usize, buf_offset: usize, len: u32, file_offset: u64) -> Submission {
    Submission { segment, buf_offset, len, file_offset }
}

#[test]
fn chunked_transfer_resubmits_partial_chunks_until_complete() {
    let mut t = RingTransfer::chunked(10, 4, 100, 2, TransferMode::Read);
    assert_eq!(t.segment_count(), 3);
    assert_eq!(t.next_submission(), Some(sub(0, 0, 4, 100)));
    assert_eq!(t.next_submission(), Some(sub(1, 4, 4, 104)));
    assert_eq!(t.next_submission(), None);
    assert_eq!(t.in_flight(), 2);
    assert!(!t.finished());

    t.complete(1, 4).unwrap();
    t.complete(0, 2).unwrap();
    assert_eq!(t.next_submission(), Some(sub(0, 2, 2, 102)));
    assert_eq!(t.next_submission(), Some(sub(2, 8, 2, 108)));
    assert_eq!(t.next_submission(), None);

    t.complete(2, 2).unwrap();
    t.complete(0, 2).unwrap();
    assert_eq!(t.next_submission(), None);
    assert_eq!(t.in_flight(), 0);
    assert!(t.finished());
}

#[test]
fn chunked_transfer_never_doubles_an_in_flight_chunk() {
    let mut t = RingTransfer::chunked(12, 4, 0, 8, TransferMode::Write);
    assert_eq!(t.next_submission(), Some(sub(0, 0, 4, 0)));
    assert_eq!(t.next_submission(), Some(sub(1, 4, 4, 4)));
    assert_eq!(t.next_submission(), Some(sub(2, 8, 4, 8)));
    assert_eq!(t.next_submission(), None);
    // a short completion of chunk 0 while chunks 1 and 2 are still in flight
    t.complete(0, 1).unwrap();
    assert_eq!(t.next_submission(), Some(sub(0, 1, 3, 1)));
    assert_eq!(t.next_submission(), None);
    t.complete(1, 4).unwrap();
    t.complete(2, 4).unwrap();
    t.complete(0, 3).unwrap();
    assert_eq!(t.next_submission(), None);
    assert!(t.finished());
}

#[test]
fn chunk_larger_than_buffer_is_one_chunk() {
    let mut t = RingTransfer::chunked(5, 4096, 7, 256, TransferMode::Read);
    assert_eq!(t.segment_count(), 1);
    assert_eq!(t.next_submission(), Some(sub(0, 0, 5, 7)));
    t.complete(0, 5).unwrap();
    assert!(t.finished());
}

#[test]
fn completion_errors_match_the_ring_result() {
    let mut t = RingTransfer::chunked(8, 8, 0, 4, TransferMode::Read);
    assert_eq!(t.complete(0, 8).unwrap_err().kind(), ErrorKind::Other);
    assert!(t.failed());
    assert_eq!(t.next_submission(), None);

    let mut t = RingTransfer::chunked(8, 8, 0, 4, TransferMode::Read);
    t.next_submission().unwrap();
    assert_eq!(t.complete(9, 8).unwrap_err().kind(), ErrorKind::Other);
    assert_eq!(t.in_flight(), 1);

    let mut t = RingTransfer::chunked(8, 8, 0, 4, TransferMode::Read);
    t.next_submission().unwrap();
    let err = t.complete(0, -5).unwrap_err();
    assert_eq!(err.kind(), ErrorKind::Os);
    assert_eq!(err.raw_os_error(), Some(5));

    let mut t = RingTransfer::chunked(8, 8, 0, 4, TransferMode::Read);
    t.next_submission().unwrap();
    let err = t.complete(0, 0).unwrap_err();
    assert_eq!(err.kind(), ErrorKind::UnexpectedEof);
    assert_eq!(err.message(), "short io_uring read");

    let mut t = RingTransfer::chunked(8, 8, 0, 4, TransferMode::Write);
    t.next_submission().unwrap();
    let err = t.complete(0, 0).unwrap_err();
    assert_eq!(err.kind(), ErrorKind::WriteZero);
    assert_eq!(err.message(), "short io_uring write");

    let mut t = RingTransfer::chunked(8, 8, 0, 4, TransferMode::Write);
    t.next_submission().unwrap();
    assert_eq!(t.complete(0, 9).unwrap_err().kind(), ErrorKind::Other);
}

#[test]
fn batch_transfer_writes_each_slice_at_its_offset() {
    let slices = [WriteSlice::new(0, b"AB"), WriteSlice::new(8, b"CD"), WriteSlice::new(4, b"")];
    let writes = WriteSlices::new(&slices).unwrap();
    let ring = IoUring::default();
    let mut t = ring.batch_transfer(writes);
    assert_eq!(t.segment_count(), 3);
    assert_eq!(t.next_submission(), Some(sub(0, 0, 2, 0)));
    assert_eq!(t.next_submission(), Some(sub(1, 0, 2, 8)));
    assert_eq!(t.next_submission(), None);
    t.complete(1, 2).unwrap();
    t.complete(0, 2).unwrap();
    assert_eq!(t.next_submission(), None);
    assert!(t.finished());
}

#[test]
fn depth_one_keeps_a_single_operation_in_flight() {
    let ring = IoUring::with_options(IoUringOptions { ring_depth: 1, chunk_size: 3 }).unwrap();
    let mut t = ring.exact_transfer(7, 1000, TransferMode::Read);
    assert_eq!(t.next_submission(), Some(sub(0, 0, 3, 1000)));
    assert_eq!(t.next_submission(), None);
    t.complete(0, 3).unwrap();
    assert_eq!(t.next_submission(), Some(sub(1, 3, 3, 1003)));
    t.complete(1, 3).unwrap();
    assert_eq!(t.next_submission(), Some(sub(2, 6, 1, 1006)));
    t.complete(2, 1).unwrap();
    assert_eq!(t.next_submission(), None);
    assert!(t.finished());
}

#[test]
fn ring_options_are_validated() {
    let err = IoUring::with_options(IoUringOptions { ring_depth: 0, chunk_size: 1 }).unwrap_err();
    assert_eq!(err.kind(), ErrorKind::InvalidInput);
    assert_eq!(err.message(), "ring_depth must be greater than zero");
    let err = IoUring::with_options(IoUringOptions { ring_depth: 1, chunk_size: 0 }).unwrap_err();
    assert_eq!(err.message(), "chunk_size must be greater than zero");
    let ok = IoUring::with_options(IoUringOptions { ring_depth: 8, chunk_size: 64 }).unwrap();
    assert_eq!(ok.options(), IoUringOptions { ring_depth: 8, chunk_size: 64 });
    let d = IoUringOptions::default();
    assert_eq!(d.ring_depth, 256);
    assert_eq!(d.chunk_size, 4 * 1024 * 1024);
    assert_eq!(IoUring::default().options(), d);
    assert!(validate_ring_options(1, 1).is_ok());
    assert!(validate_ring_options(0, 0).is_err());
}

#[test]
fn ring_is_rebuilt_only_when_missing_or_too_small() {
    assert!(needs_new_ring(None, 1));
    assert!(needs_new_ring(Some(128), 256));
    assert!(!needs_new_ring(Some(256), 256));
    assert!(!needs_new_ring(Some(512), 256));
}

#[test]
fn failed_transfer_drains_operations_in_flight() {
    let mut t = RingTransfer::chunked(12, 4, 0, 8, TransferMode::Read);
    assert_eq!(t.next_submission(), Some(sub(0, 0, 4, 0)));
    assert_eq!(t.next_submission(), Some(sub(1, 4, 4, 4)));
    assert_eq!(t.next_submission(), Some(sub(2, 8, 4, 8)));
    assert_eq!(t.complete(1, 0).unwrap_err().kind(), ErrorKind::UnexpectedEof);
    assert!(t.failed());
    // nothing more is offered, not even the rest of the failed chunk
    assert_eq!(t.next_submission(), None);
    assert!(!t.finished());
    assert_eq!(t.in_flight(), 2);
    t.complete(0, 4).unwrap();
    assert_eq!(t.next_submission(), None);
    assert!(!t.finished());
    t.complete(2, 4).unwrap();
    assert_eq!(t.in_flight(), 0);
    assert!(t.finished());
}

#[test]
fn withdrawn_submission_fails_the_transfer() {
    let mut t = RingTransfer::chunked(8, 4, 0, 8, TransferMode::Write);
    let first = t.next_submission().unwrap();
    let second = t.next_submission().unwrap();
    t.withdraw(second.segment);
    assert!(t.failed());
    assert_eq!(t.in_flight(), 1);
    assert_eq!(t.next_submission(), None);
    t.complete(first.segment as u64, 4).unwrap();
    assert!(t.finished());
}
