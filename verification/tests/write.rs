use fastio::{ErrorKind, WriteSlice, WriteSlices};

#[test]
fn write_slice_end_offset_validates_overflow() {
    assert_eq!(WriteSlice::new(10, b"abc").end_offset().unwrap(), 13);
    assert!(WriteSlice::new(u64::MAX, b"x").end_offset().is_err());
}

#[test]
fn write_slices_detects_overlap() {
    let a = WriteSlice::new(0, b"AAAAA");
    let b = WriteSlice::new(3, b"BBBBB");
    let err = WriteSlices::new(&[a, b]).unwrap_err();
    assert_eq!(err.kind(), ErrorKind::InvalidInput);
}

#[test]
fn write_slices_allows_empty_slice_inside_non_empty_range() {
    let a = WriteSlice::new(0, b"AAAAA");
    let b = WriteSlice::new(3, b"");
    assert!(WriteSlices::new(&[a, b]).is_ok());
}

#[test]
fn write_slices_allows_adjacent_ranges() {
    let a = WriteSlice::new(0, b"abc");
    let b = WriteSlice::new(3, b"def");
    let slices = [a, b];

    let writes = WriteSlices::new(&slices).unwrap();

    assert_eq!(writes.len(), 2);
}

#[test]
fn write_slices_allows_unsorted_non_overlapping_ranges() {
    let first = WriteSlice::new(10, b"tail");
    let second = WriteSlice::new(0, b"head");
    let slices = [first, second];

    let writes = WriteSlices::new(&slices).unwrap();

    assert_eq!(writes.as_slice()[0].offset, 10);
    assert_eq!(writes.as_slice()[1].offset, 0);
}

#[test]
fn write_slices_rejects_offset_overflow() {
    let a = WriteSlice::new(u64::MAX - 1, b"aa");
    let b = WriteSlice::new(0, b"x");
    let err = WriteSlices::new(&[a, b]).unwrap_err();
    assert_eq!(err.kind(), ErrorKind::InvalidInput);
}

#[test]
fn write_slices_allows_many_non_overlapping_slices() {
    let data: Vec<Vec<u8>> = (0..100).map(|i| vec![i as u8; 2]).collect();
    let slices: Vec<_> = data
        .iter()
        .enumerate()
        .map(|(i, d)| WriteSlice::new((i * 2) as u64, d.as_slice()))
        .collect();
    assert!(WriteSlices::new(&slices).is_ok());
}

#[test]
fn write_slices_detects_overlap_in_many_slices() {
    let overlap_data = b"overlap".to_vec();
    let data: Vec<Vec<u8>> = (0..50)
        .map(|i| {
            if i == 25 {
                overlap_data.clone()
            } else {
                vec![i as u8; 4]
            }
        })
        .collect();
    let mut slices: Vec<_> = data
        .iter()
        .enumerate()
        .map(|(i, d)| WriteSlice::new((i * 4) as u64, d.as_slice()))
        .collect();
    // Introduce an overlap.
    slices[25] = WriteSlice::new(90, data[25].as_slice());
    let err = WriteSlices::new(&slices).unwrap_err();
    assert_eq!(err.kind(), ErrorKind::InvalidInput);
}

#[test]
fn write_slices_empty_input_is_ok() {
    let writes = WriteSlices::new(&[]).unwrap();
    assert!(writes.is_empty());
}

#[test]
fn write_slices_all_empty_slices_are_ok() {
    let a = WriteSlice::new(0, b"");
    let b = WriteSlice::new(0, b"");
    let c = WriteSlice::new(100, b"");
    assert!(WriteSlices::new(&[a, b, c]).is_ok());
}

#[test]
fn write_slices_boundary_touching_is_allowed() {
    let a = WriteSlice::new(0, b"abc");
    let b = WriteSlice::new(3, b"");
    let c = WriteSlice::new(3, b"def");
    let binding = [a, b, c];
    let writes = WriteSlices::new(&binding).unwrap();
    assert_eq!(writes.len(), 3);
}

#[test]
fn write_slices_messages_tell_overflow_from_overlap() {
    let overflow = [WriteSlice::new(u64::MAX - 1, b"aa"), WriteSlice::new(u64::MAX - 1, b"aa")];
    assert_eq!(WriteSlices::new(&overflow).unwrap_err().message(), "write offset overflow");
    let overlap = [WriteSlice::new(4, b"xy"), WriteSlice::new(0, b"abcde")];
    assert_eq!(WriteSlices::new(&overlap).unwrap_err().message(), "write slices overlap");
}

#[test]
fn write_slices_rejects_identical_ranges() {
    let a = WriteSlice::new(7, b"same");
    let b = WriteSlice::new(7, b"same");
    assert!(WriteSlices::new(&[a, b]).is_err());
}

#[test]
fn write_slices_validity_does_not_depend_on_order() {
    let parts = [
        WriteSlice::new(20, b"cc"),
        WriteSlice::new(0, b"aaaa"),
        WriteSlice::new(4, b"bb"),
        WriteSlice::new(50, b""),
    ];
    let mut reversed = parts;
    reversed.reverse();
    assert!(WriteSlices::new(&parts).is_ok());
    assert!(WriteSlices::new(&reversed).is_ok());
    let clash = [WriteSlice::new(5, b"zz"), WriteSlice::new(0, b"aaaaaa"), WriteSlice::new(9, b"q")];
    let mut clash_reversed = clash;
    clash_reversed.reverse();
    assert!(WriteSlices::new(&clash).is_err());
    assert!(WriteSlices::new(&clash_reversed).is_err());
}

#[test]
fn write_slices_empty_slice_never_conflicts() {
    let base = [WriteSlice::new(0, b"abc"), WriteSlice::new(3, b"def")];
    let with_empty = [base[0], base[1], WriteSlice::new(1, b""), WriteSlice::new(u64::MAX, b"")];
    assert!(WriteSlices::new(&base).is_ok());
    assert!(WriteSlices::new(&with_empty).is_ok());
}

#[test]
fn write_slices_empty_slice_anywhere_keeps_the_verdict() {
    let good = [WriteSlice::new(0, b"abc"), WriteSlice::new(3, b"def")];
    let good_with_empty = [good[0], WriteSlice::new(2, b""), good[1]];
    assert!(WriteSlices::new(&good_with_empty).is_ok());
    let bad = [WriteSlice::new(0, b"abc"), WriteSlice::new(2, b"def")];
    let bad_with_empty = [WriteSlice::new(u64::MAX, b""), bad[0], bad[1]];
    assert!(WriteSlices::new(&bad).is_err());
    assert!(WriteSlices::new(&bad_with_empty).is_err());
    let bad_without_empty = [bad_with_empty[1], bad_with_empty[2]];
    assert!(WriteSlices::new(&bad_without_empty).is_err());
    let good_with_empties = [
        WriteSlice::new(u64::MAX, b""),
        good[0],
        WriteSlice::new(1, b""),
        WriteSlice::new(7, b""),
        good[1],
        WriteSlice::new(0, b""),
    ];
    assert!(WriteSlices::new(&good_with_empties).is_ok());
    let bad_with_empties = [bad[0], WriteSlice::new(1, b""), WriteSlice::new(u64::MAX, b""), bad[1]];
    assert!(WriteSlices::new(&bad_with_empties).is_err());
}

fn apply_in_order(file: &[u8], slices: &[WriteSlice<'_>], order: &[usize]) -> Vec<u8> {
    let mut out = file.to_vec();
    for &i in order {
        let w = slices[i];
        if w.data.is_empty() {
            continue;
        }
        let start = w.offset as usize;
        let end = start + w.data.len();
        if out.len() < end {
            out.resize(end, 0);
        }
        out[start..end].copy_from_slice(w.data);
    }
    out
}

#[test]
fn validated_batch_gives_same_file_in_any_order() {
    let slices = [
        WriteSlice::new(8, b"CD"),
        WriteSlice::new(0, b"AB"),
        WriteSlice::new(12, b"EFG"),
        WriteSlice::new(3, b""),
    ];
    let writes = WriteSlices::new(&slices).unwrap();
    let file = b"----------".to_vec();
    let forward = apply_in_order(&file, writes.as_slice(), &[0, 1, 2, 3]);
    let backward = apply_in_order(&file, writes.as_slice(), &[3, 2, 1, 0]);
    let shuffled = apply_in_order(&file, writes.as_slice(), &[2, 0, 3, 1]);
    assert_eq!(forward, b"AB------CD\0\0EFG".to_vec());
    assert_eq!(forward, backward);
    assert_eq!(forward, shuffled);
}

/// Decodes `(offset, length)` records the way the fuzz harness does and
/// validates the resulting batch; validation must return rather than panic.
fn validate_records(data: &[u8]) -> bool {
    if data.is_empty() {
        return true;
    }
    let count = data[0] as usize;
    let mut slices = Vec::new();
    let mut i = 1;
    for _ in 0..count.min(64) {
        if i + 10 > data.len() {
            break;
        }
        let mut off = [0u8; 8];
        off.copy_from_slice(&data[i..i + 8]);
        let offset = u64::from_le_bytes(off);
        let len = u16::from_le_bytes([data[i + 8], data[i + 9]]) as usize;
        i += 10;
        let end = (i + len).min(data.len());
        slices.push(WriteSlice::new(offset, &data[i..end]));
        i = end;
    }
    WriteSlices::new(&slices).is_ok()
}

#[test]
fn write_slices_validation_returns_on_decoded_records() {
    let mut data = vec![3u8];
    data.extend_from_slice(&u64::MAX.to_le_bytes());
    data.extend_from_slice(&[2, 0, b'x', b'y']);
    assert!(!validate_records(&data));
    let mut data = vec![2u8];
    data.extend_from_slice(&5u64.to_le_bytes());
    data.extend_from_slice(&[1, 0, b'a']);
    data.extend_from_slice(&5u64.to_le_bytes());
    data.extend_from_slice(&[1, 0, b'b']);
    assert!(!validate_records(&data));
    let mut data = vec![2u8];
    data.extend_from_slice(&5u64.to_le_bytes());
    data.extend_from_slice(&[1, 0, b'a']);
    data.extend_from_slice(&6u64.to_le_bytes());
    data.extend_from_slice(&[1, 0, b'b']);
    assert!(validate_records(&data));
    assert!(validate_records(&[]));
    assert!(validate_records(&[200, 1, 2, 3]));
}
