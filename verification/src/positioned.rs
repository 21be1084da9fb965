use vstd::prelude::*;

use crate::error::{Error, ErrorKind, Result};
use crate::ring::TransferMode;

verus! {

/// The length of a whole-file read of a file of `file_len` bytes; fails when
/// the file does not fit in memory.
pub fn read_len(file_len: u64) -> (r: Result<usize>)
    ensures
        r is Ok <==> file_len <= usize::MAX,
        r matches Ok(n) ==> n == file_len,
        r matches Err(e) ==> e.spec_kind() == ErrorKind::Other && e.spec_message() == "file too large"@,
{
    if file_len <= usize::MAX as u64 {
        Ok(file_len as usize)
    } else {
        Err(Error::other("file too large"))
    }
}

/// The file position of the next piece of an exact positioned transfer that
/// started at `offset` and has moved `done` bytes so far.
pub fn positioned_offset(offset: u64, done: usize, mode: TransferMode) -> (r: Result<u64>)
    ensures
        r is Ok <==> offset + done <= u64::MAX,
        r matches Ok(pos) ==> pos == offset + done,
        r matches Err(e) ==> e.spec_kind() == ErrorKind::InvalidInput,
        r matches Err(e) ==> e.spec_message() == match mode {
            TransferMode::Read => "read offset overflow"@,
            TransferMode::Write => "write offset overflow"@,
        },
{
    match offset.checked_add(done as u64) {
        Some(pos) => Ok(pos),
        None => match mode {
            TransferMode::Read => Err(Error::new(ErrorKind::InvalidInput, "read offset overflow")),
            TransferMode::Write => Err(Error::new(ErrorKind::InvalidInput, "write offset overflow")),
        },
    }
}

/// Progress of an exact positioned transfer of `total` bytes after a call
/// that moved `n` more bytes, `done` having been moved before: a call that
/// moves nothing ends the transfer with an error of the mode's kind
/// (`UnexpectedEof` for reads, `WriteZero` for writes) carrying
/// `zero_message`.
pub fn record_progress(
    done: usize,
    n: usize,
    total: usize,
    mode: TransferMode,
    zero_message: &'static str,
) -> (r: Result<usize>)
    requires
        done < total,
        n <= total - done,
    ensures
        r is Ok <==> n > 0,
        r matches Ok(d) ==> d == done + n && d <= total,
        r matches Err(e) ==> e.spec_kind() == match mode {
            TransferMode::Read => ErrorKind::UnexpectedEof,
            TransferMode::Write => ErrorKind::WriteZero,
        },
        r matches Err(e) ==> e.spec_message() == zero_message@,
{
    if n == 0 {
        return match mode {
            TransferMode::Read => Err(Error::new(ErrorKind::UnexpectedEof, zero_message)),
            TransferMode::Write => Err(Error::new(ErrorKind::WriteZero, zero_message)),
        };
    }
    Ok(done + n)
}

/// How many positioned writes of a batch of `n` run at once: the available
/// parallelism (one when unknown), at most `n` and at least one.
pub fn write_workers(parallelism: Option<usize>, n: usize) -> (w: usize)
    ensures
        ({
            let p = match parallelism {
                Some(p) => p,
                None => 1usize,
            };
            let m = if p < n { p } else { n };
            w == if m < 1 { 1 } else { m }
        }),
{
    let p = match parallelism {
        Some(p) => p,
        None => 1,
    };
    let w = if p < n { p } else { n };
    if w < 1 { 1 } else { w }
}

} // verus!
