use vstd::prelude::*;

use std::path::Path;

use crate::buffer::Bytes;
use crate::error::{Error, ErrorKind, Result};

verus! {

/// A half-open byte range `[start, end)` with `start <= end`.
#[derive(Debug, Clone, Copy, PartialEq, Eq, Structural)]
pub struct ByteRange {
    start: u64,
    end: u64,
}

impl View for ByteRange {
    type V = (u64, u64);

    closed spec fn view(&self) -> (u64, u64) {
        (self.start, self.end)
    }
}

impl ByteRange {
    #[verifier::type_invariant]
    spec fn ordered(self) -> bool {
        self.start <= self.end
    }

    /// Creates the range `[start, end)`; fails when `end < start`.
    pub fn new(start: u64, end: u64) -> (r: Result<ByteRange>)
        ensures
            r is Ok <==> start <= end,
            r matches Ok(range) ==> range@ == (start, end),
            r matches Err(e) ==> e.spec_kind() == ErrorKind::InvalidInput && e.spec_message()
                == "byte range end is before start"@,
    {
        if end < start {
            return Err(Error::new(ErrorKind::InvalidInput, "byte range end is before start"));
        }
        Ok(ByteRange { start, end })
    }

    /// Creates the range of `len` bytes starting at `offset`; fails when the
    /// end does not fit in a `u64`.
    pub fn from_offset_len(offset: u64, len: usize) -> (r: Result<ByteRange>)
        ensures
            r is Ok <==> offset + len <= u64::MAX,
            r matches Ok(range) ==> range@ == (offset, (offset + len) as u64),
            r matches Err(e) ==> e.spec_kind() == ErrorKind::InvalidInput && e.spec_message()
                == "byte range overflow"@,
    {
        let len = len as u64;
        match offset.checked_add(len) {
            Some(end) => ByteRange::new(offset, end),
            None => Err(Error::new(ErrorKind::InvalidInput, "byte range overflow")),
        }
    }

    /// The first byte of the range.
    pub fn start(self) -> (s: u64)
        ensures
            s == self@.0,
            s <= self@.1,
    {
        proof {
            use_type_invariant(self);
        }
        self.start
    }

    /// One past the last byte of the range.
    pub fn end(self) -> (e: u64)
        ensures
            e == self@.1,
    {
        self.end
    }

    /// The number of bytes in the range.
    pub fn len(self) -> (n: u64)
        ensures
            n == self@.1 - self@.0,
    {
        proof {
            use_type_invariant(self);
        }
        self.end - self.start
    }

    /// The number of bytes in the range as a `usize`; fails when it does not fit.
    pub fn len_usize(self) -> (n: Result<usize>)
        ensures
            n is Ok <==> self@.1 - self@.0 <= usize::MAX,
            n matches Ok(v) ==> v == self@.1 - self@.0,
            n matches Err(e) ==> e.spec_kind() == ErrorKind::InvalidInput && e.spec_message()
                == "range length too large: out of range integral type conversion attempted"@,
    {
        let len = self.len();
        if len <= usize::MAX as u64 {
            Ok(len as usize)
        } else {
            Err(
                Error::new(
                    ErrorKind::InvalidInput,
                    "range length too large: out of range integral type conversion attempted",
                ),
            )
        }
    }

    /// Whether the range holds no bytes.
    pub fn is_empty(self) -> (b: bool)
        ensures
            b == (self@.0 == self@.1),
    {
        self.start == self.end
    }
}

/// A range is determined by its bounds: in particular, `from_offset_len(offset, len)`
/// and `new(offset, offset + len)` build the same range.
pub proof fn lemma_range_determined_by_bounds(a: ByteRange, b: ByteRange)
    requires
        a@ == b@,
    ensures
        a == b,
{
}

/// The position of a request within a batch.
#[derive(Debug, Clone, Copy, PartialEq, Eq, PartialOrd, Ord, Hash, Structural)]
pub struct RequestIndex(usize);

impl View for RequestIndex {
    type V = usize;

    closed spec fn view(&self) -> usize {
        self.0
    }
}

impl RequestIndex {
    /// Wraps a batch position.
    pub fn new(n: usize) -> (r: RequestIndex)
        ensures
            r@ == n,
    {
        RequestIndex(n)
    }

    /// The batch position.
    pub fn as_usize(self) -> (n: usize)
        ensures
            n == self@,
    {
        self.0
    }

    /// The batch position in decimal, as it is displayed.
    pub fn to_string(&self) -> (s: String)
        ensures
            s@ == decimal_digits(self@ as nat),
    {
        decimal_string(self.0)
    }
}

/// The character of a decimal digit.
pub open spec fn digit_char(d: nat) -> char {
    (d + 48) as char
}

/// The decimal representation of `n`, without leading zeros.
pub open spec fn decimal_digits(n: nat) -> Seq<char>
    decreases n,
{
    if n < 10 {
        seq![digit_char(n)]
    } else {
        decimal_digits(n / 10).push(digit_char(n % 10))
    }
}

/// Formats `n` with `ToString::to_string`, which for unsigned integers writes
/// the decimal digits without sign or leading zeros.
#[verifier::external_body]
fn decimal_string(n: usize) -> (s: String)
    ensures
        s@ == decimal_digits(n as nat),
{
    n.to_string()
}

/// A byte range of the file at `path` (a [`Path`] unless chosen otherwise).
#[derive(Debug, Clone, Copy)]
pub struct FileRange<'a, P: ?Sized = Path> {
    pub path: &'a P,
    pub range: ByteRange,
}

impl<'a, P: ?Sized> FileRange<'a, P> {
    /// The range `range` of the file at `path`.
    pub fn new(path: &'a P, range: ByteRange) -> (r: FileRange<'a, P>)
        ensures
            r.path == path,
            r.range == range,
    {
        FileRange { path, range }
    }
}

/// The bytes read for one request of a batch of range reads.
#[derive(Debug)]
pub struct RangeRead {
    pub request_index: RequestIndex,
    pub range: ByteRange,
    pub bytes: Bytes,
}

impl RangeRead {
    /// The bytes read.
    pub fn data(&self) -> (d: &[u8])
        ensures
            d@.len() == self.bytes.spec_len(),
            self.bytes.owned_bytes() matches Some(b) ==> d@ == b,
    {
        self.bytes.as_slice()
    }
}

} // verus!
