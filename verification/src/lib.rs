//! Explicit file I/O building blocks: byte ranges, validated positioned
//! write batches, owned byte buffers, memory-mapped regions and the
//! scheduling logic behind chunked and ring-batched positioned I/O.
mod error;
pub mod range;
pub mod write;
pub mod ring;
pub mod mmap;
pub mod buffer;
pub mod positioned;
pub mod options;

pub use buffer::Bytes;
pub use error::{Error, ErrorKind, Result};
pub use mmap::MmapRegion;
pub use options::OpenFlags;
pub use range::{ByteRange, FileRange, RangeRead, RequestIndex};
pub use ring::{IoUring, IoUringOptions};
pub use write::{WriteSlice, WriteSlices};

use vstd::prelude::*;

verus! {

/// Result of the file operations.
pub type IoResult<T> = Result<T>;

/// Owned bytes returned by reads.
pub type OwnedBytes = Bytes;

} // verus!
