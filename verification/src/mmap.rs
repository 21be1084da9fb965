use std::sync::Arc;
use vstd::prelude::*;

use crate::error::{Error, ErrorKind, Result};

verus! {

#[verifier::external_type_specification]
#[verifier::external_body]
pub struct ExMmap(memmap2::Mmap);

/// The length of a memory map, fixed when the map is created.
pub uninterp spec fn mapped_len(m: memmap2::Mmap) -> nat;

/// Calls `memmap2::Mmap::len`, which returns the length the map was created with.
#[verifier::external_body]
fn mmap_len(m: &memmap2::Mmap) -> (n: usize)
    ensures
        n == mapped_len(*m),
{
    m.len()
}

/// Dereferences a `memmap2::Mmap` to its bytes; the slice is as long as the map.
/// What the bytes are is not stated: they are the file's contents.
#[verifier::external_body]
fn mmap_bytes(m: &memmap2::Mmap) -> (s: &[u8])
    ensures
        s@.len() == mapped_len(*m),
{
    m
}

/// Calls `Arc::clone`, which returns another pointer to the same map.
#[verifier::external_body]
fn share_map(m: &Arc<memmap2::Mmap>) -> (r: Arc<memmap2::Mmap>)
    ensures
        r == *m,
{
    Arc::clone(m)
}

/// Calls `region::page::size`, the operating system's page size; nothing is
/// promised about the value.
#[verifier::external_body]
fn system_page_size() -> usize {
    region::page::size()
}

/// A window of `len` bytes starting at `start` within a shared memory map.
#[derive(Debug)]
pub struct MmapRegion {
    inner: Arc<memmap2::Mmap>,
    start: usize,
    len: usize,
}

impl MmapRegion {
    #[verifier::type_invariant]
    spec fn in_map(self) -> bool {
        &&& self.start + self.len <= mapped_len(*self.inner)
        &&& self.start + self.len <= usize::MAX
    }

    /// The map the window lies in.
    pub closed spec fn spec_map(&self) -> memmap2::Mmap {
        *self.inner
    }

    /// Where the window starts within the map.
    pub closed spec fn spec_start(&self) -> usize {
        self.start
    }

    /// The length of the window.
    pub closed spec fn spec_len(&self) -> usize {
        self.len
    }

    /// The window of `len` bytes at `start` of `inner`.
    pub fn new(inner: Arc<memmap2::Mmap>, start: usize, len: usize) -> (r: MmapRegion)
        requires
            start + len <= mapped_len(*inner),
            start + len <= usize::MAX,
        ensures
            r.spec_map() == *inner,
            r.spec_start() == start,
            r.spec_len() == len,
    {
        MmapRegion { inner, start, len }
    }

    /// The whole of `inner`.
    pub fn whole(inner: Arc<memmap2::Mmap>) -> (r: MmapRegion)
        ensures
            r.spec_map() == *inner,
            r.spec_start() == 0,
            r.spec_len() == mapped_len(*inner),
    {
        let len = mmap_len(&*inner);
        MmapRegion { inner, start: 0, len }
    }

    /// The window of `len` bytes at `offset` within this window; `None` when it
    /// would reach past the end of this window.
    pub fn subregion(&self, offset: usize, len: usize) -> (r: Option<MmapRegion>)
        ensures
            r is Some <==> offset + len <= self.spec_len(),
            r matches Some(sub) ==> sub.spec_map() == self.spec_map() && sub.spec_start()
                == self.spec_start() + offset && sub.spec_len() == len,
    {
        proof {
            use_type_invariant(self);
        }
        let relative_end = match offset.checked_add(len) {
            Some(end) => end,
            None => return None,
        };
        if relative_end > self.len {
            return None;
        }
        let start = match self.start.checked_add(offset) {
            Some(start) => start,
            None => return None,
        };
        Some(MmapRegion::new(share_map(&self.inner), start, len))
    }

    /// The bytes of the window.
    pub fn as_slice(&self) -> (s: &[u8])
        ensures
            s@.len() == self.spec_len(),
    {
        proof {
            use_type_invariant(self);
        }
        let bytes = mmap_bytes(&*self.inner);
        window(bytes, self.start, self.len)
    }

    /// Another handle to the same window of the same map.
    fn share(&self) -> (r: MmapRegion)
        ensures
            r.spec_map() == self.spec_map(),
            r.spec_start() == self.spec_start(),
            r.spec_len() == self.spec_len(),
    {
        proof {
            use_type_invariant(self);
        }
        MmapRegion { inner: share_map(&self.inner), start: self.start, len: self.len }
    }

    /// The length of the window in bytes.
    pub fn len(&self) -> (n: usize)
        ensures
            n == self.spec_len(),
    {
        self.len
    }

    /// Whether the window is empty.
    pub fn is_empty(&self) -> (b: bool)
        ensures
            b == (self.spec_len() == 0),
    {
        self.len == 0
    }
}

/// The `len` bytes at position `start` of `bytes`.
pub fn window(bytes: &[u8], start: usize, len: usize) -> (s: &[u8])
    requires
        start + len <= bytes@.len(),
        start + len <= usize::MAX,
    ensures
        s@ == bytes@.subrange(start as int, start + len),
{
    &bytes[start..start + len]
}

/// The length of a map of a whole file of `file_len` bytes: the file must fit
/// in memory and must not be empty.
pub fn whole_map_len(file_len: u64) -> (r: Result<usize>)
    ensures
        r is Ok <==> 0 < file_len <= usize::MAX,
        r matches Ok(n) ==> n == file_len,
        r matches Err(e) ==> e.spec_kind() == if file_len > usize::MAX { ErrorKind::InvalidInput } else { ErrorKind::InvalidData },
        r matches Err(e) ==> file_len > usize::MAX ==> e.spec_message() == "file too large"@,
        r matches Err(e) ==> file_len == 0 ==> e.spec_message() == "cannot mmap empty file"@,
{
    if file_len > usize::MAX as u64 {
        return Err(Error::new(ErrorKind::InvalidInput, "file too large"));
    }
    let len = file_len as usize;
    if len == 0 {
        return Err(Error::new(ErrorKind::InvalidData, "cannot mmap empty file"));
    }
    Ok(len)
}

/// The end of a requested map of `len` bytes at `offset`: the range must not
/// be empty and its end must fit in a `u64`.
pub fn map_range_end(offset: u64, len: usize) -> (r: Result<u64>)
    ensures
        r is Ok <==> len > 0 && offset + len <= u64::MAX,
        r matches Ok(end) ==> end == offset + len,
        r matches Err(e) ==> e.spec_kind() == ErrorKind::InvalidInput,
        r matches Err(e) ==> len == 0 ==> e.spec_message() == "cannot mmap empty range"@,
        r matches Err(e) ==> len > 0 ==> e.spec_message() == "range end overflow"@,
{
    if len == 0 {
        return Err(Error::new(ErrorKind::InvalidInput, "cannot mmap empty range"));
    }
    match offset.checked_add(len as u64) {
        Some(end) => Ok(end),
        None => Err(Error::new(ErrorKind::InvalidInput, "range end overflow")),
    }
}

/// How to map a requested range: map `map_len` bytes of the file at the
/// page-aligned `aligned_offset`; the requested bytes start at `start` of that map.
#[derive(Debug, Clone, Copy, PartialEq, Eq, Structural)]
pub struct MapWindow {
    pub aligned_offset: u64,
    pub start: usize,
    pub map_len: usize,
}

/// `r` is the plan for mapping `len` bytes at `offset` (ending at `end`) of a
/// file of `file_len` bytes with pages of `page_size` bytes: it succeeds
/// exactly when the range lies in the file, pages are not empty and the map's
/// length fits in a `usize`; the map then starts at the page holding `offset`
/// and runs to `end`. Each failure carries its own kind and message.
pub open spec fn is_map_plan(
    offset: u64,
    len: usize,
    end: u64,
    file_len: u64,
    page_size: usize,
    r: Result<MapWindow>,
) -> bool {
    &&& r is Ok <==> end <= file_len && page_size > 0 && len + (offset as int) % (page_size as int) <= usize::MAX
    &&& r matches Ok(w) ==> {
        &&& w.aligned_offset == offset - (offset as int) % (page_size as int)
        &&& w.start == (offset as int) % (page_size as int)
        &&& w.map_len == w.start + len
    }
    &&& r matches Err(e) ==> {
        if end > file_len {
            e.spec_kind() == ErrorKind::UnexpectedEof && e.spec_message() == "range exceeds file size"@
        } else if page_size == 0 {
            e.spec_kind() == ErrorKind::InvalidInput && e.spec_message() == "system page size must be non-zero"@
        } else {
            e.spec_kind() == ErrorKind::InvalidInput && e.spec_message() == "mapping length overflow"@
        }
    }
}

/// Plans the map of `len` bytes at `offset` (ending at `end`) of a file of
/// `file_len` bytes on a system whose pages are `page_size` bytes.
pub fn plan_map_window(offset: u64, len: usize, end: u64, file_len: u64, page_size: usize) -> (r: Result<MapWindow>)
    requires
        len > 0,
        end == offset + len,
    ensures
        is_map_plan(offset, len, end, file_len, page_size, r),
        r is Ok <==> end <= file_len && page_size > 0 && len + (offset as int) % (page_size as int) <= usize::MAX,
        r matches Ok(w) ==> {
            &&& w.aligned_offset == offset - (offset as int) % (page_size as int)
            &&& (w.aligned_offset as int) % (page_size as int) == 0
            &&& w.start == (offset as int) % (page_size as int)
            &&& w.aligned_offset + w.start == offset
            &&& w.map_len == w.start + len
            &&& w.aligned_offset + w.map_len == end
            &&& end <= file_len
        },
        r matches Err(e) ==> e.spec_kind() == if end > file_len { ErrorKind::UnexpectedEof } else { ErrorKind::InvalidInput },
        r matches Err(e) ==> end > file_len ==> e.spec_message() == "range exceeds file size"@,
        r matches Err(e) ==> end <= file_len && page_size == 0 ==> e.spec_message()
            == "system page size must be non-zero"@,
        r matches Err(e) ==> end <= file_len && page_size > 0 ==> e.spec_message()
            == "mapping length overflow"@,
{
    if end > file_len {
        return Err(Error::new(ErrorKind::UnexpectedEof, "range exceeds file size"));
    }
    let page = page_size as u64;
    if page == 0 {
        return Err(Error::new(ErrorKind::InvalidInput, "system page size must be non-zero"));
    }
    proof {
        vstd::arithmetic::div_mod::lemma_fundamental_div_mod(offset as int, page as int);
        vstd::arithmetic::div_mod::lemma_mod_bound(offset as int, page as int);
        assert((offset / page) * page == page * (offset / page)) by (nonlinear_arith);
        assert((offset / page) * page == offset - (offset as int) % (page as int));
        vstd::arithmetic::div_mod::lemma_mod_multiples_basic((offset / page) as int, page as int);
        assert(((offset / page) as int * page as int) % (page as int) == 0);
    }
    let aligned_offset = (offset / page) * page;
    let start = (offset - aligned_offset) as usize;
    let map_len = match len.checked_add(start) {
        Some(m) => m,
        None => return Err(Error::new(ErrorKind::InvalidInput, "mapping length overflow")),
    };
    Ok(MapWindow { aligned_offset, start, map_len })
}

/// Plans the map of `len` bytes at `offset` (ending at `end`) of a file of
/// `file_len` bytes on this system.
pub fn plan_map_range(offset: u64, len: usize, end: u64, file_len: u64) -> (r: Result<MapWindow>)
    requires
        len > 0,
        end == offset + len,
    ensures
        end > file_len ==> (r matches Err(e) && e.spec_kind() == ErrorKind::UnexpectedEof
            && e.spec_message() == "range exceeds file size"@),
        r matches Err(e) ==> (e.spec_kind() == ErrorKind::UnexpectedEof <==> end > file_len),
        r matches Ok(w) ==> w.aligned_offset + w.start == offset && w.map_len == w.start + len
            && w.aligned_offset + w.map_len == end && end <= file_len,
        r matches Err(e) ==> e.spec_kind() == ErrorKind::UnexpectedEof || e.spec_kind() == ErrorKind::InvalidInput,
        exists|page_size: usize| #[trigger] is_map_plan(offset, len, end, file_len, page_size, r),
{
    let page_size = system_page_size();
    let r = plan_map_window(offset, len, end, file_len, page_size);
    assert(is_map_plan(offset, len, end, file_len, page_size, r));
    r
}

/// Whatever the page size, a plan for a range that lies in the file, with
/// non-empty pages and a map length that fits in a `usize`, succeeds, and
/// its map starts at the page holding `offset`, is page-aligned and covers
/// exactly the requested bytes up to `end`.
pub proof fn lemma_in_file_range_is_planned(
    offset: u64,
    len: usize,
    end: u64,
    file_len: u64,
    page_size: usize,
    r: Result<MapWindow>,
)
    requires
        len > 0,
        end == offset + len,
        is_map_plan(offset, len, end, file_len, page_size, r),
        end <= file_len,
        page_size > 0,
        len + (offset as int) % (page_size as int) <= usize::MAX,
    ensures
        r matches Ok(w) && {
            &&& (w.aligned_offset as int) % (page_size as int) == 0
            &&& w.aligned_offset <= offset < w.aligned_offset + page_size
            &&& w.aligned_offset + w.start == offset
            &&& w.aligned_offset + w.map_len == end
            &&& w.map_len == len + (offset as int) % (page_size as int)
        },
{
    let w = r->Ok_0;
    let p = page_size as int;
    vstd::arithmetic::div_mod::lemma_fundamental_div_mod(offset as int, p);
    vstd::arithmetic::div_mod::lemma_mod_bound(offset as int, p);
    assert(w.aligned_offset == p * ((offset as int) / p));
    vstd::arithmetic::div_mod::lemma_mod_multiples_basic((offset as int) / p, p);
    assert((p * ((offset as int) / p)) % p == 0) by {
        assert(p * ((offset as int) / p) == ((offset as int) / p) * p) by (nonlinear_arith);
    }
}

/// Whatever page size this system reports, a refused plan is refused for one
/// of three reasons only: the range runs past the end of the file, the page
/// size is zero, or the map would be longer than a `usize` can hold.
pub proof fn lemma_map_plan_refusals(
    offset: u64,
    len: usize,
    end: u64,
    file_len: u64,
    page_size: usize,
    r: Result<MapWindow>,
)
    requires
        is_map_plan(offset, len, end, file_len, page_size, r),
        r is Err,
    ensures
        end > file_len || page_size == 0 || len + (offset as int) % (page_size as int) > usize::MAX,
{
}

} // verus!

verus! {

impl Clone for MmapRegion {
    /// Another handle to the same window of the same map.
    fn clone(&self) -> (r: MmapRegion)
        ensures
            r.spec_map() == self.spec_map(),
            r.spec_start() == self.spec_start(),
            r.spec_len() == self.spec_len(),
    {
        self.share()
    }
}

} // verus!
