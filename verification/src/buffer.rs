use std::sync::Arc;
use vstd::prelude::*;

use crate::mmap::MmapRegion;

verus! {

#[verifier::external_type_specification]
#[verifier::external_body]
pub struct ExZeroPool(zeropool::ZeroPool);

#[verifier::external_type_specification]
#[verifier::external_body]
pub struct ExPoolBuf<'a>(zeropool::Buf<'a>);

/// The bytes a pooled buffer holds.
pub uninterp spec fn pooled_bytes(b: zeropool::Buf<'static>) -> Seq<u8>;

/// Calls `zeropool::ZeroPool::alloc`, which hands out a buffer of exactly
/// `len` bytes, all zero (recycled buffers are cleared before reuse and fresh
/// ones come zeroed from the pool's allocator). A length past `isize::MAX`
/// makes the allocation panic, so it is left out.
#[verifier::external_body]
fn pool_alloc(pool: &'static zeropool::ZeroPool, len: usize) -> (b: zeropool::Buf<'static>)
    requires
        len <= isize::MAX,
    ensures
        pooled_bytes(b) == Seq::new(len as nat, |i: int| 0u8),
{
    pool.alloc(len)
}

/// Calls `zeropool::Buf::len`.
#[verifier::external_body]
fn pooled_len(b: &zeropool::Buf<'static>) -> (n: usize)
    ensures
        n == pooled_bytes(*b).len(),
{
    b.len()
}

/// Dereferences a pooled buffer to its bytes.
#[verifier::external_body]
fn pooled_slice<'b>(b: &'b zeropool::Buf<'static>) -> (s: &'b [u8])
    ensures
        s@ == pooled_bytes(*b),
{
    b.as_ref()
}

/// Mutably dereferences a pooled buffer to its bytes; what is written through
/// the slice is what the buffer holds afterwards, and the buffer keeps its
/// length, which a slice cannot change.
#[verifier::external_body]
fn pooled_mut_slice<'b>(b: &'b mut zeropool::Buf<'static>) -> (s: &'b mut [u8])
    ensures
        s@ == pooled_bytes(*old(b)),
        pooled_bytes(*final(b)) == final(s)@,
        pooled_bytes(*final(b)).len() == pooled_bytes(*old(b)).len(),
{
    b.as_mut()
}

/// Calls `zeropool::Buf::into_inner`, which gives up the buffer's `Vec`
/// without returning it to the pool.
#[verifier::external_body]
fn pooled_into_vec(b: zeropool::Buf<'static>) -> (v: Vec<u8>)
    ensures
        v@ == pooled_bytes(b),
{
    b.into_inner()
}

/// Calls `Arc::<[u8]>::from(Vec<u8>)`, which moves the bytes into a shared slice.
#[verifier::external_body]
fn shared_from_vec(v: Vec<u8>) -> (s: Arc<[u8]>)
    ensures
        s@ == v@,
{
    v.into()
}

/// Calls `Arc::<[u8]>::from(&[u8])`, which copies the bytes into a shared slice.
#[verifier::external_body]
fn shared_from_slice(b: &[u8]) -> (s: Arc<[u8]>)
    ensures
        s@ == b@,
{
    Arc::from(b)
}

/// Where the bytes of a [`Bytes`] live.
enum Storage {
    Pooled(zeropool::Buf<'static>),
    Mmap(MmapRegion),
    Vec(Vec<u8>),
}

/// What a fill of a buffer returned, as seen from the buffer it gave:
/// `Ok(())` for a buffer, the error otherwise.
pub open spec fn fill_outcome<E>(r: core::result::Result<Bytes, E>) -> core::result::Result<(), E> {
    match r {
        Ok(_) => Ok(()),
        Err(e) => Err(e),
    }
}

/// Owned byte buffer backed by a pooled buffer, a memory-mapped region or a
/// plain `Vec`.
pub struct Bytes {
    inner: Storage,
}

impl Bytes {
    /// Number of bytes held.
    pub closed spec fn spec_len(&self) -> nat {
        match self.inner {
            Storage::Pooled(b) => pooled_bytes(b).len(),
            Storage::Mmap(r) => r.spec_len() as nat,
            Storage::Vec(v) => v@.len(),
        }
    }

    /// The bytes held, for buffers that own their memory; `None` for mapped
    /// regions, whose bytes are the file's.
    pub closed spec fn owned_bytes(&self) -> Option<Seq<u8>> {
        match self.inner {
            Storage::Pooled(b) => Some(pooled_bytes(b)),
            Storage::Mmap(_) => None,
            Storage::Vec(v) => Some(v@),
        }
    }

    /// The mapped region, for buffers backed by one.
    pub closed spec fn mapped_region(&self) -> Option<MmapRegion> {
        match self.inner {
            Storage::Mmap(r) => Some(r),
            _ => None,
        }
    }

    /// The buffer comes from the pool.
    pub closed spec fn spec_is_pooled(&self) -> bool {
        self.inner is Pooled
    }

    /// A buffer of `len` bytes for a read, filled by `init`. `init` gets a
    /// zeroed slice of `len` bytes taken from `pool`; when it succeeds the
    /// buffer holds what it left there, and when it fails its error is handed
    /// back and the buffer goes back to the pool. An empty buffer is a plain
    /// empty `Vec`: the pool is left alone, `init` is not called and the
    /// result is `Ok`.
    pub fn allocate<E, F: FnOnce(&mut [u8]) -> core::result::Result<(), E>>(
        pool: &'static zeropool::ZeroPool,
        len: usize,
        init: F,
    ) -> (r: core::result::Result<Bytes, E>)
        requires
            len <= isize::MAX,
            len > 0 ==> forall|s: &mut [u8]|
                s@ == Seq::new(len as nat, |i: int| 0u8) ==> #[trigger] init.requires((s,)),
        ensures
            len == 0 ==> (r matches Ok(b) && b.owned_bytes() == Some(Seq::<u8>::empty())),
            len > 0 ==> exists|s: &mut [u8]|
                {
                    &&& s@ == Seq::new(len as nat, |i: int| 0u8)
                    &&& #[trigger] init.ensures((s,), fill_outcome(r))
                    &&& r matches Ok(b) ==> b.owned_bytes() == Some(final(s)@)
                },
            r matches Ok(b) ==> b.spec_len() == len && b.spec_is_pooled() == (len > 0) && b.owned_bytes() is Some,
    {
        if len == 0 {
            return Ok(Bytes { inner: Storage::Vec(Vec::new()) });
        }
        let mut buf = pool_alloc(pool, len);
        let slice = pooled_mut_slice(&mut buf);
        let res = init(slice);
        match res {
            Ok(u) => {
                assert(u == ());
                Ok(Bytes { inner: Storage::Pooled(buf) })
            },
            Err(e) => Err(e),
        }
    }

    /// Wraps a plain `Vec<u8>`.
    pub fn from_vec(v: Vec<u8>) -> (b: Bytes)
        ensures
            b.owned_bytes() == Some(v@),
            b.spec_len() == v@.len(),
            !b.spec_is_pooled(),
    {
        Bytes { inner: Storage::Vec(v) }
    }

    /// Wraps a memory-mapped region.
    pub fn from_mmap(region: MmapRegion) -> (b: Bytes)
        ensures
            b.mapped_region() == Some(region),
            b.owned_bytes() is None,
            b.spec_len() == region.spec_len(),
            !b.spec_is_pooled(),
    {
        Bytes { inner: Storage::Mmap(region) }
    }

    /// Number of bytes.
    pub fn len(&self) -> (n: usize)
        ensures
            n == self.spec_len(),
    {
        match &self.inner {
            Storage::Pooled(b) => pooled_len(b),
            Storage::Mmap(r) => r.len(),
            Storage::Vec(v) => v.len(),
        }
    }

    /// Whether there are no bytes.
    pub fn is_empty(&self) -> (e: bool)
        ensures
            e == (self.spec_len() == 0),
    {
        self.len() == 0
    }

    /// Whether the buffer comes from the pool.
    pub fn is_pooled(&self) -> (p: bool)
        ensures
            p == self.spec_is_pooled(),
    {
        match &self.inner {
            Storage::Pooled(_) => true,
            _ => false,
        }
    }

    /// The bytes as a slice.
    pub fn as_slice(&self) -> (s: &[u8])
        ensures
            s@.len() == self.spec_len(),
            self.owned_bytes() matches Some(bytes) ==> s@ == bytes,
    {
        match &self.inner {
            Storage::Pooled(b) => pooled_slice(b),
            Storage::Mmap(r) => r.as_slice(),
            Storage::Vec(v) => v.as_slice(),
        }
    }

    /// A mutable slice of the bytes, for buffers that own their memory;
    /// `None` for mapped regions, which are read-only.
    pub fn as_mut_slice(&mut self) -> (s: Option<&mut [u8]>)
        ensures
            s is Some <==> old(self).owned_bytes() is Some,
            s matches Some(slice) ==> Some(slice@) == old(self).owned_bytes(),
            s matches Some(slice) ==> final(self).owned_bytes() == Some(final(slice)@),
            s is None ==> *final(self) == *old(self),
            final(self).spec_is_pooled() == old(self).spec_is_pooled(),
    {
        match &mut self.inner {
            Storage::Pooled(b) => Some(pooled_mut_slice(b)),
            Storage::Mmap(_) => None,
            Storage::Vec(v) => Some(v.as_mut_slice()),
        }
    }

    /// The bytes as a `Vec<u8>`; mapped regions are copied.
    pub fn into_vec(self) -> (v: Vec<u8>)
        ensures
            v@.len() == self.spec_len(),
            self.owned_bytes() matches Some(bytes) ==> v@ == bytes,
    {
        match self.inner {
            Storage::Pooled(b) => pooled_into_vec(b),
            Storage::Mmap(r) => vstd::slice::slice_to_vec(r.as_slice()),
            Storage::Vec(v) => v,
        }
    }

    /// The bytes as a shared slice; mapped regions are copied.
    pub fn into_shared(self) -> (s: Arc<[u8]>)
        ensures
            s@.len() == self.spec_len(),
            self.owned_bytes() matches Some(bytes) ==> s@ == bytes,
    {
        match self.inner {
            Storage::Pooled(b) => shared_from_vec(pooled_into_vec(b)),
            Storage::Mmap(r) => shared_from_slice(r.as_slice()),
            Storage::Vec(v) => shared_from_vec(v),
        }
    }
}

/// Bytes put into a buffer come back unchanged: a buffer that owns `bytes`
/// (as one made by `from_vec` does) gives back exactly `bytes` through
/// `as_slice`, `into_vec` and `into_shared`, whose results are as long as the
/// buffer and equal to what it owns.
pub proof fn lemma_owned_bytes_come_back(b: Bytes, bytes: Seq<u8>, out: Seq<u8>)
    requires
        b.owned_bytes() == Some(bytes),
        out.len() == b.spec_len(),
        b.owned_bytes() matches Some(owned) ==> out == owned,
    ensures
        out == bytes,
        b.spec_len() == bytes.len(),
{
}

} // verus!

verus! {

impl From<Vec<u8>> for Bytes {
    fn from(v: Vec<u8>) -> (b: Bytes) {
        Bytes { inner: Storage::Vec(v) }
    }
}

impl vstd::std_specs::convert::FromSpecImpl<Vec<u8>> for Bytes {
    open spec fn obeys_from_spec() -> bool {
        true
    }

    closed spec fn from_spec(v: Vec<u8>) -> Bytes {
        Bytes { inner: Storage::Vec(v) }
    }
}

impl From<MmapRegion> for Bytes {
    fn from(region: MmapRegion) -> (b: Bytes) {
        Bytes { inner: Storage::Mmap(region) }
    }
}

impl vstd::std_specs::convert::FromSpecImpl<MmapRegion> for Bytes {
    open spec fn obeys_from_spec() -> bool {
        true
    }

    closed spec fn from_spec(region: MmapRegion) -> Bytes {
        Bytes { inner: Storage::Mmap(region) }
    }
}

/// `core::fmt::Formatter`, carried through `Debug` unopened.
#[verifier::external_type_specification]
#[verifier::external_body]
pub struct ExFormatter<'a>(core::fmt::Formatter<'a>);

/// `core::fmt::Error`, the error of a formatter, carried through unopened.
#[verifier::external_type_specification]
#[verifier::external_body]
pub struct ExFmtError(core::fmt::Error);

/// Shows the length only, as `Bytes { len: 17, .. }`, never the contents.
///
/// Trusted: the body hands the length to `write!` on the formatter; nothing
/// is stated of what the formatter does with it.
impl core::fmt::Debug for Bytes {
    #[verifier::external_body]
    fn fmt(&self, f: &mut core::fmt::Formatter<'_>) -> core::fmt::Result {
        write!(f, "Bytes {{ len: {}, .. }}", self.len())
    }
}

impl AsRef<[u8]> for Bytes {
    fn as_ref(&self) -> (s: &[u8])
        ensures
            s@.len() == self.spec_len(),
            self.owned_bytes() matches Some(bytes) ==> s@ == bytes,
    {
        self.as_slice()
    }
}

impl core::ops::Deref for Bytes {
    type Target = [u8];

    fn deref(&self) -> (s: &[u8])
        ensures
            s@.len() == self.spec_len(),
            self.owned_bytes() matches Some(bytes) ==> s@ == bytes,
    {
        self.as_slice()
    }
}

impl AsRef<[u8]> for MmapRegion {
    fn as_ref(&self) -> (s: &[u8])
        ensures
            s@.len() == self.spec_len(),
    {
        self.as_slice()
    }
}

impl core::ops::Deref for MmapRegion {
    type Target = [u8];

    fn deref(&self) -> (s: &[u8])
        ensures
            s@.len() == self.spec_len(),
    {
        self.as_slice()
    }
}

} // verus!
