use vstd::prelude::*;

use crate::error::{Error, ErrorKind, Result};
use crate::write::{valid_write_batch, write_is_empty, write_overflows, WriteSlice, WriteSlices};

verus! {

/// Largest length a single ring operation can carry (its length field is a `u32`).
pub const MAX_IO_LEN: u32 = 0xffff_ffff;

/// A contiguous piece of a transfer: `len` bytes at position `start` of the
/// caller's buffer, to be transferred at `file_offset` in the file.
#[derive(Debug, Clone, Copy, PartialEq, Eq, Structural)]
pub struct Segment {
    pub start: usize,
    pub len: usize,
    pub file_offset: u64,
}

/// Whether a transfer reads from or writes to the file.
#[derive(Debug, Clone, Copy, PartialEq, Eq, Structural)]
pub enum TransferMode {
    Read,
    Write,
}

/// One operation to hand to the ring: transfer `len` bytes between position
/// `buf_offset` of the buffer of segment `segment` and file position `file_offset`.
#[derive(Debug, Clone, Copy, PartialEq, Eq, Structural)]
pub struct Submission {
    pub segment: usize,
    pub buf_offset: usize,
    pub len: u32,
    pub file_offset: u64,
}

/// The segments split `[0, total)` into consecutive chunks of `chunk` bytes
/// (the last one possibly shorter), each transferred at `offset` plus its start.
pub open spec fn tiles(segs: Seq<Segment>, total: int, chunk: int, offset: int) -> bool {
    &&& segs.len() > 0
    &&& segs[0].start == 0
    &&& forall|i: int|
        0 <= i < segs.len() - 1 ==> #[trigger] segs[i + 1].start == segs[i].start + segs[i].len
    &&& forall|i: int|
        #![trigger segs[i]]
        0 <= i < segs.len() ==> {
            &&& segs[i].len > 0
            &&& segs[i].len == if chunk < total - segs[i].start { chunk } else { total - segs[i].start }
            &&& segs[i].file_offset == offset + segs[i].start
        }
    &&& segs.last().start + segs.last().len == total
}

/// Segment `i` of `segs` holds byte `b` of the buffer.
pub open spec fn segment_holds(segs: Seq<Segment>, i: int, b: int) -> bool {
    segs[i].start <= b < segs[i].start + segs[i].len
}

/// In a tiling, a segment ends no later than any later segment starts.
proof fn lemma_tiles_ordered(segs: Seq<Segment>, total: int, chunk: int, offset: int, i: int, j: int)
    requires
        tiles(segs, total, chunk, offset),
        0 <= i < j < segs.len(),
    ensures
        segs[i].start + segs[i].len <= segs[j].start,
    decreases j - i,
{
    if j > i + 1 {
        lemma_tiles_ordered(segs, total, chunk, offset, i + 1, j);
        assert(segs[i + 1].start == segs[i].start + segs[i].len);
        assert(segs[i + 1].len > 0);
    } else {
        assert(segs[i + 1].start == segs[i].start + segs[i].len);
    }
}

/// Every byte before the end of segment `k` is held by one of the first `k + 1` segments.
proof fn lemma_tiles_prefix_cover(segs: Seq<Segment>, total: int, chunk: int, offset: int, k: int, b: int)
    requires
        tiles(segs, total, chunk, offset),
        0 <= k < segs.len(),
        0 <= b < segs[k].start + segs[k].len,
    ensures
        exists|i: int| 0 <= i <= k && #[trigger] segment_holds(segs, i, b),
    decreases k,
{
    assert(segs[k].len > 0);
    if b >= segs[k].start {
        assert(segment_holds(segs, k, b));
    } else {
        assert(k > 0);
        let j = k - 1;
        assert(segs[j + 1].start == segs[j].start + segs[j].len);
        lemma_tiles_prefix_cover(segs, total, chunk, offset, k - 1, b);
    }
}

/// A tiling covers every byte of the buffer exactly once: each byte below
/// `total` is held by exactly one segment, and no segment reaches past `total`.
pub proof fn lemma_tiles_cover_exactly_once(segs: Seq<Segment>, total: int, chunk: int, offset: int, b: int)
    requires
        tiles(segs, total, chunk, offset),
        0 <= b < total,
    ensures
        exists|i: int| 0 <= i < segs.len() && #[trigger] segment_holds(segs, i, b),
        forall|i: int, j: int|
            0 <= i < segs.len() && 0 <= j < segs.len() && #[trigger] segment_holds(segs, i, b)
                && #[trigger] segment_holds(segs, j, b) ==> i == j,
        forall|i: int| 0 <= i < segs.len() ==> #[trigger] segs[i].start + segs[i].len <= total,
{
    let last = segs.len() - 1;
    lemma_tiles_prefix_cover(segs, total, chunk, offset, last, b);
    assert forall|i: int, j: int|
        0 <= i < segs.len() && 0 <= j < segs.len() && #[trigger] segment_holds(segs, i, b)
            && #[trigger] segment_holds(segs, j, b) implies i == j by {
        if i < j {
            lemma_tiles_ordered(segs, total, chunk, offset, i, j);
        } else if j < i {
            lemma_tiles_ordered(segs, total, chunk, offset, j, i);
        }
    }
    assert forall|i: int| 0 <= i < segs.len() implies #[trigger] segs[i].start + segs[i].len <= total by {
        if i < last {
            lemma_tiles_ordered(segs, total, chunk, offset, i, last);
        }
    }
}

/// Every chunk is `chunk` bytes long except possibly the last one, which is shorter.
pub proof fn lemma_tiles_full_chunks(segs: Seq<Segment>, total: int, chunk: int, offset: int, i: int)
    requires
        tiles(segs, total, chunk, offset),
        0 <= i < segs.len() - 1,
    ensures
        segs[i].len == chunk,
{
    lemma_tiles_ordered(segs, total, chunk, offset, i, segs.len() - 1);
    assert(segs[segs.len() - 1].len > 0);
}

/// An operation offered for a segment of a tiling stays inside the buffer and
/// targets the file position that corresponds to its buffer position.
pub proof fn lemma_chunk_operation_in_bounds(
    segs: Seq<Segment>,
    total: int,
    chunk: int,
    offset: int,
    i: int,
    done: int,
    len: int,
)
    requires
        tiles(segs, total, chunk, offset),
        0 <= i < segs.len(),
        0 <= done,
        0 <= len,
        done + len <= segs[i].len,
    ensures
        segs[i].start + done + len <= total,
        segs[i].file_offset + done == offset + (segs[i].start + done),
{
    if i < segs.len() - 1 {
        lemma_tiles_ordered(segs, total, chunk, offset, i, segs.len() - 1);
    }
}

/// Scheduler for a positioned transfer split into segments and carried out
/// through a submission ring of bounded depth.
///
/// The caller asks for submissions with [`RingTransfer::next_submission`]
/// until none is offered, hands them to the ring, waits for completions when
/// operations are in flight and reports each one with
/// [`RingTransfer::complete`]. Partial completions are resubmitted; a segment
/// never has two operations in flight at once.
pub struct RingTransfer {
    segments: Vec<Segment>,
    done: Vec<usize>,
    pending: Vec<u32>,
    in_flight: u32,
    depth: u32,
    next_submit: usize,
    mode: TransferMode,
    failed: bool,
    pending_set: Ghost<Set<int>>,
}

impl RingTransfer {
    /// The segments of the transfer.
    pub closed spec fn spec_segments(&self) -> Seq<Segment> {
        self.segments@
    }

    /// Bytes of each segment already transferred.
    pub closed spec fn spec_done(&self) -> Seq<usize> {
        self.done@
    }

    /// Length of the operation in flight for each segment (zero when none is).
    pub closed spec fn spec_pending(&self) -> Seq<u32> {
        self.pending@
    }

    /// Number of operations in flight.
    pub closed spec fn spec_in_flight(&self) -> u32 {
        self.in_flight
    }

    /// Most operations allowed in flight at once.
    pub closed spec fn spec_depth(&self) -> u32 {
        self.depth
    }

    /// Whether the transfer reads or writes.
    pub closed spec fn spec_mode(&self) -> TransferMode {
        self.mode
    }

    /// An operation has failed: nothing more is submitted, and the
    /// operations still in flight are only drained.
    pub closed spec fn spec_failed(&self) -> bool {
        self.failed
    }

    /// The segment the next scan for work starts at.
    pub closed spec fn spec_scan(&self) -> usize {
        self.next_submit
    }

    /// Every segment in `[lo, hi)` is transferred completely or has an operation in flight.
    pub open spec fn is_settled_between(&self, lo: int, hi: int) -> bool {
        forall|i: int|
            lo <= i < hi ==> #[trigger] self.spec_done()[i] == self.spec_segments()[i].len
                || self.spec_pending()[i] > 0
    }

    /// Every segment has been transferred completely.
    pub open spec fn is_complete(&self) -> bool {
        forall|i: int|
            0 <= i < self.spec_segments().len() ==> #[trigger] self.spec_done()[i]
                == self.spec_segments()[i].len
    }

    /// Every segment is either transferred completely or has an operation in flight.
    pub open spec fn is_settled(&self) -> bool {
        forall|i: int|
            0 <= i < self.spec_segments().len() ==> #[trigger] self.spec_done()[i]
                == self.spec_segments()[i].len || self.spec_pending()[i] > 0
    }

    /// The state is consistent.
    pub closed spec fn wf(&self) -> bool {
        let n = self.segments@.len();
        &&& self.done@.len() == n
        &&& self.pending@.len() == n
        &&& 0 < self.depth
        &&& self.in_flight <= self.depth
        &&& self.next_submit <= n
        &&& forall|i: int|
            #![trigger self.segments@[i]]
            0 <= i < n ==> {
                &&& self.done@[i] <= self.segments@[i].len
                &&& self.segments@[i].start + self.segments@[i].len <= usize::MAX
                &&& self.segments@[i].file_offset + self.segments@[i].len <= u64::MAX
                &&& self.pending@[i] > 0 ==> self.done@[i] + self.pending@[i] <= self.segments@[i].len
            }
        &&& forall|i: int| #[trigger] self.pending_set@.contains(i) <==> (0 <= i < n && self.pending@[i] > 0)
        &&& self.pending_set@.finite()
        &&& self.in_flight == self.pending_set@.len()
        &&& forall|i: int|
            0 <= i < self.next_submit ==> #[trigger] self.done@[i] == self.segments@[i].len || self.pending@[i] > 0
    }

    /// A fresh scheduler over `segments` with nothing transferred yet.
    fn from_segments(segments: Vec<Segment>, depth: u32, mode: TransferMode) -> (t: RingTransfer)
        requires
            depth > 0,
            forall|i: int|
                #![trigger segments@[i]]
                0 <= i < segments@.len() ==> {
                    &&& segments@[i].start + segments@[i].len <= usize::MAX
                    &&& segments@[i].file_offset + segments@[i].len <= u64::MAX
                },
        ensures
            t.wf(),
            t.spec_segments() == segments@,
            t.spec_done() == Seq::new(segments@.len(), |i: int| 0usize),
            t.spec_pending() == Seq::new(segments@.len(), |i: int| 0u32),
            t.spec_in_flight() == 0,
            t.spec_scan() == 0,
            !t.spec_failed(),
            t.spec_depth() == depth,
            t.spec_mode() == mode,
    {
        let n = segments.len();
        let mut done: Vec<usize> = Vec::new();
        let mut pending: Vec<u32> = Vec::new();
        let mut i: usize = 0;
        while i < n
            invariant
                0 <= i <= n,
                done@ == Seq::new(i as nat, |k: int| 0usize),
                pending@ == Seq::new(i as nat, |k: int| 0u32),
            decreases n - i,
        {
            done.push(0);
            pending.push(0);
            i = i + 1;
        }
        let ghost empty: Set<int> = Set::empty();
        let t = RingTransfer {
            segments,
            done,
            pending,
            in_flight: 0,
            depth,
            next_submit: 0,
            mode,
            failed: false,
            pending_set: Ghost(empty),
        };
        assert(t.pending_set@.len() == 0);
        t
    }

    /// Scheduler for transferring `total` bytes of one buffer at file position
    /// `offset`, split into chunks of at most `chunk_size` bytes.
    pub fn chunked(total: usize, chunk_size: usize, offset: u64, depth: u32, mode: TransferMode) -> (t: RingTransfer)
        requires
            total > 0,
            chunk_size > 0,
            depth > 0,
            offset + total <= u64::MAX,
        ensures
            t.wf(),
            tiles(t.spec_segments(), total as int, if chunk_size < total { chunk_size as int } else { total as int }, offset as int),
            forall|i: int| 0 <= i < t.spec_segments().len() ==> #[trigger] t.spec_done()[i] == 0,
            forall|i: int| 0 <= i < t.spec_segments().len() ==> #[trigger] t.spec_pending()[i] == 0,
            t.spec_in_flight() == 0,
            t.spec_scan() == 0,
            !t.spec_failed(),
            t.spec_depth() == depth,
            t.spec_mode() == mode,
    {
        let chunk = if chunk_size < total { chunk_size } else { total };
        let mut segments: Vec<Segment> = Vec::new();
        let mut start: usize = 0;
        while start < total
            invariant
                0 < chunk <= total,
                offset + total <= u64::MAX,
                start <= total,
                segments@.len() == 0 <==> start == 0,
                segments@.len() > 0 ==> segments@.last().start + segments@.last().len == start,
                segments@.len() > 0 ==> segments@[0].start == 0,
                forall|i: int|
                    0 <= i < segments@.len() - 1 ==> #[trigger] segments@[i + 1].start == segments@[i].start
                        + segments@[i].len,
                forall|i: int|
                    #![trigger segments@[i]]
                    0 <= i < segments@.len() ==> {
                        &&& segments@[i].len > 0
                        &&& segments@[i].len == if chunk < total - segments@[i].start { chunk as int } else { total - segments@[i].start }
                        &&& segments@[i].file_offset == offset + segments@[i].start
                        &&& segments@[i].start + segments@[i].len <= total
                    },
            decreases total - start,
        {
            let len = if chunk < total - start { chunk } else { total - start };
            let ghost old_segments = segments@;
            segments.push(Segment { start, len, file_offset: offset + start as u64 });
            proof {
                assert forall|i: int|
                    0 <= i < segments@.len() - 1 implies #[trigger] segments@[i + 1].start == segments@[i].start
                        + segments@[i].len by {
                    if i + 1 < old_segments.len() {
                        assert(segments@[i + 1] == old_segments[i + 1]);
                        assert(segments@[i] == old_segments[i]);
                    }
                }
            }
            start = start + len;
        }
        RingTransfer::from_segments(segments, depth, mode)
    }

    /// Scheduler for writing every slice of a validated batch at its offset;
    /// segment `i` is slice `i`, whose bytes start at position 0 of its own data.
    pub fn slices(writes: WriteSlices, depth: u32) -> (t: RingTransfer)
        requires
            depth > 0,
        ensures
            t.wf(),
            t.spec_segments().len() == writes@.len(),
            forall|i: int|
                #![trigger t.spec_segments()[i]]
                0 <= i < writes@.len() ==> t.spec_segments()[i] == (Segment {
                    start: 0,
                    len: writes@[i].data@.len() as usize,
                    file_offset: writes@[i].offset,
                }),
            forall|i: int| 0 <= i < t.spec_segments().len() ==> #[trigger] t.spec_done()[i] == 0,
            forall|i: int| 0 <= i < t.spec_segments().len() ==> #[trigger] t.spec_pending()[i] == 0,
            t.spec_in_flight() == 0,
            t.spec_scan() == 0,
            !t.spec_failed(),
            t.spec_depth() == depth,
            t.spec_mode() == TransferMode::Write,
    {
        let ws = writes.as_slice();
        let n = ws.len();
        let mut segments: Vec<Segment> = Vec::new();
        let mut i: usize = 0;
        while i < n
            invariant
                n == ws@.len(),
                ws@ == writes@,
                valid_write_batch(ws@),
                0 <= i <= n,
                segments@.len() == i,
                forall|k: int|
                    #![trigger segments@[k]]
                    0 <= k < i ==> segments@[k] == (Segment {
                        start: 0,
                        len: ws@[k].data@.len() as usize,
                        file_offset: ws@[k].offset,
                    }),
            decreases n - i,
        {
            let w: WriteSlice = ws[i];
            segments.push(Segment { start: 0, len: w.data.len(), file_offset: w.offset });
            i = i + 1;
        }
        proof {
            assert forall|k: int|
                #![trigger segments@[k]]
                0 <= k < segments@.len() implies {
                    &&& segments@[k].start + segments@[k].len <= usize::MAX
                    &&& segments@[k].file_offset + segments@[k].len <= u64::MAX
                } by {
                if !write_is_empty(ws@[k]) {
                    assert(!write_overflows(ws@[k]));
                }
            }
        }
        RingTransfer::from_segments(segments, depth, TransferMode::Write)
    }

    /// Number of operations in flight.
    pub fn in_flight(&self) -> (n: u32)
        requires
            self.wf(),
        ensures
            n == self.spec_in_flight(),
            n <= self.spec_depth(),
    {
        self.in_flight
    }

    /// Number of segments.
    pub fn segment_count(&self) -> (n: usize)
        ensures
            n == self.spec_segments().len(),
    {
        self.segments.len()
    }

    /// The next operation to hand to the ring, if no operation has failed,
    /// the ring has room and some segment is neither complete nor in flight
    /// at or after the scan position.
    pub fn next_submission(&mut self) -> (s: Option<Submission>)
        requires
            old(self).wf(),
        ensures
            final(self).wf(),
            final(self).spec_segments() == old(self).spec_segments(),
            final(self).spec_done() == old(self).spec_done(),
            final(self).spec_depth() == old(self).spec_depth(),
            final(self).spec_mode() == old(self).spec_mode(),
            final(self).spec_failed() == old(self).spec_failed(),
            old(self).spec_failed() ==> s is None && *final(self) == *old(self),
            match s {
                Some(sub) => {
                    let i = sub.segment as int;
                    let seg = old(self).spec_segments()[i];
                    let done = old(self).spec_done()[i];
                    &&& 0 <= i < old(self).spec_segments().len()
                    &&& old(self).spec_in_flight() < old(self).spec_depth()
                    &&& old(self).spec_pending()[i] == 0
                    &&& done < seg.len
                    &&& sub.len as int == if seg.len - done < MAX_IO_LEN { seg.len - done } else { MAX_IO_LEN as int }
                    &&& sub.buf_offset == seg.start + done
                    &&& sub.file_offset == seg.file_offset + done
                    &&& final(self).spec_pending() == old(self).spec_pending().update(i, sub.len)
                    &&& final(self).spec_in_flight() == old(self).spec_in_flight() + 1
                    &&& old(self).spec_scan() <= i
                    &&& old(self).is_settled_between(old(self).spec_scan() as int, i)
                    &&& final(self).spec_scan() == i + 1
                },
                None => {
                    &&& final(self).spec_pending() == old(self).spec_pending()
                    &&& final(self).spec_in_flight() == old(self).spec_in_flight()
                    &&& old(self).spec_in_flight() >= old(self).spec_depth() ==> final(self).spec_scan()
                        == old(self).spec_scan()
                    &&& !old(self).spec_failed() && old(self).spec_in_flight() < old(self).spec_depth() ==> {
                        &&& final(self).spec_scan() == old(self).spec_segments().len()
                        &&& old(self).is_settled_between(
                            old(self).spec_scan() as int,
                            old(self).spec_segments().len() as int,
                        )
                        &&& final(self).is_settled()
                    }
                },
            },
    {
        if self.failed {
            return None;
        }
        let n = self.segments.len();
        while self.in_flight < self.depth && self.next_submit < n
            invariant
                self.wf(),
                !self.failed,
                self.failed == old(self).failed,
                n == self.segments@.len(),
                self.segments@ == old(self).segments@,
                self.done@ == old(self).done@,
                self.pending@ == old(self).pending@,
                self.in_flight == old(self).in_flight,
                self.depth == old(self).depth,
                self.mode == old(self).mode,
                old(self).next_submit <= self.next_submit,
                old(self).in_flight >= old(self).depth ==> self.next_submit == old(self).next_submit,
                old(self).is_settled_between(old(self).next_submit as int, self.next_submit as int),
            decreases n - self.next_submit,
        {
            let idx = self.next_submit;
            let seg = self.segments[idx];
            let so_far = self.done[idx];
            if self.pending[idx] > 0 || so_far == seg.len {
                self.next_submit = idx + 1;
                continue;
            }
            let remaining = seg.len - so_far;
            let len: u32 = if remaining < MAX_IO_LEN as usize { remaining as u32 } else { MAX_IO_LEN };
            let sub = Submission {
                segment: idx,
                buf_offset: seg.start + so_far,
                len,
                file_offset: seg.file_offset + so_far as u64,
            };
            let ghost old_set = self.pending_set@;
            self.pending.set(idx, len);
            self.in_flight = self.in_flight + 1;
            self.next_submit = idx + 1;
            self.pending_set = Ghost(old_set.insert(idx as int));
            proof {
                assert(!old_set.contains(idx as int));
                assert forall|i: int|
                    #[trigger] self.pending_set@.contains(i) <==> (0 <= i < n && self.pending@[i] > 0) by {
                    if i != idx {
                        assert(old_set.contains(i) == self.pending_set@.contains(i));
                    }
                }
                assert forall|i: int|
                    0 <= i < self.next_submit implies #[trigger] self.done@[i] == self.segments@[i].len
                        || self.pending@[i] > 0 by {
                    if i != idx {
                        assert(self.pending@[i] == old(self).pending@[i]);
                    }
                }
            }
            return Some(sub);
        }
        proof {
            if self.in_flight < self.depth {
                assert forall|i: int| 0 <= i < n implies #[trigger] self.spec_done()[i]
                    == self.spec_segments()[i].len || self.spec_pending()[i] > 0 by {
                    assert(self.done@[i] == self.segments@[i].len || self.pending@[i] > 0);
                }
            }
        }
        None
    }

    /// Records the completion of the operation tagged `user_data` with the
    /// ring's `result`: a negative result is an operating-system error, zero
    /// is a short transfer, and a positive result counts transferred bytes.
    /// Any error marks the transfer failed.
    pub fn complete(&mut self, user_data: u64, result: i32) -> (r: Result<()>)
        requires
            old(self).wf(),
        ensures
            final(self).wf(),
            final(self).spec_segments() == old(self).spec_segments(),
            final(self).spec_depth() == old(self).spec_depth(),
            final(self).spec_mode() == old(self).spec_mode(),
            ({
                let i = user_data as int;
                let known = 0 <= i < old(self).spec_segments().len() && old(self).spec_pending()[i] > 0;
                let requested = old(self).spec_pending()[i];
                &&& r is Ok <==> (known && 0 < result <= requested)
                &&& !known ==> (r matches Err(e) && e.spec_kind() == ErrorKind::Other)
                &&& !known ==> final(self).spec_done() == old(self).spec_done() && final(self).spec_pending()
                    == old(self).spec_pending() && final(self).spec_in_flight() == old(self).spec_in_flight()
                    && final(self).spec_scan() == old(self).spec_scan()
                &&& r is Err ==> final(self).spec_failed()
                &&& r is Ok ==> final(self).spec_failed() == old(self).spec_failed()
                &&& known && result < 0 ==> (r matches Err(e) && e.spec_kind() == (if result == i32::MIN { ErrorKind::Other } else { ErrorKind::Os })
                    && (result != i32::MIN ==> e.spec_os_code() == -result))
                &&& known && result == 0 ==> (r matches Err(e) && e.spec_kind() == (
                    match old(self).spec_mode() {
                        TransferMode::Read => ErrorKind::UnexpectedEof,
                        TransferMode::Write => ErrorKind::WriteZero,
                    }) && e.spec_message() == (match old(self).spec_mode() {
                        TransferMode::Read => "short io_uring read"@,
                        TransferMode::Write => "short io_uring write"@,
                    }))
                &&& known && result > requested ==> (r matches Err(e) && e.spec_kind() == ErrorKind::Other)
                &&& known ==> final(self).spec_pending() == old(self).spec_pending().update(i, 0)
                &&& known ==> final(self).spec_in_flight() == old(self).spec_in_flight() - 1
                &&& r is Ok ==> final(self).spec_done() == old(self).spec_done().update(
                    i,
                    (old(self).spec_done()[i] + result) as usize,
                )
                &&& r is Ok ==> final(self).spec_scan() == if old(self).spec_done()[i] + result
                    < old(self).spec_segments()[i].len && old(self).spec_scan() > i {
                    i as usize
                } else {
                    old(self).spec_scan()
                }
                &&& (known && r is Err) ==> final(self).spec_scan() == if old(self).spec_scan() > i {
                    i as usize
                } else {
                    old(self).spec_scan()
                }
            }),
    {
        let n = self.segments.len();
        if user_data >= n as u64 {
            self.failed = true;
            return Err(Error::other("io_uring completion for an unknown operation"));
        }
        let idx = user_data as usize;
        let requested = self.pending[idx];
        if requested == 0 {
            self.failed = true;
            return Err(Error::other("io_uring completion for an unknown operation"));
        }
        let seg = self.segments[idx];
        let ghost old_set = self.pending_set@;
        assert(self.done@[idx as int] + requested <= seg.len);
        self.pending.set(idx, 0);
        self.in_flight = self.in_flight - 1;
        self.pending_set = Ghost(old_set.remove(idx as int));
        // While the segment is neither complete nor in flight, the scan must
        // come back to it.
        let old_next = self.next_submit;
        if self.next_submit > idx {
            self.next_submit = idx;
        }
        proof {
            assert forall|i: int|
                #[trigger] self.pending_set@.contains(i) <==> (0 <= i < n && self.pending@[i] > 0) by {
                if i != idx {
                    assert(old_set.contains(i) == self.pending_set@.contains(i));
                }
            }
            assert forall|i: int|
                0 <= i < self.next_submit implies #[trigger] self.done@[i] == self.segments@[i].len
                    || self.pending@[i] > 0 by {
                assert(i != idx);
                assert(self.pending@[i] == old(self).pending@[i]);
            }
        }
        if result < 0 {
            self.failed = true;
            if result == i32::MIN {
                return Err(Error::other("io_uring reported an invalid error code"));
            }
            return Err(Error::from_raw_os_error(-result));
        }
        if result == 0 {
            self.failed = true;
            return match self.mode {
                TransferMode::Read => Err(Error::new(ErrorKind::UnexpectedEof, "short io_uring read")),
                TransferMode::Write => Err(Error::new(ErrorKind::WriteZero, "short io_uring write")),
            };
        }
        let count = result as u32;
        if count > requested {
            self.failed = true;
            return Err(Error::other("io_uring transferred more bytes than requested"));
        }
        let new_done = self.done[idx] + count as usize;
        self.done.set(idx, new_done);
        if new_done == seg.len {
            // a complete segment needs no revisit
            self.next_submit = old_next;
        }
        proof {
            assert forall|i: int|
                0 <= i < self.next_submit implies #[trigger] self.done@[i] == self.segments@[i].len
                    || self.pending@[i] > 0 by {
                if i != idx {
                    assert(self.pending@[i] == old(self).pending@[i]);
                    assert(self.done@[i] == old(self).done@[i]);
                }
            }
        }
        Ok(())
    }

    /// Whether an operation has failed.
    pub fn failed(&self) -> (f: bool)
        ensures
            f == self.spec_failed(),
    {
        self.failed
    }

    /// Takes back the operation just offered for `segment` when it could not
    /// be handed to the ring; the transfer is then failed.
    pub fn withdraw(&mut self, segment: usize)
        requires
            old(self).wf(),
        ensures
            final(self).wf(),
            final(self).spec_failed(),
            final(self).spec_segments() == old(self).spec_segments(),
            final(self).spec_done() == old(self).spec_done(),
            final(self).spec_depth() == old(self).spec_depth(),
            final(self).spec_mode() == old(self).spec_mode(),
            ({
                let i = segment as int;
                let known = 0 <= i < old(self).spec_segments().len() && old(self).spec_pending()[i] > 0;
                &&& known ==> final(self).spec_pending() == old(self).spec_pending().update(i, 0)
                &&& known ==> final(self).spec_in_flight() == old(self).spec_in_flight() - 1
                &&& known ==> final(self).spec_scan() == if old(self).spec_scan() > i {
                    segment
                } else {
                    old(self).spec_scan()
                }
                &&& !known ==> final(self).spec_pending() == old(self).spec_pending()
                    && final(self).spec_in_flight() == old(self).spec_in_flight()
                    && final(self).spec_scan() == old(self).spec_scan()
            }),
    {
        self.failed = true;
        let n = self.segments.len();
        if segment >= n || self.pending[segment] == 0 {
            return;
        }
        let idx = segment;
        let ghost old_set = self.pending_set@;
        self.pending.set(idx, 0);
        self.in_flight = self.in_flight - 1;
        self.pending_set = Ghost(old_set.remove(idx as int));
        if self.next_submit > idx {
            self.next_submit = idx;
        }
        proof {
            assert forall|i: int|
                #[trigger] self.pending_set@.contains(i) <==> (0 <= i < n && self.pending@[i] > 0) by {
                if i != idx {
                    assert(old_set.contains(i) == self.pending_set@.contains(i));
                }
            }
            assert forall|i: int|
                0 <= i < self.next_submit implies #[trigger] self.done@[i] == self.segments@[i].len
                    || self.pending@[i] > 0 by {
                assert(i != idx);
                assert(self.pending@[i] == old(self).pending@[i]);
            }
        }
    }

    /// Whether nothing is in flight and no further submission will be
    /// offered: either the transfer failed and has been drained, or every
    /// segment has been transferred completely.
    pub fn finished(&self) -> (b: bool)
        requires
            self.wf(),
        ensures
            b == (self.spec_in_flight() == 0 && (self.spec_failed() || self.spec_scan()
                == self.spec_segments().len())),
            b ==> forall|i: int| 0 <= i < self.spec_segments().len() ==> #[trigger] self.spec_pending()[i] == 0,
            b && !self.spec_failed() ==> self.is_complete(),
    {
        let b = self.in_flight == 0 && (self.failed || self.next_submit == self.segments.len());
        proof {
            if b {
                self.lemma_idle_has_nothing_pending();
            }
            if b && !self.failed {
                self.lemma_idle_has_nothing_pending();
                assert forall|i: int|
                    0 <= i < self.spec_segments().len() implies #[trigger] self.spec_done()[i]
                        == self.spec_segments()[i].len by {
                    assert(i < self.next_submit);
                    assert(self.spec_pending()[i] == 0);
                    assert(self.done@[i] == self.segments@[i].len || self.pending@[i] > 0);
                }
            }
        }
        b
    }

    /// With nothing in flight, no segment has an operation pending.
    pub proof fn lemma_idle_has_nothing_pending(&self)
        requires
            self.wf(),
            self.spec_in_flight() == 0,
        ensures
            forall|i: int| 0 <= i < self.spec_segments().len() ==> #[trigger] self.spec_pending()[i] == 0,
    {
        self.pending_set@.lemma_len0_is_empty();
        assert forall|i: int| 0 <= i < self.spec_segments().len() implies #[trigger] self.spec_pending()[i] == 0 by {
            if self.pending@[i] > 0 {
                assert(self.pending_set@.contains(i));
            }
        }
    }
}

} // verus!

verus! {

/// Default number of entries of a ring.
pub const DEFAULT_RING_DEPTH: u32 = 256;

/// Default size of the chunks a single transfer is split into (4 MiB).
pub const DEFAULT_CHUNK_SIZE: usize = 4194304;

/// Options for the ring backend.
#[derive(Debug, Clone, Copy, PartialEq, Eq, Structural)]
pub struct IoUringOptions {
    /// Depth of each ring; also caps the operations in flight at once.
    pub ring_depth: u32,
    /// Size of each chunk submitted to the ring.
    pub chunk_size: usize,
}

impl Default for IoUringOptions {
    fn default() -> (o: IoUringOptions)
        ensures
            o.ring_depth == DEFAULT_RING_DEPTH,
            o.chunk_size == DEFAULT_CHUNK_SIZE,
    {
        IoUringOptions { ring_depth: DEFAULT_RING_DEPTH, chunk_size: DEFAULT_CHUNK_SIZE }
    }
}

/// Checks the ring parameters: the depth and the chunk size must be non-zero.
pub fn validate_ring_options(ring_depth: u32, chunk_size: usize) -> (r: Result<()>)
    ensures
        r is Ok <==> ring_depth > 0 && chunk_size > 0,
        r matches Err(e) ==> e.spec_kind() == ErrorKind::InvalidInput,
        r matches Err(e) ==> (ring_depth == 0 <==> e.spec_message() == "ring_depth must be greater than zero"@),
        r matches Err(e) ==> (ring_depth > 0 <==> e.spec_message() == "chunk_size must be greater than zero"@),
{
    proof {
        reveal_strlit("ring_depth must be greater than zero");
        reveal_strlit("chunk_size must be greater than zero");
        assert("ring_depth must be greater than zero"@[0] != "chunk_size must be greater than zero"@[0]);
    }
    if ring_depth == 0 {
        return Err(Error::new(ErrorKind::InvalidInput, "ring_depth must be greater than zero"));
    }
    if chunk_size == 0 {
        return Err(Error::new(ErrorKind::InvalidInput, "chunk_size must be greater than zero"));
    }
    Ok(())
}

/// Whether the cached ring (with `current_entries` submission entries, or none
/// at all) must be replaced by a new ring of `depth` entries.
pub fn needs_new_ring(current_entries: Option<u32>, depth: u32) -> (b: bool)
    ensures
        b == match current_entries {
            None => true,
            Some(entries) => entries < depth,
        },
{
    match current_entries {
        None => true,
        Some(entries) => entries < depth,
    }
}

/// The ring backend with validated options.
#[derive(Debug, Clone, Copy)]
pub struct IoUring {
    options: IoUringOptions,
}

impl View for IoUring {
    type V = IoUringOptions;

    closed spec fn view(&self) -> IoUringOptions {
        self.options
    }
}

impl Default for IoUring {
    fn default() -> (u: IoUring)
        ensures
            u@.ring_depth == DEFAULT_RING_DEPTH,
            u@.chunk_size == DEFAULT_CHUNK_SIZE,
    {
        IoUring { options: IoUringOptions::default() }
    }
}

impl IoUring {
    #[verifier::type_invariant]
    spec fn valid_options(self) -> bool {
        self.options.ring_depth > 0 && self.options.chunk_size > 0
    }

    /// A backend with the given options; fails when the depth or the chunk size is zero.
    pub fn with_options(options: IoUringOptions) -> (r: Result<IoUring>)
        ensures
            r is Ok <==> options.ring_depth > 0 && options.chunk_size > 0,
            r matches Ok(u) ==> u@ == options,
            r matches Err(e) ==> e.spec_kind() == ErrorKind::InvalidInput,
            r matches Err(e) ==> (options.ring_depth == 0 <==> e.spec_message()
                == "ring_depth must be greater than zero"@),
            r matches Err(e) ==> (options.ring_depth > 0 <==> e.spec_message()
                == "chunk_size must be greater than zero"@),
    {
        match validate_ring_options(options.ring_depth, options.chunk_size) {
            Ok(()) => Ok(IoUring { options }),
            Err(e) => Err(e),
        }
    }

    /// The options of this backend; both are non-zero.
    pub fn options(&self) -> (o: IoUringOptions)
        ensures
            o == self@,
            o.ring_depth > 0,
            o.chunk_size > 0,
    {
        proof {
            use_type_invariant(self);
        }
        self.options
    }

    /// The schedule of an exact positioned transfer of `total` bytes at `offset`,
    /// split into chunks of at most the configured chunk size.
    pub fn exact_transfer(&self, total: usize, offset: u64, mode: TransferMode) -> (t: RingTransfer)
        requires
            total > 0,
            offset + total <= u64::MAX,
        ensures
            t.wf(),
            tiles(
                t.spec_segments(),
                total as int,
                if self@.chunk_size < total { self@.chunk_size as int } else { total as int },
                offset as int,
            ),
            forall|i: int| 0 <= i < t.spec_segments().len() ==> #[trigger] t.spec_done()[i] == 0,
            forall|i: int| 0 <= i < t.spec_segments().len() ==> #[trigger] t.spec_pending()[i] == 0,
            t.spec_in_flight() == 0,
            t.spec_scan() == 0,
            !t.spec_failed(),
            t.spec_depth() == self@.ring_depth,
            t.spec_mode() == mode,
    {
        let o = self.options();
        RingTransfer::chunked(total, o.chunk_size, offset, o.ring_depth, mode)
    }

    /// The schedule of writing every slice of a validated batch.
    pub fn batch_transfer(&self, writes: WriteSlices) -> (t: RingTransfer)
        ensures
            t.wf(),
            t.spec_segments().len() == writes@.len(),
            forall|i: int|
                #![trigger t.spec_segments()[i]]
                0 <= i < writes@.len() ==> t.spec_segments()[i] == (Segment {
                    start: 0,
                    len: writes@[i].data@.len() as usize,
                    file_offset: writes@[i].offset,
                }),
            forall|i: int| 0 <= i < t.spec_segments().len() ==> #[trigger] t.spec_done()[i] == 0,
            forall|i: int| 0 <= i < t.spec_segments().len() ==> #[trigger] t.spec_pending()[i] == 0,
            t.spec_in_flight() == 0,
            t.spec_scan() == 0,
            !t.spec_failed(),
            t.spec_depth() == self@.ring_depth,
            t.spec_mode() == TransferMode::Write,
    {
        let o = self.options();
        RingTransfer::slices(writes, o.ring_depth)
    }
}

} // verus!
