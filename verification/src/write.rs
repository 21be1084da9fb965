use vstd::prelude::*;

use crate::error::{Error, ErrorKind, Result};

verus! {

/// Bytes to be written at a file offset.
#[derive(Debug, Clone, Copy)]
pub struct WriteSlice<'a> {
    pub offset: u64,
    pub data: &'a [u8],
}

/// One past the last file position written by `w`.
pub open spec fn write_end(w: WriteSlice) -> int {
    w.offset + w.data@.len()
}

/// The slice writes no bytes.
pub open spec fn write_is_empty(w: WriteSlice) -> bool {
    w.data@.len() == 0
}

/// The end of a non-empty slice does not fit in a `u64`.
pub open spec fn write_overflows(w: WriteSlice) -> bool {
    !write_is_empty(w) && write_end(w) > u64::MAX
}

/// Slices `i` and `j` of `s` are distinct, non-empty and share a file position.
pub open spec fn writes_overlap(s: Seq<WriteSlice>, i: int, j: int) -> bool {
    &&& 0 <= i < s.len()
    &&& 0 <= j < s.len()
    &&& i != j
    &&& !write_is_empty(s[i])
    &&& !write_is_empty(s[j])
    &&& s[i].offset < write_end(s[j])
    &&& s[j].offset < write_end(s[i])
}

/// Some non-empty slice of `s` ends past `u64::MAX`.
pub open spec fn some_write_overflows(s: Seq<WriteSlice>) -> bool {
    exists|i: int| 0 <= i < s.len() && #[trigger] write_overflows(s[i])
}

/// Two distinct non-empty slices of `s` overlap.
pub open spec fn some_writes_overlap(s: Seq<WriteSlice>) -> bool {
    exists|i: int, j: int| #[trigger] writes_overlap(s, i, j)
}

/// A batch of slices that can be written in any order with the same result:
/// no non-empty slice overflows and no two non-empty slices overlap.
pub open spec fn valid_write_batch(s: Seq<WriteSlice>) -> bool {
    !some_write_overflows(s) && !some_writes_overlap(s)
}

impl<'a> WriteSlice<'a> {
    /// Creates a slice writing `data` at `offset`.
    pub fn new(offset: u64, data: &'a [u8]) -> (w: WriteSlice<'a>)
        ensures
            w.offset == offset,
            w.data@ == data@,
    {
        WriteSlice { offset, data }
    }

    /// One past the last written position; fails when it does not fit in a `u64`.
    pub fn end_offset(self) -> (r: Result<u64>)
        ensures
            r is Ok <==> write_end(self) <= u64::MAX,
            r matches Ok(end) ==> end == write_end(self),
            r matches Err(e) ==> e.spec_kind() == ErrorKind::InvalidInput && e.spec_message()
                == "write offset overflow"@,
    {
        let len = self.data.len() as u64;
        match self.offset.checked_add(len) {
            Some(end) => Ok(end),
            None => Err(Error::new(ErrorKind::InvalidInput, "write offset overflow")),
        }
    }
}

/// The spans `s` are ordered by their start.
pub open spec fn sorted_by_start(s: Seq<(u64, u64)>) -> bool {
    forall|k: int, l: int| 0 <= k < l < s.len() ==> s[k].0 <= s[l].0
}

/// `p` maps each position of `new` to the position of `old` that holds the same
/// element, and it is a bijection between the positions of the two sequences.
pub open spec fn is_permutation<T>(old: Seq<T>, new: Seq<T>, p: Seq<int>) -> bool {
    &&& new.len() == old.len()
    &&& p.len() == new.len()
    &&& forall|k: int| 0 <= k < new.len() ==> 0 <= #[trigger] p[k] < old.len() && new[k] == old[p[k]]
    &&& forall|k: int, l: int| 0 <= k < l < new.len() ==> #[trigger] p[k] != #[trigger] p[l]
    &&& forall|i: int|
        #![trigger old[i]]
        0 <= i < old.len() ==> exists|k: int| 0 <= k < new.len() && #[trigger] p[k] == i
}

/// Sorts spans by their start with `slice::sort_unstable_by_key`.
///
/// Trusted: std documents that the call sorts the slice by the key (here the
/// start of each span) and that the result is a rearrangement of the input;
/// the order of spans with equal starts is left open, and so it is here.
#[verifier::external_body]
fn sort_spans_by_start(spans: &mut Vec<(u64, u64)>)
    ensures
        sorted_by_start(final(spans)@),
        exists|p: Seq<int>| is_permutation(old(spans)@, final(spans)@, p),
{
    spans.sort_unstable_by_key(|&(start, _)| start);
}

/// In spans sorted by start, each of which starts no later than it ends, if
/// every span ends no later than the next one starts, then every span ends no
/// later than any later span starts.
proof fn lemma_adjacent_disjoint_is_pairwise(s: Seq<(u64, u64)>, k: int, l: int)
    requires
        0 <= k < l < s.len(),
        forall|m: int| 0 <= m < s.len() ==> #[trigger] s[m].0 <= s[m].1,
        forall|m: int| 0 <= m < s.len() - 1 ==> #[trigger] s[m].1 <= s[m + 1].0,
    ensures
        s[k].1 <= s[l].0,
    decreases l - k,
{
    if l > k + 1 {
        lemma_adjacent_disjoint_is_pairwise(s, k + 1, l);
        assert(s[k].1 <= s[k + 1].0);
        assert(s[k + 1].0 <= s[k + 1].1);
    }
}

/// Whether a batch is valid does not depend on the order of its slices.
pub proof fn lemma_batch_validity_ignores_order<'d>(s: Seq<WriteSlice<'d>>, t: Seq<WriteSlice<'d>>, p: Seq<int>)
    requires
        is_permutation(s, t, p),
    ensures
        valid_write_batch(s) == valid_write_batch(t),
{
    if some_write_overflows(s) {
        let i = choose|i: int| 0 <= i < s.len() && #[trigger] write_overflows(s[i]);
        assert(s[i] == s[i]);
        let k = choose|k: int| 0 <= k < t.len() && #[trigger] p[k] == i;
        assert(write_overflows(t[k]));
    }
    if some_write_overflows(t) {
        let k = choose|k: int| 0 <= k < t.len() && #[trigger] write_overflows(t[k]);
        assert(0 <= p[k] < s.len());
        assert(write_overflows(s[p[k]]));
    }
    if some_writes_overlap(s) {
        let (i, j) = choose|i: int, j: int| #[trigger] writes_overlap(s, i, j);
        assert(s[i] == s[i]);
        assert(s[j] == s[j]);
        let k = choose|k: int| 0 <= k < t.len() && #[trigger] p[k] == i;
        let l = choose|l: int| 0 <= l < t.len() && #[trigger] p[l] == j;
        assert(writes_overlap(t, k, l));
    }
    if some_writes_overlap(t) {
        let (k, l) = choose|k: int, l: int| #[trigger] writes_overlap(t, k, l);
        assert(0 <= p[k] < s.len());
        assert(0 <= p[l] < s.len());
        if k < l {
            assert(p[k] != p[l]);
        } else {
            assert(p[l] != p[k]);
        }
        assert(writes_overlap(s, p[k], p[l]));
    }
}

/// Adding an empty slice at any position of a batch never changes whether it
/// is valid.
pub proof fn lemma_empty_slice_is_neutral<'d>(s: Seq<WriteSlice<'d>>, k: int, w: WriteSlice<'d>)
    requires
        0 <= k <= s.len(),
        write_is_empty(w),
    ensures
        valid_write_batch(s.insert(k, w)) == valid_write_batch(s),
{
    let t = s.insert(k, w);
    // position in `t` of the element at position `i` of `s`
    let up = |i: int| if i < k { i } else { i + 1 };
    // position in `s` of the element at position `i` of `t`, for `i != k`
    let down = |i: int| if i < k { i } else { i - 1 };
    if some_write_overflows(t) {
        let i = choose|i: int| 0 <= i < t.len() && #[trigger] write_overflows(t[i]);
        assert(i != k);
        assert(t[i] == s[down(i)]);
        assert(write_overflows(s[down(i)]));
    }
    if some_write_overflows(s) {
        let i = choose|i: int| 0 <= i < s.len() && #[trigger] write_overflows(s[i]);
        assert(t[up(i)] == s[i]);
        assert(write_overflows(t[up(i)]));
    }
    if some_writes_overlap(t) {
        let (i, j) = choose|i: int, j: int| #[trigger] writes_overlap(t, i, j);
        assert(i != k && j != k);
        assert(t[i] == s[down(i)] && t[j] == s[down(j)]);
        assert(writes_overlap(s, down(i), down(j)));
    }
    if some_writes_overlap(s) {
        let (i, j) = choose|i: int, j: int| #[trigger] writes_overlap(s, i, j);
        assert(t[up(i)] == s[i] && t[up(j)] == s[j]);
        assert(writes_overlap(t, up(i), up(j)));
    }
}

/// Removing an empty slice from any position of a batch never changes whether
/// it is valid.
pub proof fn lemma_removing_empty_slice_is_neutral<'d>(s: Seq<WriteSlice<'d>>, k: int)
    requires
        0 <= k < s.len(),
        write_is_empty(s[k]),
    ensures
        valid_write_batch(s.remove(k)) == valid_write_batch(s),
{
    let r = s.remove(k);
    assert(r.insert(k, s[k]) =~= s);
    lemma_empty_slice_is_neutral(r, k, s[k]);
}

/// The slices of `s` that write at least one byte, in their order in `s`.
pub open spec fn non_empty_slices<'d>(s: Seq<WriteSlice<'d>>) -> Seq<WriteSlice<'d>>
    decreases s.len(),
{
    if s.len() == 0 {
        Seq::empty()
    } else {
        let rest = non_empty_slices(s.drop_last());
        if write_is_empty(s.last()) {
            rest
        } else {
            rest.push(s.last())
        }
    }
}

/// Dropping the empty slices of `s` keeps the validity of `s` followed by any
/// batch `q`.
proof fn lemma_drop_empty_slices_before<'d>(s: Seq<WriteSlice<'d>>, q: Seq<WriteSlice<'d>>)
    ensures
        valid_write_batch(s + q) == valid_write_batch(non_empty_slices(s) + q),
    decreases s.len(),
{
    if s.len() > 0 {
        let a = s.drop_last();
        let x = s.last();
        assert(s =~= a.push(x));
        if write_is_empty(x) {
            assert((s + q).remove(a.len() as int) =~= a + q);
            lemma_removing_empty_slice_is_neutral(s + q, a.len() as int);
            lemma_drop_empty_slices_before(a, q);
        } else {
            let xq = seq![x] + q;
            assert(s + q =~= a + xq);
            assert(non_empty_slices(a).push(x) + q =~= non_empty_slices(a) + xq);
            lemma_drop_empty_slices_before(a, xq);
        }
    } else {
        assert(s + q =~= q);
        assert(non_empty_slices(s) + q =~= q);
    }
}

/// Whether a batch is valid depends only on its non-empty slices: any number
/// of empty slices, at any offsets, can be added to a batch or taken out of
/// it without changing whether it is valid.
pub proof fn lemma_empty_slices_are_neutral<'d>(s: Seq<WriteSlice<'d>>, t: Seq<WriteSlice<'d>>)
    requires
        non_empty_slices(s) == non_empty_slices(t),
    ensures
        valid_write_batch(s) == valid_write_batch(t),
{
    let e = Seq::<WriteSlice<'d>>::empty();
    lemma_drop_empty_slices_before(s, e);
    lemma_drop_empty_slices_before(t, e);
    assert(s + e =~= s);
    assert(t + e =~= t);
    assert(non_empty_slices(s) + e =~= non_empty_slices(s));
}

/// The two messages of a refused batch are different texts.
proof fn lemma_batch_messages_differ()
    ensures
        "write slices overlap"@ != "write offset overflow"@,
{
    reveal_strlit("write slices overlap");
    reveal_strlit("write offset overflow");
    assert("write slices overlap"@[6] != "write offset overflow"@[6]);
}

/// A validated batch of non-overlapping positioned writes.
#[derive(Debug, Clone, Copy)]
pub struct WriteSlices<'s, 'd>(&'s [WriteSlice<'d>]);

impl<'s, 'd> View for WriteSlices<'s, 'd> {
    type V = Seq<WriteSlice<'d>>;

    closed spec fn view(&self) -> Seq<WriteSlice<'d>> {
        self.0@
    }
}

impl<'s, 'd> WriteSlices<'s, 'd> {
    #[verifier::type_invariant]
    spec fn validated(self) -> bool {
        valid_write_batch(self.0@)
    }

    /// Validates `slices`: no non-empty slice may end past `u64::MAX` and no
    /// two non-empty slices may overlap. Empty slices are ignored; order does
    /// not matter.
    pub fn new(slices: &'s [WriteSlice<'d>]) -> (r: Result<WriteSlices<'s, 'd>>)
        ensures
            r is Ok <==> valid_write_batch(slices@),
            r matches Ok(w) ==> w@ == slices@,
            r matches Err(e) ==> e.spec_kind() == ErrorKind::InvalidInput,
            r matches Err(e) ==> (some_write_overflows(slices@) <==> e.spec_message()
                == "write offset overflow"@),
            r matches Err(e) ==> (!some_write_overflows(slices@) <==> e.spec_message()
                == "write slices overlap"@),
    {
        let ghost s = slices@;
        let mut spans: Vec<(u64, u64)> = Vec::new();
        // origin[k] is the position in `slices` of the slice that spans[k] stands for
        let ghost mut origin: Seq<int> = Seq::empty();
        let n = slices.len();
        let mut i: usize = 0;
        while i < n
            invariant
                n == s.len(),
                s == slices@,
                0 <= i <= n,
                spans@.len() == origin.len(),
                forall|k: int, l: int| 0 <= k < l < origin.len() ==> origin[k] < origin[l],
                forall|k: int|
                    #![trigger origin[k]]
                    0 <= k < origin.len() ==> {
                        &&& 0 <= origin[k] < i
                        &&& !write_is_empty(s[origin[k]])
                        &&& spans@[k].0 == s[origin[k]].offset
                        &&& spans@[k].1 == write_end(s[origin[k]])
                    },
                forall|j: int|
                    0 <= j < i && !write_is_empty(#[trigger] s[j]) ==> exists|k: int|
                        0 <= k < origin.len() && origin[k] == j,
                forall|j: int| 0 <= j < i ==> !#[trigger] write_overflows(s[j]),
            decreases n - i,
        {
            let w = slices[i];
            if w.data.len() != 0 {
                match w.end_offset() {
                    Ok(end) => {
                        let ghost old_origin = origin;
                        spans.push((w.offset, end));
                        proof {
                            origin = origin.push(i as int);
                            assert forall|j: int|
                                0 <= j < i + 1 && !write_is_empty(#[trigger] s[j]) implies exists|k: int|
                                0 <= k < origin.len() && origin[k] == j by {
                                if j < i {
                                    let k = choose|k: int| 0 <= k < old_origin.len() && old_origin[k] == j;
                                    assert(origin[k] == j);
                                } else {
                                    assert(origin[old_origin.len() as int] == j);
                                }
                            }
                        }
                    },
                    Err(e) => {
                        assert(write_overflows(s[i as int]));
                        proof {
                            lemma_batch_messages_differ();
                        }
                        return Err(e);
                    },
                }
            }
            i = i + 1;
        }
        assert(!some_write_overflows(s));
        let ghost unsorted = spans@;
        sort_spans_by_start(&mut spans);
        let ghost p = choose|p: Seq<int>| is_permutation(unsorted, spans@, p);
        assert(forall|m: int| 0 <= m < spans@.len() ==> #[trigger] spans@[m].0 <= spans@[m].1) by {
            assert forall|m: int| 0 <= m < spans@.len() implies #[trigger] spans@[m].0 <= spans@[m].1 by {
                assert(0 <= p[m] < unsorted.len());
                assert(spans@[m] == unsorted[p[m]]);
                let k = origin[p[m]];
            }
        }
        let len = spans.len();
        let mut k: usize = 0;
        #[verifier::loop_isolation(false)]
        while k + 1 < len
            invariant
                len == spans@.len(),
                0 <= k,
                k < len || k == 0,
                forall|m: int| 0 <= m < k ==> #[trigger] spans@[m].1 <= spans@[m + 1].0,
            decreases len - k,
        {
            if spans[k].1 > spans[k + 1].0 {
                proof {
                    let a = p[k as int];
                    let b = p[k + 1];
                    let ia = origin[a];
                    let ib = origin[b];
                    assert(spans@[k as int] == unsorted[a]);
                    assert(spans@[k + 1] == unsorted[b]);
                    assert(a != b);
                    if a < b {
                        assert(ia < ib);
                    } else {
                        assert(ib < ia);
                    }
                    assert(spans@[k as int].0 <= spans@[k + 1].0);
                    assert(writes_overlap(s, ia, ib));
                    lemma_batch_messages_differ();
                }
                return Err(Error::new(ErrorKind::InvalidInput, "write slices overlap"));
            }
            k = k + 1;
        }
        proof {
            assert forall|m: int| 0 <= m < spans@.len() - 1 implies #[trigger] spans@[m].1
                <= spans@[m + 1].0 by {
                assert(m < k);
            }
            assert forall|i1: int, j1: int| !#[trigger] writes_overlap(s, i1, j1) by {
                if writes_overlap(s, i1, j1) {
                    let a = choose|a: int| 0 <= a < origin.len() && origin[a] == i1;
                    let b = choose|b: int| 0 <= b < origin.len() && origin[b] == j1;
                    assert(a != b);
                    assert(unsorted[a] == unsorted[a]);
                    assert(unsorted[b] == unsorted[b]);
                    let ka = choose|ka: int| 0 <= ka < spans@.len() && #[trigger] p[ka] == a;
                    let kb = choose|kb: int| 0 <= kb < spans@.len() && #[trigger] p[kb] == b;
                    assert(ka != kb);
                    assert(spans@[ka] == unsorted[a]);
                    assert(spans@[kb] == unsorted[b]);
                    if ka < kb {
                        lemma_adjacent_disjoint_is_pairwise(spans@, ka, kb);
                    } else {
                        lemma_adjacent_disjoint_is_pairwise(spans@, kb, ka);
                    }
                }
            }
        }
        Ok(WriteSlices(slices))
    }

    /// The validated slices, in the order they were given.
    pub fn as_slice(self) -> (s: &'s [WriteSlice<'d>])
        ensures
            s@ == self@,
            valid_write_batch(s@),
    {
        proof {
            use_type_invariant(self);
        }
        self.0
    }

    /// The number of slices, empty ones included.
    pub fn len(self) -> (n: usize)
        ensures
            n == self@.len(),
    {
        self.0.len()
    }

    /// Whether the batch holds no slices.
    pub fn is_empty(self) -> (b: bool)
        ensures
            b == (self@.len() == 0),
    {
        self.0.len() == 0
    }
}

} // verus!

verus! {

/// Slice `w` writes file position `b`.
pub open spec fn write_covers(w: WriteSlice, b: int) -> bool {
    !write_is_empty(w) && w.offset <= b < write_end(w)
}

/// A file holding `file` after `w` is written at its offset: the written bytes
/// replace or extend the contents, a gap before them reads as zeros, and an
/// empty slice changes nothing.
pub open spec fn apply_write(file: Seq<u8>, w: WriteSlice) -> Seq<u8> {
    let len = if write_is_empty(w) || write_end(w) <= file.len() { file.len() as int } else { write_end(w) };
    Seq::new(
        len as nat,
        |b: int|
            if write_covers(w, b) {
                w.data@[b - w.offset]
            } else if b < file.len() {
                file[b]
            } else {
                0u8
            },
    )
}

/// A file holding `file` after the slices of `s` are written one after another.
pub open spec fn apply_writes(file: Seq<u8>, s: Seq<WriteSlice>) -> Seq<u8>
    decreases s.len(),
{
    if s.len() == 0 {
        file
    } else {
        apply_write(apply_writes(file, s.drop_last()), s.last())
    }
}

/// `r` is what a file holding `file` holds once every slice of the batch `s`
/// is written, described without any order: it is as long as the file or the
/// furthest-reaching slice, each position written by a slice holds that
/// slice's byte, and every other position keeps its byte or reads as zero.
pub open spec fn is_batch_image(file: Seq<u8>, s: Seq<WriteSlice>, r: Seq<u8>) -> bool {
    &&& r.len() >= file.len()
    &&& forall|i: int| 0 <= i < s.len() && !write_is_empty(#[trigger] s[i]) ==> write_end(s[i]) <= r.len()
    &&& (r.len() == file.len() || exists|i: int|
        0 <= i < s.len() && !write_is_empty(#[trigger] s[i]) && write_end(s[i]) == r.len())
    &&& forall|b: int|
        0 <= b < r.len() ==> #[trigger] r[b] == if exists|i: int| 0 <= i < s.len() && #[trigger] write_covers(s[i], b) {
            let i = choose|i: int| 0 <= i < s.len() && #[trigger] write_covers(s[i], b);
            s[i].data@[b - s[i].offset]
        } else if b < file.len() {
            file[b]
        } else {
            0u8
        }
}

/// In a valid batch, at most one slice writes any given position.
proof fn lemma_single_cover<'d>(s: Seq<WriteSlice<'d>>, b: int, i: int, j: int)
    requires
        valid_write_batch(s),
        0 <= i < s.len(),
        0 <= j < s.len(),
        write_covers(s[i], b),
        write_covers(s[j], b),
    ensures
        i == j,
{
    if i != j {
        assert(writes_overlap(s, i, j));
    }
}

/// Dropping the last slice of a valid batch leaves a valid batch.
proof fn lemma_prefix_valid<'d>(s: Seq<WriteSlice<'d>>)
    requires
        valid_write_batch(s),
        s.len() > 0,
    ensures
        valid_write_batch(s.drop_last()),
{
    let t = s.drop_last();
    if some_write_overflows(t) {
        let i = choose|i: int| 0 <= i < t.len() && #[trigger] write_overflows(t[i]);
        assert(s[i] == t[i]);
        assert(write_overflows(s[i]));
    }
    if some_writes_overlap(t) {
        let (i, j) = choose|i: int, j: int| #[trigger] writes_overlap(t, i, j);
        assert(s[i] == t[i] && s[j] == t[j]);
        assert(writes_overlap(s, i, j));
    }
}

/// Writing the slices of a valid batch one after another produces the batch image.
pub proof fn lemma_apply_writes_is_image<'d>(file: Seq<u8>, s: Seq<WriteSlice<'d>>)
    requires
        valid_write_batch(s),
    ensures
        is_batch_image(file, s, apply_writes(file, s)),
    decreases s.len(),
{
    if s.len() == 0 {
        let r = apply_writes(file, s);
        assert(r == file);
        assert forall|b: int| 0 <= b < r.len() implies #[trigger] r[b] == if exists|i: int|
            0 <= i < s.len() && #[trigger] write_covers(s[i], b) {
            let i = choose|i: int| 0 <= i < s.len() && #[trigger] write_covers(s[i], b);
            s[i].data@[b - s[i].offset]
        } else if b < file.len() {
            file[b]
        } else {
            0u8
        } by {}
    } else {
        let t = s.drop_last();
        let w = s.last();
        let last = s.len() - 1;
        lemma_prefix_valid(s);
        lemma_apply_writes_is_image(file, t);
        let rt = apply_writes(file, t);
        let r = apply_writes(file, s);
        assert(r == apply_write(rt, w));
        assert(s[last] == w);
        // every slice reaches no further than the result
        assert forall|i: int| 0 <= i < s.len() && !write_is_empty(#[trigger] s[i]) implies write_end(s[i])
            <= r.len() by {
            if i < last {
                assert(t[i] == s[i]);
            }
        }
        // the length is the file's or the end of some slice
        if r.len() != file.len() {
            if r.len() == rt.len() {
                let i = choose|i: int| 0 <= i < t.len() && !write_is_empty(#[trigger] t[i]) && write_end(t[i]) == rt.len();
                assert(s[i] == t[i]);
            } else {
                assert(!write_is_empty(s[last]) && write_end(s[last]) == r.len());
            }
        }
        assert forall|b: int| 0 <= b < r.len() implies #[trigger] r[b] == if exists|i: int|
            0 <= i < s.len() && #[trigger] write_covers(s[i], b) {
            let i = choose|i: int| 0 <= i < s.len() && #[trigger] write_covers(s[i], b);
            s[i].data@[b - s[i].offset]
        } else if b < file.len() {
            file[b]
        } else {
            0u8
        } by {
            if write_covers(w, b) {
                assert(write_covers(s[last], b));
                let i = choose|i: int| 0 <= i < s.len() && #[trigger] write_covers(s[i], b);
                lemma_single_cover(s, b, i, last);
            } else if exists|i: int| 0 <= i < s.len() && #[trigger] write_covers(s[i], b) {
                let i = choose|i: int| 0 <= i < s.len() && #[trigger] write_covers(s[i], b);
                assert(i != last);
                assert(t[i] == s[i]);
                assert(write_covers(t[i], b));
                assert(b < rt.len());
                let k = choose|k: int| 0 <= k < t.len() && #[trigger] write_covers(t[k], b);
                assert(s[k] == t[k]);
                lemma_single_cover(s, b, i, k);
            } else {
                if b < rt.len() {
                    assert forall|k: int| 0 <= k < t.len() implies !#[trigger] write_covers(t[k], b) by {
                        assert(s[k] == t[k]);
                        if write_covers(t[k], b) {
                            assert(write_covers(s[k], b));
                        }
                    }
                } else {
                    assert(rt.len() >= file.len());
                }
            }
        }
    }
}

/// A batch has one image: two results that both match it are equal.
proof fn lemma_image_unique<'d>(file: Seq<u8>, s: Seq<WriteSlice<'d>>, r1: Seq<u8>, r2: Seq<u8>)
    requires
        is_batch_image(file, s, r1),
        is_batch_image(file, s, r2),
    ensures
        r1 == r2,
{
    if r1.len() < r2.len() {
        if r2.len() != file.len() {
            let i = choose|i: int| 0 <= i < s.len() && !write_is_empty(#[trigger] s[i]) && write_end(s[i]) == r2.len();
        }
    }
    if r2.len() < r1.len() {
        if r1.len() != file.len() {
            let i = choose|i: int| 0 <= i < s.len() && !write_is_empty(#[trigger] s[i]) && write_end(s[i]) == r1.len();
        }
    }
    assert(r1.len() == r2.len());
    assert forall|b: int| 0 <= b < r1.len() implies r1[b] == r2[b] by {
        assert(r1[b] == r1[b]);
        assert(r2[b] == r2[b]);
    }
    assert(r1 =~= r2);
}

/// The image of a valid batch is the image of any reordering of it.
proof fn lemma_image_reordered<'d>(file: Seq<u8>, s: Seq<WriteSlice<'d>>, t: Seq<WriteSlice<'d>>, p: Seq<int>, r: Seq<u8>)
    requires
        valid_write_batch(s),
        is_permutation(s, t, p),
        is_batch_image(file, s, r),
    ensures
        is_batch_image(file, t, r),
{
    lemma_batch_validity_ignores_order(s, t, p);
    assert forall|k: int| 0 <= k < t.len() && !write_is_empty(#[trigger] t[k]) implies write_end(t[k]) <= r.len() by {
        assert(0 <= p[k] < s.len());
        assert(s[p[k]] == t[k]);
    }
    if r.len() != file.len() {
        let i = choose|i: int| 0 <= i < s.len() && !write_is_empty(#[trigger] s[i]) && write_end(s[i]) == r.len();
        assert(s[i] == s[i]);
        let k = choose|k: int| 0 <= k < t.len() && #[trigger] p[k] == i;
        assert(t[k] == s[i]);
        assert(!write_is_empty(t[k]) && write_end(t[k]) == r.len());
    }
    assert forall|b: int| 0 <= b < r.len() implies #[trigger] r[b] == if exists|k: int|
        0 <= k < t.len() && #[trigger] write_covers(t[k], b) {
        let k = choose|k: int| 0 <= k < t.len() && #[trigger] write_covers(t[k], b);
        t[k].data@[b - t[k].offset]
    } else if b < file.len() {
        file[b]
    } else {
        0u8
    } by {
        if exists|k: int| 0 <= k < t.len() && #[trigger] write_covers(t[k], b) {
            let k = choose|k: int| 0 <= k < t.len() && #[trigger] write_covers(t[k], b);
            assert(0 <= p[k] < s.len());
            assert(s[p[k]] == t[k]);
            assert(write_covers(s[p[k]], b));
            let i = choose|i: int| 0 <= i < s.len() && #[trigger] write_covers(s[i], b);
            lemma_single_cover(s, b, i, p[k]);
        } else {
            if exists|i: int| 0 <= i < s.len() && #[trigger] write_covers(s[i], b) {
                let i = choose|i: int| 0 <= i < s.len() && #[trigger] write_covers(s[i], b);
                assert(s[i] == s[i]);
                let k = choose|k: int| 0 <= k < t.len() && #[trigger] p[k] == i;
                assert(t[k] == s[i]);
                assert(write_covers(t[k], b));
            }
        }
    }
}

/// Writing the slices of a valid batch one after another gives the same file
/// whatever order they are written in: a validated batch can be written in
/// any order, or concurrently, with the same result.
pub proof fn lemma_valid_batch_order_free<'d>(
    file: Seq<u8>,
    s: Seq<WriteSlice<'d>>,
    t: Seq<WriteSlice<'d>>,
    p: Seq<int>,
)
    requires
        valid_write_batch(s),
        is_permutation(s, t, p),
    ensures
        apply_writes(file, s) == apply_writes(file, t),
{
    lemma_batch_validity_ignores_order(s, t, p);
    lemma_apply_writes_is_image(file, s);
    lemma_apply_writes_is_image(file, t);
    lemma_image_reordered(file, s, t, p, apply_writes(file, s));
    lemma_image_unique(file, t, apply_writes(file, s), apply_writes(file, t));
}

} // verus!
