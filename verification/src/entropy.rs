//! The integer side of the entropy analysis: byte histograms and the layout of the
//! contiguous, non-overlapping windows a buffer is cut into. The entropy values
//! themselves are floating point and are computed outside this library.

use vstd::prelude::*;

verus! {

/// Number of occurrences of byte `b` in `s`.
pub open spec fn byte_count(s: Seq<u8>, b: u8) -> nat
    decreases s.len(),
{
    if s.len() == 0 {
        0
    } else {
        byte_count(s.drop_last(), b) + if s.last() == b {
            1nat
        } else {
            0nat
        }
    }
}

pub proof fn lemma_byte_count_bound(s: Seq<u8>, b: u8)
    ensures
        byte_count(s, b) <= s.len(),
    decreases s.len(),
{
    if s.len() > 0 {
        lemma_byte_count_bound(s.drop_last(), b);
    }
}

/// The 256-entry histogram of `data`: entry `b` counts the occurrences of byte `b`.
pub fn byte_histogram(data: &[u8]) -> (counts: Vec<u64>)
    ensures
        counts@.len() == 256,
        forall|b: u8| #[trigger] counts@[b as int] == byte_count(data@, b),
{
    let mut counts: Vec<u64> = vec![0u64; 256];
    let mut i: usize = 0;
    while i < data.len()
        invariant
            i <= data@.len(),
            counts@.len() == 256,
            forall|b: u8| #[trigger] counts@[b as int] == byte_count(data@.take(i as int), b),
        decreases data@.len() - i,
    {
        let x = data[i];
        proof {
            assert(data@.take(i + 1).drop_last() =~= data@.take(i as int));
            lemma_byte_count_bound(data@.take(i as int), x);
        }
        let c = counts[x as usize];
        counts.set(x as usize, c + 1);
        assert forall|b: u8| #[trigger] counts@[b as int] == byte_count(data@.take(i + 1), b) by {
            assert(data@.take(i + 1).last() == x);
        }
        i += 1;
    }
    assert(data@.take(i as int) =~= data@);
    counts
}

/// One window of a buffer: its ordinal, its first and (inclusive) last byte offsets and
/// its length.
#[derive(Debug, Clone, Copy)]
pub struct WindowSpan {
    pub index: u32,
    pub start_offset: u64,
    pub end_offset: u64,
    pub length: u32,
}

/// `w` is the list of windows of `window_size` bytes covering a buffer of `len` bytes:
/// contiguous and non-overlapping from offset 0, each `window_size` long except a shorter
/// last one, with inclusive end offsets; no window at all when either size is zero.
pub open spec fn is_window_layout(w: Seq<WindowSpan>, len: int, window_size: int) -> bool {
    if window_size == 0 || len == 0 {
        w.len() == 0
    } else {
        &&& w.len() > 0
        &&& w[0].start_offset == 0
        &&& w.last().end_offset == len - 1
        &&& forall|k: int|
            0 <= k < w.len() ==> {
                let s = (#[trigger] w[k]).start_offset as int;
                let n = s + window_size <= len;
                &&& w[k].index == #[verifier::truncate] (k as u32)
                &&& s < len
                &&& w[k].end_offset == if n {
                    s + window_size - 1
                } else {
                    len - 1
                }
                &&& w[k].length == #[verifier::truncate] ((w[k].end_offset - s + 1) as u32)
            }
        &&& forall|k: int|
            0 <= k < w.len() - 1 ==> #[trigger] w[k + 1].start_offset == w[k].end_offset + 1
    }
}

/// Cuts a buffer of `len` bytes into contiguous windows of `window_size` bytes.
pub fn entropy_windows(len: usize, window_size: usize) -> (w: Vec<WindowSpan>)
    ensures
        is_window_layout(w@, len as int, window_size as int),
{
    let mut windows: Vec<WindowSpan> = Vec::new();
    if window_size == 0 || len == 0 {
        return windows;
    }
    let mut start: usize = 0;
    let mut index: usize = 0;
    while start < len
        invariant
            0 < window_size,
            0 < len,
            start <= len,
            index == windows@.len(),
            index <= start,
            windows@.len() == 0 ==> start == 0,
            windows@.len() > 0 ==> windows@[0].start_offset == 0,
            windows@.len() > 0 ==> windows@.last().end_offset + 1 == start,
            forall|k: int|
                0 <= k < windows@.len() ==> {
                    let s = (#[trigger] windows@[k]).start_offset as int;
                    let n = s + window_size <= len;
                    &&& windows@[k].index == #[verifier::truncate] (k as u32)
                    &&& s < len
                    &&& windows@[k].end_offset == if n {
                        s + window_size - 1
                    } else {
                        len - 1
                    }
                    &&& windows@[k].length == #[verifier::truncate] ((windows@[k].end_offset - s + 1) as u32)
                },
            forall|k: int|
                0 <= k < windows@.len() - 1 ==> #[trigger] windows@[k + 1].start_offset
                    == windows@[k].end_offset + 1,
        decreases len - start,
    {
        let length: usize = if window_size <= len - start {
            window_size
        } else {
            len - start
        };
        let ghost prev = windows@;
        let span = WindowSpan {
            index: #[verifier::truncate] (index as u32),
            start_offset: start as u64,
            end_offset: (start + length - 1) as u64,
            length: #[verifier::truncate] (length as u32),
        };
        windows.push(span);
        assert(windows@ =~= prev.push(span));
        start = start + length;
        index = index + 1;
    }
    windows
}


proof fn lemma_window_starts_increase(w: Seq<WindowSpan>, len: int, window_size: int, k1: int, k2: int)
    requires
        is_window_layout(w, len, window_size),
        window_size > 0,
        len > 0,
        0 <= k1 < k2 < w.len(),
    ensures
        w[k1].end_offset < w[k2].start_offset,
    decreases k2 - k1,
{
    assert(w[k2 - 1 + 1].start_offset == w[k2 - 1].end_offset + 1);
    if k1 < k2 - 1 {
        lemma_window_starts_increase(w, len, window_size, k1, k2 - 1);
        assert(w[k2 - 1].start_offset <= w[k2 - 1].end_offset);
    }
}

proof fn lemma_window_cover_from(w: Seq<WindowSpan>, len: int, window_size: int, x: int, k: int)
    requires
        is_window_layout(w, len, window_size),
        window_size > 0,
        len > 0,
        0 <= x < len,
        0 <= k < w.len(),
        w[k].start_offset <= x,
    ensures
        exists|j: int| 0 <= j < w.len() && w[j].start_offset <= x <= (#[trigger] w[j]).end_offset,
    decreases w.len() - k,
{
    if x <= w[k].end_offset {
        assert(w[k].start_offset <= x <= w[k].end_offset);
    } else {
        assert(k + 1 < w.len());
        assert(w[k + 1].start_offset == w[k].end_offset + 1);
        lemma_window_cover_from(w, len, window_size, x, k + 1);
    }
}

/// Law: the windows partition the buffer: every byte offset below `len` lies in exactly
/// one window (for a non-zero window size).
pub proof fn lemma_windows_partition(w: Seq<WindowSpan>, len: int, window_size: int, x: int)
    requires
        is_window_layout(w, len, window_size),
        window_size > 0,
        0 <= x < len,
    ensures
        exists|j: int| 0 <= j < w.len() && w[j].start_offset <= x <= (#[trigger] w[j]).end_offset,
        forall|j1: int, j2: int|
            0 <= j1 < w.len() && 0 <= j2 < w.len() && w[j1].start_offset <= x <= w[j1].end_offset
                && w[j2].start_offset <= x <= w[j2].end_offset ==> #[trigger] w[j1] == #[trigger] w[j2]
                && j1 == j2,
{
    lemma_window_cover_from(w, len, window_size, x, 0);
    assert forall|j1: int, j2: int|
        0 <= j1 < w.len() && 0 <= j2 < w.len() && w[j1].start_offset <= x <= w[j1].end_offset
            && w[j2].start_offset <= x <= w[j2].end_offset implies #[trigger] w[j1] == #[trigger] w[j2]
            && j1 == j2 by {
        if j1 < j2 {
            lemma_window_starts_increase(w, len, window_size, j1, j2);
        } else if j2 < j1 {
            lemma_window_starts_increase(w, len, window_size, j2, j1);
        }
    }
}

} // verus!
