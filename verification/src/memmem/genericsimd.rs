//! A chunked searcher for short needles that confirms its own matches.
//!
//! This mirrors the chunked prefilter, but it is not a prefilter: on each
//! offset where the two rare bytes line up, the candidate is confirmed in
//! place by a byte comparison against the needle, so the routine returns
//! real matches, never candidates. It is the scalar rendering of the
//! vectorized short-needle searcher, with the chunk width standing in for
//! the vector width; the trailing partial chunk is handled by
//! re-anchoring one full chunk before the end and skipping the offsets
//! already examined.
//!
//! Its worst case is multiplicative, so the dispatcher reserves it for
//! needles of at most 16 bytes.

use vstd::prelude::*;

use crate::memmem::{is_first_match, matches_at};
use crate::memmem::prefilter::NeedleInfo;
use crate::memmem::util::matches_here;

verus! {

/// The maximum needle length this searcher accepts.
pub const MAX_NEEDLE_LEN: usize = 16;

/// The per-needle state of the chunked confirming searcher: the two rare
/// byte offsets, ordered so that `rare1i <= rare2i`.
#[derive(Clone, Copy, Debug)]
pub struct Forward {
    /// The smaller of the two rare byte offsets.
    pub rare1i: u8,
    /// The larger of the two rare byte offsets.
    pub rare2i: u8,
}

impl Forward {
    /// The offsets fit the needle `n` and the needle is long enough for a
    /// two-byte filter to mean anything.
    pub open spec fn wf(self, n: Seq<u8>) -> bool {
        &&& self.rare1i <= self.rare2i
        &&& self.rare2i < n.len()
        &&& n.len() >= 2
    }

    /// Create a new chunked confirming searcher, if the needle suits it:
    /// the needle must have 2 through 16 bytes and two distinct rare-byte
    /// offsets. The searcher's offsets are the given analysis's rare
    /// offsets, put in increasing order.
    pub fn new(ninfo: &NeedleInfo, needle: &[u8]) -> (r: Option<Forward>)
        requires
            ninfo.offsets_valid(needle@),
        ensures
            match r {
                Some(f) => f.wf(needle@) && 2 <= needle@.len() <= MAX_NEEDLE_LEN && ((f.rare1i
                    == ninfo.rare1i && f.rare2i == ninfo.rare2i) || (f.rare1i == ninfo.rare2i
                    && f.rare2i == ninfo.rare1i)),
                None => !(2 <= needle@.len() <= MAX_NEEDLE_LEN),
            },
{
        let (rare1i, rare2i) = ninfo.as_rare_ordered_usize();
        if needle.len() < 2 || needle.len() > MAX_NEEDLE_LEN || rare1i == rare2i {
            return None;
        }
        Some(Forward { rare1i: rare1i as u8, rare2i: rare2i as u8 })
    }

    /// The smallest haystack this searcher can run on for a given chunk
    /// width: one whole chunk must fit past the larger rare offset.
    pub fn min_haystack_len(&self, width: usize) -> (r: usize)
        requires
            width <= 65536,
        ensures
            r == self.rare2i + width,
    {
        self.rare2i as usize + width
    }

    /// Search the given haystack for the needle this searcher was built
    /// for: the result is exactly the leftmost occurrence, or a proof
    /// that there is none.
    pub fn find(&self, haystack: &[u8], needle: &[u8], width: usize) -> (r: Option<usize>)
        requires
            self.wf(needle@),
            1 <= width <= 65536,
            haystack@.len() >= self.rare2i + width,
        ensures
            match r {
                Some(i) => is_first_match(haystack@, needle@, i as int),
                None => forall|k: int| !matches_at(haystack@, needle@, k),
            },
    {
        let hlen = haystack.len();
        let nlen = needle.len();
        if hlen < nlen {
            return None;
        }
        let rare1i = self.rare1i as usize;
        let rare2i = self.rare2i as usize;
        let byte1 = needle[rare1i];
        let byte2 = needle[rare2i];
        let max_anchor = hlen - (rare2i + width);
        let mut i: usize = 0;
        while i <= max_anchor
            invariant
                hlen == haystack@.len(),
                nlen == needle@.len(),
                nlen >= 2,
                hlen >= nlen,
                rare1i <= rare2i < nlen,
                rare1i == self.rare1i,
                rare2i == self.rare2i,
                byte1 == needle@[rare1i as int],
                byte2 == needle@[rare2i as int],
                1 <= width,
                max_anchor == hlen - rare2i - width,
                i <= max_anchor + width,
                forall|k: int| 0 <= k < i ==> !matches_at(haystack@, needle@, k),
            decreases max_anchor + width - i,
        {
            match self.find_in_chunk(haystack, needle, i, byte1, byte2, width, 0) {
                Some(o) => {
                    return Some(i + o);
                },
                None => {
                    i += width;
                },
            }
        }
        // Trailing chunk: re-anchor one whole chunk before the end and
        // skip the offsets the main loop already covered.
        let overlap = i - max_anchor;
        if overlap < width {
            match self.find_in_chunk(haystack, needle, max_anchor, byte1, byte2, width, overlap) {
                Some(o) => {
                    return Some(max_anchor + o);
                },
                None => {},
            }
        }
        proof {
            assert forall|k: int| !matches_at(haystack@, needle@, k) by {
                if matches_at(haystack@, needle@, k) {
                    if k >= max_anchor + width {
                        assert(k + rare2i >= hlen);
                        assert(k + nlen > hlen);
                    }
                }
            }
        }
        None
    }

    /// Search one chunk anchored at `anchor`, skipping the first `start`
    /// offsets: report the smallest offset in `[start, width)` at which a
    /// confirmed occurrence of the needle begins, and prove along the way
    /// that every skipped offset holds none.
    fn find_in_chunk(
        &self,
        haystack: &[u8],
        needle: &[u8],
        anchor: usize,
        byte1: u8,
        byte2: u8,
        width: usize,
        start: usize,
    ) -> (r: Option<usize>)
        requires
            self.wf(needle@),
            byte1 == needle@[self.rare1i as int],
            byte2 == needle@[self.rare2i as int],
            anchor + self.rare2i + width <= haystack@.len(),
            start <= width,
        ensures
            match r {
                Some(o) => start <= o < width && matches_at(haystack@, needle@, anchor + o)
                    && forall|p: int|
                    anchor + start <= p < anchor + o ==> !matches_at(haystack@, needle@, p),
                None => forall|p: int|
                    anchor + start <= p < anchor + width ==> !matches_at(haystack@, needle@, p),
            },
    {
        let hlen = haystack.len();
        let rare1i = self.rare1i as usize;
        let rare2i = self.rare2i as usize;
        let mut o: usize = start;
        while o < width
            invariant
                hlen == haystack@.len(),
                rare1i == self.rare1i,
                rare2i == self.rare2i,
                rare1i <= rare2i < needle@.len(),
                byte1 == needle@[rare1i as int],
                byte2 == needle@[rare2i as int],
                anchor + rare2i + width <= hlen,
                start <= o <= width,
                forall|p: int|
                    anchor + start <= p < anchor + o ==> !matches_at(haystack@, needle@, p),
            decreases width - o,
        {
            let c = anchor + o;
            if haystack[c + rare1i] == byte1 && haystack[c + rare2i] == byte2 {
                if matches_here(haystack, needle, c) {
                    return Some(o);
                }
            } else {
                proof {
                    if matches_at(haystack@, needle@, c as int) {
                        assert(haystack@[c + rare1i] == needle@[rare1i as int]);
                        assert(haystack@[c + rare2i] == needle@[rare2i as int]);
                    }
                }
            }
            o += 1;
        }
        None
    }
}

} // verus!
