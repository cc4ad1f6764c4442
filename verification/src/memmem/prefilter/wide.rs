//! A chunked two-rare-byte prefilter.
//!
//! This is the scalar rendering of the vectorized rare-byte prefilter: a
//! fixed-width window slides over the haystack a whole chunk at a time,
//! and within each chunk every offset is tested for both rare bytes at
//! once — the same splat/compare/and shape a SIMD lane set computes, with
//! the chunk width standing in for the vector width. The final, partial
//! chunk is handled by re-anchoring one full chunk before the end of the
//! haystack, exactly as the vector code re-reads its trailing window.
//!
//! Haystacks shorter than `rare2i + width` fall back to a single
//! rare-byte scan.

use vstd::prelude::*;

use crate::memchr::memchr;
use crate::memmem::{lemma_naive_find_correct, matches_at, naive_find_spec};
use crate::memmem::prefilter::{NeedleInfo, PrefilterState};

verus! {

/// Both rare bytes line up at candidate position `c`: the haystack holds
/// `byte_lo` at offset `lo` and `byte_hi` at offset `hi` from `c`.
pub open spec fn rare_pair_at(
    h: Seq<u8>,
    byte_lo: u8,
    byte_hi: u8,
    lo: int,
    hi: int,
    c: int,
) -> bool {
    h[c + lo] == byte_lo && h[c + hi] == byte_hi
}

/// Search one chunk anchored at `anchor`: report the smallest offset in
/// `[0, width)` at which both rare bytes line up, if any.
fn find_in_chunk(
    haystack: &[u8],
    anchor: usize,
    lo: usize,
    hi: usize,
    byte_lo: u8,
    byte_hi: u8,
    width: usize,
) -> (r: Option<usize>)
    requires
        lo <= hi,
        anchor + hi + width <= haystack@.len(),
    ensures
        match r {
            Some(o) => o < width && rare_pair_at(
                haystack@,
                byte_lo,
                byte_hi,
                lo as int,
                hi as int,
                anchor + o,
            ) && forall|p: int|
                anchor <= p < anchor + o ==> !rare_pair_at(
                    haystack@,
                    byte_lo,
                    byte_hi,
                    lo as int,
                    hi as int,
                    p,
                ),
            None => forall|p: int|
                anchor <= p < anchor + width ==> !rare_pair_at(
                    haystack@,
                    byte_lo,
                    byte_hi,
                    lo as int,
                    hi as int,
                    p,
                ),
        },
{
    let hlen = haystack.len();
    let mut o: usize = 0;
    while o < width
        invariant
            lo <= hi,
            hlen == haystack@.len(),
            anchor + hi + width <= hlen,
            o <= width,
            forall|p: int|
                anchor <= p < anchor + o ==> !rare_pair_at(
                    haystack@,
                    byte_lo,
                    byte_hi,
                    lo as int,
                    hi as int,
                    p,
                ),
        decreases width - o,
    {
        if haystack[anchor + o + lo] == byte_lo && haystack[anchor + o + hi] == byte_hi {
            return Some(o);
        }
        o += 1;
    }
    None
}

/// A chunked candidate finder for forward substring search, generic in
/// the chunk width (16 bytes mirrors the 128-bit variant, 32 bytes the
/// 256-bit one). The position returned is the beginning of a candidate
/// occurrence; every position before it is proved to hold no match, and a
/// return of `None` means the needle occurs nowhere. Exactly one probe is
/// recorded in the prefilter state, crediting the bytes ruled out; below
/// the chunk gate the routine degrades to a single-byte scan on the
/// smaller rare offset, floored at the start of the haystack.
pub fn find(
    prestate: &mut PrefilterState,
    ninfo: &NeedleInfo,
    haystack: &[u8],
    needle: &[u8],
    width: usize,
) -> (r: Option<usize>)
    requires
        needle@.len() >= 1,
        ninfo.rare1i < needle@.len(),
        ninfo.rare2i < needle@.len(),
        1 <= width <= 65536,
    ensures
        match r {
            Some(q) => q < haystack@.len() && forall|k: int|
                0 <= k < q ==> !matches_at(haystack@, needle@, k),
            None => forall|k: int| !matches_at(haystack@, needle@, k),
        },
        *final (prestate) == old(prestate).recording(
            1,
            match r {
                Some(q) => q as int,
                None => haystack@.len() as int,
            },
        ),
        ({
            let lo = if ninfo.rare1i <= ninfo.rare2i {
                ninfo.rare1i as int
            } else {
                ninfo.rare2i as int
            };
            let hi = if ninfo.rare1i <= ninfo.rare2i {
                ninfo.rare2i as int
            } else {
                ninfo.rare1i as int
            };
            haystack@.len() < hi + width ==> r == (match naive_find_spec(
                haystack@,
                seq![needle@[lo]],
                0,
            ) {
                Some(f) => Some(
                    (if f < lo {
                        0int
                    } else {
                        f - lo
                    }) as usize,
                ),
                None => None::<usize>,
            })
        }),
        ({
            let lo = if ninfo.rare1i <= ninfo.rare2i {
                ninfo.rare1i as int
            } else {
                ninfo.rare2i as int
            };
            let hi = if ninfo.rare1i <= ninfo.rare2i {
                ninfo.rare2i as int
            } else {
                ninfo.rare1i as int
            };
            // In the chunked regime a candidate has both rare bytes
            // aligned; below it, the clause above pins the result.
            haystack@.len() >= hi + width && r is Some ==> {
                let q = r->Some_0;
                &&& q + hi < haystack@.len()
                &&& haystack@[q + lo] == needle@[lo]
                &&& haystack@[q + hi] == needle@[hi]
            }
        }),
{
    let ghost prestate0 = *prestate;
    let hlen = haystack.len();
    let (lo, hi) = ninfo.as_rare_ordered_usize();
    let byte_lo = needle[lo];
    let byte_hi = needle[hi];
    let ghost loi = lo as int;
    let ghost hii = hi as int;
    let min_haystack_len = hi + width;
    if hlen < min_haystack_len {
        // Too short for chunked scanning: scan for the earlier of the two
        // rare bytes alone.
        let rare1i = lo;
        let rare1 = byte_lo;
        proof {
            lemma_naive_find_correct(haystack@, seq![byte_lo], 0);
        }
        match memchr(rare1, haystack) {
            None => {
                prestate.update(hlen);
                proof {
                    assert forall|k: int| !matches_at(haystack@, needle@, k) by {
                        if matches_at(haystack@, needle@, k) {
                            assert(haystack@[k + rare1i] == needle@[rare1i as int]);
                        }
                    }
                    // The single-byte reference scan finds nothing either.
                    if naive_find_spec(haystack@, seq![byte_lo], 0) is Some {
                        let f = naive_find_spec(haystack@, seq![byte_lo], 0)->Some_0;
                        assert(haystack@[f] == seq![byte_lo][0]);
                    }
                }
                return None;
            },
            Some(p) => {
                let q = if p < rare1i {
                    0
                } else {
                    p - rare1i
                };
                prestate.update(q);
                proof {
                    assert forall|k: int| 0 <= k < q implies !matches_at(
                        haystack@,
                        needle@,
                        k,
                    ) by {
                        if matches_at(haystack@, needle@, k) {
                            assert(haystack@[k + rare1i] == needle@[rare1i as int]);
                        }
                    }
                    // The single-byte reference scan stops exactly at p.
                    assert(matches_at(haystack@, seq![byte_lo], p as int)) by {
                        assert(seq![byte_lo][0] == byte_lo);
                    }
                    match naive_find_spec(haystack@, seq![byte_lo], 0) {
                        Some(f) => {
                            assert(haystack@[f] == seq![byte_lo][0]);
                            assert(f == p);
                        },
                        None => {
                            assert(!matches_at(haystack@, seq![byte_lo], p as int));
                        },
                    }
                }
                return Some(q);
            },
        }
    }
    let max_anchor = hlen - min_haystack_len;
    let mut i: usize = 0;
    while i <= max_anchor
        invariant
            hlen == haystack@.len(),
            needle@.len() >= 1,
            lo <= hi,
            (lo == ninfo.rare1i && hi == ninfo.rare2i) || (lo == ninfo.rare2i && hi
                == ninfo.rare1i),
            lo < needle@.len(),
            hi < needle@.len(),
            byte_lo == needle@[loi],
            byte_hi == needle@[hii],
            loi == lo as int,
            hii == hi as int,
            1 <= width,
            max_anchor == hlen - hi - width,
            i <= max_anchor + width,
            *prestate == prestate0,
            prestate0 == *old(prestate),
            forall|k: int|
                0 <= k < i ==> !rare_pair_at(haystack@, byte_lo, byte_hi, loi, hii, k),
        decreases max_anchor + width - i,
    {
        match find_in_chunk(haystack, i, lo, hi, byte_lo, byte_hi, width) {
            Some(o) => {
                let q = i + o;
                prestate.update(q);
                proof {
                    assert forall|k: int| 0 <= k < q implies !matches_at(
                        haystack@,
                        needle@,
                        k,
                    ) by {
                        if matches_at(haystack@, needle@, k) {
                            assert(haystack@[k + loi] == needle@[loi]);
                            assert(haystack@[k + hii] == needle@[hii]);
                            assert(rare_pair_at(haystack@, byte_lo, byte_hi, loi, hii, k));
                        }
                    }
                }
                return Some(q);
            },
            None => {
                i += width;
            },
        }
    }
    // Trailing chunk: re-anchor one full chunk before the end. Nothing was
    // found so far, so re-examining earlier offsets is harmless.
    match find_in_chunk(haystack, max_anchor, lo, hi, byte_lo, byte_hi, width) {
        Some(o) => {
            let q = max_anchor + o;
            prestate.update(q);
            proof {
                assert forall|k: int| 0 <= k < q implies !matches_at(haystack@, needle@, k) by {
                    if matches_at(haystack@, needle@, k) {
                        assert(haystack@[k + loi] == needle@[loi]);
                        assert(haystack@[k + hii] == needle@[hii]);
                        assert(rare_pair_at(haystack@, byte_lo, byte_hi, loi, hii, k));
                    }
                }
            }
            Some(q)
        },
        None => {
            prestate.update(hlen);
            proof {
                assert forall|k: int| !matches_at(haystack@, needle@, k) by {
                    if matches_at(haystack@, needle@, k) {
                        if k < max_anchor + width {
                            assert(haystack@[k + loi] == needle@[loi]);
                            assert(haystack@[k + hii] == needle@[hii]);
                            assert(rare_pair_at(haystack@, byte_lo, byte_hi, loi, hii, k));
                        } else {
                            assert(k + hii >= hlen);
                            assert(k + needle@.len() > hlen);
                        }
                    }
                }
            }
            None
        },
    }
}

} // verus!
