//! Scalar rare-byte prefilters.
//!
//! The forward routine scans for the rarest needle byte, checks that the
//! second rare byte lines up, and reports the would-be start of the
//! needle as a candidate. The reverse routine does the same from the end
//! of the haystack. Neither routine ever skips over a real occurrence:
//! their contracts prove that every position before (respectively after)
//! the returned candidate holds no match. Both account for their probes:
//! the state handed back records one skip per scan with the bytes it
//! advanced, or has been zeroed by the effectiveness check.

use vstd::prelude::*;
use vstd::slice::slice_subrange;

use crate::memchr::{memchr, memrchr};
use crate::memmem::matches_at;
use crate::memmem::prefilter::{lemma_recording_step, lemma_recording_zero, NeedleInfo, PrefilterState};

verus! {

/// Look for a possible occurrence of the needle. The position returned
/// corresponds to the beginning of the candidate occurrence: every
/// position strictly before it is proved to hold no match, and as long
/// as the state has not gone inert, the candidate has both rare bytes
/// aligned. The candidate itself may still be a false positive and must
/// be confirmed by the caller. A return of `None` means the needle
/// occurs nowhere in the haystack. On a state that is no longer
/// effective, the scan has not started and position 0 is handed back.
pub fn find(
    prestate: &mut PrefilterState,
    ninfo: &NeedleInfo,
    haystack: &[u8],
    needle: &[u8],
) -> (r: Option<usize>)
    requires
        needle@.len() >= 1,
        ninfo.rare1i < needle@.len(),
        ninfo.rare2i < needle@.len(),
    ensures
        match r {
            Some(q) => q <= haystack@.len() && (forall|k: int|
                0 <= k < q ==> !matches_at(haystack@, needle@, k)) && (final (prestate).skips
                != 0 ==> q + ninfo.rare1i < haystack@.len() && q + ninfo.rare2i
                < haystack@.len() && haystack@[q + ninfo.rare1i] == needle@[ninfo.rare1i as int]
                && haystack@[q + ninfo.rare2i] == needle@[ninfo.rare2i as int]),
            None => forall|k: int| !matches_at(haystack@, needle@, k),
        },
        !old(prestate).effective_spec() ==> r == Some(0usize),
        exists|probes: int, advanced: int|
            #![trigger old(prestate).recording(probes, advanced)]
            {
                &&& 0 <= probes
                &&& 0 <= advanced <= haystack@.len()
                &&& (old(prestate).effective_spec() ==> probes >= 1)
                &&& (*final (prestate) == old(prestate).recording(probes, advanced) || (final (
                prestate).skips == 0 && final (prestate).skipped == old(prestate).recording(
                    probes,
                    advanced,
                ).skipped))
            },
{
    let ghost prestate0 = *prestate;
    let hlen = haystack.len();
    let (rare1i, rare2i) = ninfo.as_rare_usize();
    let (rare1, rare2) = ninfo.fwd_rare(needle);
    let mut i: usize = 0;
    let ghost mut probes: int = 0;
    let ghost mut advanced: int = 0;
    loop
        invariant
            hlen == haystack@.len(),
            needle@.len() >= 1,
            rare1i == ninfo.rare1i,
            rare2i == ninfo.rare2i,
            rare1i < needle@.len(),
            rare2i < needle@.len(),
            rare1 == needle@[rare1i as int],
            rare2 == needle@[rare2i as int],
            i <= hlen,
            prestate0 == *old(prestate),
            0 <= probes,
            0 <= advanced <= i,
            *prestate == prestate0.recording(probes, advanced),
            !prestate0.effective_spec() ==> i == 0 && probes == 0 && advanced == 0,
            forall|k: int| 0 <= k && k + rare1i < i ==> !matches_at(haystack@, needle@, k),
        decreases hlen + 1 - i,
    {
        proof {
            lemma_recording_zero(prestate0);
        }
        if !prestate.is_effective() {
            // The skipping heuristic has stopped paying for itself. We are
            // allowed to return a false positive, so report the scan
            // position aligned to the start of the needle.
            let q = if i < rare1i {
                0
            } else {
                i - rare1i
            };
            proof {
                // The state now on hand is the recorded one, possibly with
                // its attempt counter zeroed by the check; and a state
                // that was effective on entry was probed at least once,
                // since an unprobed state would still answer yes.
                assert(prestate0.effective_spec() ==> probes >= 1);
                assert(0 <= probes && 0 <= advanced <= haystack@.len() && (
                prestate0.effective_spec() ==> probes >= 1) && (*prestate == prestate0.recording(
                    probes,
                    advanced,
                ) || (prestate.skips == 0 && prestate.skipped == prestate0.recording(
                    probes,
                    advanced,
                ).skipped)));
            }
            return Some(q);
        }
        let rest = slice_subrange(haystack, i, hlen);
        match memchr(rare1, rest) {
            None => {
                prestate.update(hlen - i);
                proof {
                    lemma_recording_step(prestate0, probes, advanced, hlen - i);
                    probes = probes + 1;
                    advanced = advanced + (hlen - i);
                    assert(0 <= probes && 0 <= advanced <= haystack@.len() && (
                    prestate0.effective_spec() ==> probes >= 1) && *prestate
                        == prestate0.recording(probes, advanced));
                    assert forall|k: int| !matches_at(haystack@, needle@, k) by {
                        if matches_at(haystack@, needle@, k) {
                            let rp = k + rare1i;
                            assert(haystack@[rp] == needle@[rare1i as int]);
                            if rp >= i {
                                assert(rest@[rp - i] == haystack@[rp]);
                            }
                        }
                    }
                }
                return None;
            },
            Some(f) => {
                prestate.update(f);
                let p = i + f;
                proof {
                    lemma_recording_step(prestate0, probes, advanced, f as int);
                    probes = probes + 1;
                    advanced = advanced + f;
                    assert(haystack@[p as int] == rest@[f as int]);
                    assert forall|m: int| i <= m < p implies haystack@[m] != rare1 by {
                        assert(rest@[m - i] == haystack@[m]);
                    }
                }
                if p < rare1i {
                    // The rare byte sits too close to the start for a
                    // needle to fit before it.
                    proof {
                        assert forall|k: int| 0 <= k && k + rare1i < p + 1 implies !matches_at(
                            haystack@,
                            needle@,
                            k,
                        ) by {
                            if k + rare1i >= i && matches_at(haystack@, needle@, k) {
                                assert(haystack@[k + rare1i] == needle@[rare1i as int]);
                            }
                        }
                    }
                    i = p + 1;
                } else {
                    let q = p - rare1i;
                    proof {
                        assert forall|k: int| 0 <= k < q implies !matches_at(
                            haystack@,
                            needle@,
                            k,
                        ) by {
                            if k + rare1i >= i && matches_at(haystack@, needle@, k) {
                                assert(haystack@[k + rare1i] == needle@[rare1i as int]);
                            }
                        }
                    }
                    if rare2i < hlen - q {
                        let al = q + rare2i;
                        if haystack[al] == rare2 {
                            // Both rare bytes line up: a candidate.
                            proof {
                                assert(0 <= probes && 0 <= advanced <= haystack@.len() && (
                                prestate0.effective_spec() ==> probes >= 1) && *prestate
                                    == prestate0.recording(probes, advanced));
                            }
                            return Some(q);
                        }
                        // The guard byte rules this candidate out.
                        proof {
                            if matches_at(haystack@, needle@, q as int) {
                                assert(haystack@[q + rare2i] == needle@[rare2i as int]);
                            }
                        }
                        i = p + 1;
                    } else {
                        // The needle cannot fit: its rare2 byte would lie
                        // past the end of the haystack.
                        proof {
                            if matches_at(haystack@, needle@, q as int) {
                                assert(q + needle@.len() <= hlen);
                            }
                        }
                        i = p + 1;
                    }
                }
            },
        }
    }
}

/// Look for a possible occurrence of the needle, in reverse, starting
/// from the end of the haystack. The position returned corresponds to
/// the position immediately after the end of the candidate occurrence:
/// every occurrence ending strictly after it is proved impossible, and
/// as long as the state has not gone inert, the candidate has both rare
/// bytes aligned. A return of `None` means the needle occurs nowhere in
/// the haystack. On a state that is no longer effective, the scan has
/// not started and the haystack length is handed back.
pub fn rfind(
    prestate: &mut PrefilterState,
    ninfo: &NeedleInfo,
    haystack: &[u8],
    needle: &[u8],
) -> (r: Option<usize>)
    requires
        needle@.len() >= 1,
        ninfo.rare1i < needle@.len(),
        ninfo.rare2i < needle@.len(),
    ensures
        match r {
            Some(q) => q <= haystack@.len() && (forall|k: int|
                k + needle@.len() > q ==> !matches_at(haystack@, needle@, k)) && (final (
            prestate).skips != 0 ==> q >= ninfo.rare1i + 1 && q >= ninfo.rare2i + 1
                && haystack@[q - 1 - ninfo.rare1i] == needle@[needle@.len() - 1 - ninfo.rare1i]
                && haystack@[q - 1 - ninfo.rare2i] == needle@[needle@.len() - 1
                - ninfo.rare2i]),
            None => forall|k: int| !matches_at(haystack@, needle@, k),
        },
        !old(prestate).effective_spec() ==> r is Some && r->Some_0 == haystack@.len(),
        exists|probes: int, advanced: int|
            #![trigger old(prestate).recording(probes, advanced)]
            {
                &&& 0 <= probes
                &&& 0 <= advanced <= haystack@.len()
                &&& (old(prestate).effective_spec() ==> probes >= 1)
                &&& (*final (prestate) == old(prestate).recording(probes, advanced) || (final (
                prestate).skips == 0 && final (prestate).skipped == old(prestate).recording(
                    probes,
                    advanced,
                ).skipped))
            },
{
    let ghost prestate0 = *prestate;
    let hlen = haystack.len();
    let nlen = needle.len();
    let (rare1i, rare2i) = ninfo.as_rare_usize();
    let (rare1, rare2) = ninfo.rev_rare(needle);
    let mut i: usize = hlen;
    let ghost mut probes: int = 0;
    let ghost mut advanced: int = 0;
    loop
        invariant
            hlen == haystack@.len(),
            nlen == needle@.len(),
            nlen >= 1,
            rare1i == ninfo.rare1i,
            rare2i == ninfo.rare2i,
            rare1i < nlen,
            rare2i < nlen,
            rare1 == needle@[nlen - rare1i - 1],
            rare2 == needle@[nlen - rare2i - 1],
            i <= hlen,
            prestate0 == *old(prestate),
            0 <= probes,
            0 <= advanced <= hlen - i,
            *prestate == prestate0.recording(probes, advanced),
            !prestate0.effective_spec() ==> i == hlen && probes == 0 && advanced == 0,
            forall|k: int| k + nlen - 1 - rare1i >= i ==> !matches_at(haystack@, needle@, k),
        decreases i + 1,
    {
        proof {
            lemma_recording_zero(prestate0);
        }
        if !prestate.is_effective() {
            // The skipping heuristic has stopped paying; report the scan
            // position as the end of a (possibly false) candidate.
            let q = if rare1i >= hlen - i {
                hlen
            } else {
                i + rare1i + 1
            };
            proof {
                assert(prestate0.effective_spec() ==> probes >= 1);
                assert(0 <= probes && 0 <= advanced <= haystack@.len() && (
                prestate0.effective_spec() ==> probes >= 1) && (*prestate == prestate0.recording(
                    probes,
                    advanced,
                ) || (prestate.skips == 0 && prestate.skipped == prestate0.recording(
                    probes,
                    advanced,
                ).skipped)));
            }
            return Some(q);
        }
        let pre = slice_subrange(haystack, 0, i);
        match memrchr(rare1, pre) {
            None => {
                prestate.update(i);
                proof {
                    lemma_recording_step(prestate0, probes, advanced, i as int);
                    probes = probes + 1;
                    advanced = advanced + i;
                    assert(0 <= probes && 0 <= advanced <= haystack@.len() && (
                    prestate0.effective_spec() ==> probes >= 1) && *prestate
                        == prestate0.recording(probes, advanced));
                    assert forall|k: int| !matches_at(haystack@, needle@, k) by {
                        if matches_at(haystack@, needle@, k) {
                            let rp = k + nlen - 1 - rare1i;
                            assert(haystack@[rp] == needle@[nlen - 1 - rare1i]);
                            if rp < i {
                                assert(pre@[rp] == haystack@[rp]);
                            }
                        }
                    }
                }
                return None;
            },
            Some(f) => {
                prestate.update(i - f);
                proof {
                    lemma_recording_step(prestate0, probes, advanced, i - f);
                    probes = probes + 1;
                    advanced = advanced + (i - f);
                    assert(haystack@[f as int] == pre@[f as int]);
                    assert forall|m: int| f < m < i implies haystack@[m] != rare1 by {
                        assert(pre@[m] == haystack@[m]);
                    }
                    // Any occurrence whose rare1 byte lies strictly
                    // between f and the old bound is ruled out.
                    assert forall|k: int| k + nlen - 1 - rare1i > f implies !matches_at(
                        haystack@,
                        needle@,
                        k,
                    ) by {
                        if matches_at(haystack@, needle@, k) {
                            let rp = k + nlen - 1 - rare1i;
                            assert(haystack@[rp] == needle@[nlen - 1 - rare1i]);
                        }
                    }
                }
                if rare1i >= hlen - f {
                    // A needle whose rare1 byte sits at f would run past
                    // the end of the haystack.
                    proof {
                        assert forall|k: int| k + nlen - 1 - rare1i >= f implies !matches_at(
                            haystack@,
                            needle@,
                            k,
                        ) by {
                            if k + nlen - 1 - rare1i == f && matches_at(haystack@, needle@, k) {
                                assert(k + nlen <= hlen);
                            }
                        }
                    }
                    i = f;
                } else {
                    if f + rare1i < rare2i {
                        // The rare2 position would be negative: no room.
                        proof {
                            assert forall|k: int| k + nlen - 1 - rare1i >= f implies !matches_at(
                                haystack@,
                                needle@,
                                k,
                            ) by {
                                if k + nlen - 1 - rare1i == f && matches_at(
                                    haystack@,
                                    needle@,
                                    k,
                                ) {
                                    assert(k + nlen - 1 - rare2i >= 0);
                                }
                            }
                        }
                        i = f;
                    } else {
                        let al = f + rare1i - rare2i;
                        if haystack[al] == rare2 {
                            // Both rare bytes line up: report the end of
                            // the candidate.
                            proof {
                                assert(0 <= probes && 0 <= advanced <= haystack@.len() && (
                                prestate0.effective_spec() ==> probes >= 1) && *prestate
                                    == prestate0.recording(probes, advanced));
                            }
                            return Some(f + rare1i + 1);
                        }
                        // The guard byte rules this candidate out.
                        proof {
                            assert forall|k: int| k + nlen - 1 - rare1i >= f implies !matches_at(
                                haystack@,
                                needle@,
                                k,
                            ) by {
                                if k + nlen - 1 - rare1i == f && matches_at(
                                    haystack@,
                                    needle@,
                                    k,
                                ) {
                                    assert(haystack@[k + nlen - 1 - rare2i] == needle@[nlen - 1
                                        - rare2i]);
                                }
                            }
                        }
                        i = f;
                    }
                }
            },
        }
    }
}

} // verus!
