//! A Two-Way (Crochemore-Perrin) matcher, in its long-period form.
//!
//! The needle is factored at a critical position `crit_pos`, computed by
//! maximal-suffix factorization over the two byte orderings. The scan
//! compares the right factor left-to-right and then the left factor
//! right-to-left; on a mismatch it shifts by more than one position, and
//! each such shift is proved sound from one combinatorial fact about the
//! factorization: no distance shorter than `period` is a local period of
//! the needle at `crit_pos`. Construction *certifies* that fact by a
//! verified check over the needle, so the searcher's exact contract
//! rests on nothing but the code here. With the certificate in hand the
//! scan examines each haystack byte a bounded number of times per
//! window, which is what makes the search worst-case linear.
//!
//! The certificate succeeds precisely for needles in the long-period
//! case of the Two-Way factorization. For highly periodic needles (the
//! short-period case, which a "memory"-tracking variant of the scan
//! would handle) certification fails and [`TwoWay::new`] returns
//! `None`; callers fall back to another searcher.

use vstd::prelude::*;

use crate::memmem::{is_first_match, is_last_match, matches_at};

verus! {

/// The mirror image of a byte sequence.
pub open spec fn rev_seq(s: Seq<u8>) -> Seq<u8> {
    Seq::new(s.len(), |i: int| s[s.len() - 1 - i])
}

/// An occurrence in the mirrored world is an occurrence in the original,
/// at the mirrored position.
pub proof fn lemma_matches_at_rev(h: Seq<u8>, n: Seq<u8>, p: int)
    requires
        0 <= p,
        p + n.len() <= h.len(),
    ensures
        matches_at(rev_seq(h), rev_seq(n), p) <==> matches_at(h, n, h.len() - n.len() - p),
{
    let hr = rev_seq(h);
    let nr = rev_seq(n);
    let q = h.len() - n.len() - p;
    if matches_at(hr, nr, p) {
        assert forall|j: int| 0 <= j < n.len() implies h[q + j] == n[j] by {
            let t = n.len() - 1 - j;
            assert(hr[p + t] == nr[t]);
            assert(hr[p + t] == h[h.len() - 1 - p - t]);
            assert(nr[t] == n[j]);
        }
    }
    if matches_at(h, n, q) {
        assert forall|t: int| 0 <= t < nr.len() implies hr[p + t] == nr[t] by {
            let j = n.len() - 1 - t;
            assert(h[q + j] == n[j]);
            assert(hr[p + t] == h[h.len() - 1 - p - t]);
        }
    }
}

/// `j` is a local period of `n` at position `c`: every pair of bytes at
/// distance `j` straddling `c`, with both ends inside the needle,
/// agrees.
pub open spec fn local_period_at(n: Seq<u8>, c: int, j: int) -> bool {
    forall|m: int| 0 <= m < c && c - j <= m && m + j < n.len() ==> n[m] == #[trigger] n[m + j]
}

/// The per-needle state of the Two-Way matcher: the critical position
/// and the shift applied after a full right-factor match.
#[derive(Clone, Copy, Debug)]
pub struct TwoWay {
    /// The critical position: the needle is compared right of it first.
    pub crit_pos: usize,
    /// The shift after a full right-factor match with a left-factor
    /// mismatch: one more than the longer of the two factors.
    pub period: usize,
}

impl TwoWay {
    /// What the scan proofs need of the factorization: the critical
    /// position splits a needle of at least 2 bytes properly, the period
    /// is one more than the longer factor, and — the certified fact —
    /// no distance shorter than the period is a local period of the
    /// needle at the critical position.
    pub open spec fn wf(self, n: Seq<u8>) -> bool {
        &&& 2 <= n.len()
        &&& 1 <= self.crit_pos < n.len()
        &&& self.period == (if self.crit_pos >= n.len() - self.crit_pos {
            self.crit_pos as int
        } else {
            n.len() - self.crit_pos
        }) + 1
        &&& forall|j: int| 1 <= j < self.period ==> !local_period_at(n, self.crit_pos as int, j)
    }

    /// Build a Two-Way matcher for the needle: compute the critical
    /// position by maximal-suffix factorization under the two byte
    /// orderings, then certify the local-period property that the scan
    /// relies on. Returns `None` when the needle is too short or when
    /// certification fails — the short-period case of the factorization,
    /// reached only by highly periodic needles. Which position is tried
    /// is a heuristic choice; [`TwoWay::with_crit_pos`] pins exactly when
    /// a given position certifies.
    pub fn new(needle: &[u8]) -> (r: Option<TwoWay>)
        ensures
            match r {
                Some(tw) => tw.wf(needle@),
                None => true,
            },
    {
        let nlen = needle.len();
        if nlen < 2 {
            return None;
        }
        let c1 = maximal_suffix(needle, false);
        let c2 = maximal_suffix(needle, true);
        let crit = if c1 >= c2 {
            c1
        } else {
            c2
        };
        TwoWay::with_crit_pos(needle, crit)
    }

    /// Build a Two-Way matcher with the given critical position: succeeds
    /// if and only if the position splits the needle properly and no
    /// distance shorter than the induced period is a local period there.
    pub fn with_crit_pos(needle: &[u8], crit: usize) -> (r: Option<TwoWay>)
        ensures
            r is Some <==> (2 <= needle@.len() && 1 <= crit < needle@.len() && forall|j: int|
                1 <= j < (if crit >= needle@.len() - crit {
                    crit as int
                } else {
                    needle@.len() - crit
                }) + 1 ==> !local_period_at(needle@, crit as int, j)),
            match r {
                Some(tw) => tw.wf(needle@) && tw.crit_pos == crit,
                None => true,
            },
    {
        let nlen = needle.len();
        if nlen < 2 {
            return None;
        }
        if crit == 0 || crit >= nlen {
            return None;
        }
        let longer = if crit >= nlen - crit {
            crit
        } else {
            nlen - crit
        };
        let period = longer + 1;
        let mut j: usize = 1;
        while j < period
            invariant
                2 <= nlen == needle@.len(),
                1 <= crit < nlen,
                period == longer + 1,
                longer == (if crit >= nlen - crit {
                    crit as int
                } else {
                    nlen - crit
                }),
                1 <= j <= period,
                forall|jj: int| 1 <= jj < j ==> !local_period_at(needle@, crit as int, jj),
            decreases period - j,
        {
            if has_local_period(needle, crit, j) {
                proof {
                    assert(local_period_at(needle@, crit as int, j as int));
                }
                return None;
            }
            j += 1;
        }
        Some(TwoWay { crit_pos: crit, period })
    }

    /// Search the given haystack for the needle this matcher was built
    /// for: the result is exactly the leftmost occurrence, or a proof
    /// that there is none.
    pub fn find(&self, haystack: &[u8], needle: &[u8]) -> (r: Option<usize>)
        requires
            self.wf(needle@),
        ensures
            match r {
                Some(i) => is_first_match(haystack@, needle@, i as int),
                None => forall|k: int| !matches_at(haystack@, needle@, k),
            },
    {
        let hlen = haystack.len();
        let nlen = needle.len();
        if hlen < nlen {
            return None;
        }
        let crit = self.crit_pos;
        let period = self.period;
        proof {
            assert(period <= nlen);
        }
        let mut pos: usize = 0;
        loop
            invariant
                self.wf(needle@),
                crit == self.crit_pos,
                period == self.period,
                hlen == haystack@.len(),
                nlen == needle@.len(),
                2 <= nlen <= hlen,
                1 <= crit < nlen,
                period <= nlen,
                pos <= hlen,
                forall|k: int| 0 <= k < pos ==> !matches_at(haystack@, needle@, k),
            decreases hlen - pos,
        {
            if pos > hlen - nlen {
                proof {
                    assert forall|k: int| !matches_at(haystack@, needle@, k) by {
                        if matches_at(haystack@, needle@, k) {
                            assert(k + nlen <= hlen);
                        }
                    }
                }
                return None;
            }
            // Compare the right factor, left to right.
            let k = right_scan(haystack, needle, pos, crit);
            if k < nlen {
                // Mismatch at offset k: nothing can start before the
                // critical position realigns past it.
                proof {
                    self.lemma_right_shift_sound(haystack@, needle@, pos as int, k as int);
                }
                pos = pos + (k - crit) + 1;
            } else {
                // Right factor matched; compare the left factor, right
                // to left.
                let l = left_scan(haystack, needle, pos, crit);
                if l > 0 {
                    // Left-factor mismatch: shift by the period.
                    proof {
                        self.lemma_period_shift_sound(haystack@, needle@, pos as int, l as int);
                    }
                    pos = pos + period;
                } else {
                    proof {
                        assert(matches_at(haystack@, needle@, pos as int));
                    }
                    return Some(pos);
                }
            }
        }
    }

    /// Search the given haystack, in reverse, for the needle whose
    /// *mirror image* this matcher was built for: the result is exactly
    /// the rightmost occurrence of `rev_seq(rneedle@)`, or a proof that
    /// there is none. The scan is the forward scan run on the mirrored
    /// haystack, so every shift is justified by the same two lemmas.
    pub fn rfind(&self, haystack: &[u8], rneedle: &[u8]) -> (r: Option<usize>)
        requires
            self.wf(rneedle@),
        ensures
            match r {
                Some(i) => is_last_match(haystack@, rev_seq(rneedle@), i as int),
                None => forall|k: int| !matches_at(haystack@, rev_seq(rneedle@), k),
            },
    {
        let ghost hr = rev_seq(haystack@);
        let ghost orig = rev_seq(rneedle@);
        let hlen = haystack.len();
        let nlen = rneedle.len();
        proof {
            assert(hr.len() == hlen);
            assert(orig.len() == nlen);
        }
        if hlen < nlen {
            proof {
                assert forall|k: int| !matches_at(haystack@, orig, k) by {
                    if matches_at(haystack@, orig, k) {
                        assert(k + nlen <= hlen);
                    }
                }
            }
            return None;
        }
        let crit = self.crit_pos;
        let period = self.period;
        proof {
            assert(period <= nlen);
        }
        let mut pos: usize = 0;
        loop
            invariant
                self.wf(rneedle@),
                crit == self.crit_pos,
                period == self.period,
                hr == rev_seq(haystack@),
                orig == rev_seq(rneedle@),
                hlen == haystack@.len(),
                nlen == rneedle@.len(),
                2 <= nlen <= hlen,
                1 <= crit < nlen,
                period <= nlen,
                pos <= hlen,
                forall|k: int| 0 <= k < pos ==> !matches_at(hr, rneedle@, k),
            decreases hlen - pos,
        {
            if pos > hlen - nlen {
                proof {
                    assert forall|k: int| !matches_at(haystack@, orig, k) by {
                        if matches_at(haystack@, orig, k) {
                            assert(0 <= k && k + nlen <= hlen);
                            lemma_matches_at_rev(haystack@, orig, hlen - nlen - k);
                            assert(rev_seq(orig) =~= rneedle@);
                            assert(matches_at(hr, rneedle@, hlen - nlen - k));
                        }
                    }
                }
                return None;
            }
            // Compare the right factor of the mirrored needle, which is
            // the front of the original, right to left in the haystack.
            let k = right_scan_rev(haystack, rneedle, pos, crit);
            if k < nlen {
                proof {
                    self.lemma_right_shift_sound(hr, rneedle@, pos as int, k as int);
                }
                pos = pos + (k - crit) + 1;
            } else {
                let l = left_scan_rev(haystack, rneedle, pos, crit);
                if l > 0 {
                    proof {
                        self.lemma_period_shift_sound(hr, rneedle@, pos as int, l as int);
                    }
                    pos = pos + period;
                } else {
                    let found = hlen - nlen - pos;
                    proof {
                        assert(matches_at(hr, rneedle@, pos as int));
                        lemma_matches_at_rev(haystack@, orig, pos as int);
                        assert(rev_seq(orig) =~= rneedle@);
                        assert(matches_at(haystack@, orig, found as int));
                        assert forall|k: int| found < k implies !matches_at(
                            haystack@,
                            orig,
                            k,
                        ) by {
                            if matches_at(haystack@, orig, k) {
                                assert(k + nlen <= hlen);
                                lemma_matches_at_rev(haystack@, orig, hlen - nlen - k);
                                assert(matches_at(hr, rneedle@, hlen - nlen - k));
                            }
                        }
                    }
                    return Some(found);
                }
            }
        }
    }

    /// Soundness of the right-mismatch shift: with the right factor
    /// matched up to `k` and mismatched at `k`, no occurrence starts in
    /// `[pos, pos + (k - crit_pos) + 1)`. A nearer occurrence would make
    /// its distance a local period at the critical position, which the
    /// certificate rules out.
    proof fn lemma_right_shift_sound(self, h: Seq<u8>, n: Seq<u8>, pos: int, k: int)
        requires
            self.wf(n),
            0 <= pos,
            pos + n.len() <= h.len(),
            self.crit_pos <= k < n.len(),
            forall|t: int| self.crit_pos <= t < k ==> h[pos + t] == n[t],
            h[pos + k] != n[k],
        ensures
            forall|k2: int|
                pos <= k2 < pos + (k - self.crit_pos) + 1 ==> !matches_at(h, n, k2),
    {
        let c = self.crit_pos as int;
        assert forall|k2: int|
            pos <= k2 < pos + (k - c) + 1 implies !matches_at(h, n, k2) by {
            if matches_at(h, n, k2) {
                let j = k2 - pos;
                if j == 0 {
                    assert(h[pos + k] == n[k]);
                } else {
                    // The distance j would be a local period at c.
                    assert(local_period_at(n, c, j)) by {
                        assert forall|m: int|
                            0 <= m < c && c - j <= m && m + j < n.len() implies n[m]
                            == #[trigger] n[m + j] by {
                            assert(h[(pos + j) + m] == n[m]);
                            assert(c <= j + m < k);
                            assert(h[pos + (j + m)] == n[j + m]);
                        }
                    }
                    assert(j < self.period);
                    assert(!local_period_at(n, c, j));
                }
            }
        }
    }

    /// Soundness of the period shift: with the whole right factor
    /// matched and the left factor mismatched, no occurrence starts in
    /// `[pos, pos + period)`. Again, a nearer occurrence would make its
    /// distance a local period at the critical position.
    proof fn lemma_period_shift_sound(self, h: Seq<u8>, n: Seq<u8>, pos: int, l: int)
        requires
            self.wf(n),
            0 <= pos,
            pos + n.len() <= h.len(),
            0 < l <= self.crit_pos,
            forall|t: int| self.crit_pos <= t < n.len() ==> h[pos + t] == n[t],
            forall|t: int| l <= t < self.crit_pos ==> h[pos + t] == n[t],
            h[pos + (l - 1)] != n[l - 1],
        ensures
            forall|k2: int| pos <= k2 < pos + self.period ==> !matches_at(h, n, k2),
    {
        let c = self.crit_pos as int;
        assert forall|k2: int| pos <= k2 < pos + self.period implies !matches_at(h, n, k2) by {
            if matches_at(h, n, k2) {
                let j = k2 - pos;
                if j == 0 {
                    assert(h[pos + (l - 1)] == n[l - 1]);
                } else {
                    assert(local_period_at(n, c, j)) by {
                        assert forall|m: int|
                            0 <= m < c && c - j <= m && m + j < n.len() implies n[m]
                            == #[trigger] n[m + j] by {
                            assert(h[(pos + j) + m] == n[m]);
                            assert(c <= j + m < n.len());
                            assert(h[pos + (j + m)] == n[j + m]);
                        }
                    }
                    assert(j < self.period);
                    assert(!local_period_at(n, c, j));
                }
            }
        }
    }
}

/// Compare the needle's right factor against the haystack window at
/// `pos`, left to right from `from`: returns the first mismatching
/// offset, or the needle length when the whole right factor matches.
fn right_scan(haystack: &[u8], needle: &[u8], pos: usize, from: usize) -> (k: usize)
    requires
        pos + needle@.len() <= haystack@.len(),
        from <= needle@.len(),
    ensures
        from <= k <= needle@.len(),
        forall|t: int| from <= t < k ==> haystack@[pos + t] == needle@[t],
        k < needle@.len() ==> haystack@[pos + k] != needle@[k as int],
{
    let hlen = haystack.len();
    let nlen = needle.len();
    let mut k: usize = from;
    while k < nlen
        invariant
            hlen == haystack@.len(),
            nlen == needle@.len(),
            pos + nlen <= hlen,
            from <= k <= nlen,
            forall|t: int| from <= t < k ==> haystack@[pos + t] == needle@[t],
        decreases nlen - k,
    {
        if haystack[pos + k] != needle[k] {
            return k;
        }
        k += 1;
    }
    k
}

/// Compare the needle's left factor against the haystack window at
/// `pos`, right to left from `upto`: returns the lowest offset `l` such
/// that everything in `[l, upto)` matches, with a mismatch at `l - 1`
/// unless `l` is 0.
fn left_scan(haystack: &[u8], needle: &[u8], pos: usize, upto: usize) -> (l: usize)
    requires
        pos + needle@.len() <= haystack@.len(),
        upto <= needle@.len(),
    ensures
        l <= upto,
        forall|t: int| l <= t < upto ==> haystack@[pos + t] == needle@[t],
        l > 0 ==> haystack@[pos + (l - 1)] != needle@[l - 1],
{
    let hlen = haystack.len();
    let nlen = needle.len();
    let mut l: usize = upto;
    while l > 0
        invariant
            hlen == haystack@.len(),
            nlen == needle@.len(),
            pos + nlen <= hlen,
            upto <= nlen,
            l <= upto,
            forall|t: int| l <= t < upto ==> haystack@[pos + t] == needle@[t],
        decreases l,
    {
        if haystack[pos + l - 1] != needle[l - 1] {
            return l;
        }
        l -= 1;
    }
    0
}

/// The mirror image of a byte string, as an owned vector.
pub fn reverse_bytes(b: &[u8]) -> (r: Vec<u8>)
    ensures
        r@ == rev_seq(b@),
{
    let blen = b.len();
    let mut r: Vec<u8> = Vec::new();
    let mut i: usize = 0;
    while i < blen
        invariant
            blen == b@.len(),
            i <= blen,
            r@.len() == i,
            forall|t: int| 0 <= t < i ==> r@[t] == b@[blen - 1 - t],
        decreases blen - i,
    {
        r.push(b[blen - 1 - i]);
        i += 1;
    }
    proof {
        assert(r@ =~= rev_seq(b@));
    }
    r
}

/// The mirrored counterpart of `right_scan`: compare the mirrored
/// needle's right factor against the mirrored haystack window at `pos`,
/// which reads the actual haystack right to left.
fn right_scan_rev(haystack: &[u8], rneedle: &[u8], pos: usize, from: usize) -> (k: usize)
    requires
        1 <= rneedle@.len(),
        pos + rneedle@.len() <= haystack@.len(),
        from <= rneedle@.len(),
    ensures
        from <= k <= rneedle@.len(),
        forall|t: int| from <= t < k ==> rev_seq(haystack@)[pos + t] == rneedle@[t],
        k < rneedle@.len() ==> rev_seq(haystack@)[pos + k] != rneedle@[k as int],
{
    let hlen = haystack.len();
    let nlen = rneedle.len();
    let mut k: usize = from;
    while k < nlen
        invariant
            hlen == haystack@.len(),
            nlen == rneedle@.len(),
            1 <= nlen,
            pos + nlen <= hlen,
            from <= k <= nlen,
            forall|t: int| from <= t < k ==> rev_seq(haystack@)[pos + t] == rneedle@[t],
        decreases nlen - k,
    {
        proof {
            assert(rev_seq(haystack@)[pos + k] == haystack@[hlen - 1 - pos - k]);
        }
        if haystack[hlen - 1 - (pos + k)] != rneedle[k] {
            return k;
        }
        k += 1;
    }
    k
}

/// The mirrored counterpart of `left_scan`.
fn left_scan_rev(haystack: &[u8], rneedle: &[u8], pos: usize, upto: usize) -> (l: usize)
    requires
        1 <= rneedle@.len(),
        pos + rneedle@.len() <= haystack@.len(),
        upto <= rneedle@.len(),
    ensures
        l <= upto,
        forall|t: int| l <= t < upto ==> rev_seq(haystack@)[pos + t] == rneedle@[t],
        l > 0 ==> rev_seq(haystack@)[pos + (l - 1)] != rneedle@[l - 1],
{
    let hlen = haystack.len();
    let nlen = rneedle.len();
    let mut l: usize = upto;
    while l > 0
        invariant
            hlen == haystack@.len(),
            nlen == rneedle@.len(),
            1 <= nlen,
            pos + nlen <= hlen,
            upto <= nlen,
            l <= upto,
            forall|t: int| l <= t < upto ==> rev_seq(haystack@)[pos + t] == rneedle@[t],
        decreases l,
    {
        proof {
            assert(rev_seq(haystack@)[pos + (l - 1)] == haystack@[hlen - 1 - pos - (l - 1)]);
        }
        if haystack[hlen - 1 - (pos + l - 1)] != rneedle[l - 1] {
            return l;
        }
        l -= 1;
    }
    0
}

/// Decide whether `j` is a local period of the needle at position `c`,
/// by checking every pair of bytes at distance `j` straddling `c`.
fn has_local_period(needle: &[u8], c: usize, j: usize) -> (r: bool)
    requires
        1 <= c < needle@.len(),
        1 <= j,
    ensures
        r <==> local_period_at(needle@, c as int, j as int),
{
    let nlen = needle.len();
    let lo = if c > j {
        c - j
    } else {
        0
    };
    let mut m: usize = lo;
    while m < c
        invariant
            nlen == needle@.len(),
            1 <= c < nlen,
            1 <= j,
            lo == (if c > j {
                c - j
            } else {
                0
            }),
            lo <= m <= c,
            forall|m2: int|
                lo <= m2 < m && m2 + j < nlen ==> needle@[m2] == #[trigger] needle@[m2 + j],
        decreases c - m,
    {
        if j < nlen - m {
            if needle[m] != needle[m + j] {
                return false;
            }
        } else {
            // Every later pair would reach past the end of the needle.
            proof {
                assert forall|m2: int|
                    0 <= m2 < c && c - j <= m2 && m2 + j < nlen implies needle@[m2]
                    == #[trigger] needle@[m2 + j] by {
                    assert(m2 >= lo);
                    if m2 >= m {
                        assert(m2 + j >= m + j);
                    }
                }
            }
            return true;
        }
        m += 1;
    }
    proof {
        assert forall|m2: int|
            0 <= m2 < c && c - j <= m2 && m2 + j < nlen implies needle@[m2]
            == #[trigger] needle@[m2 + j] by {
            assert(m2 >= lo);
        }
    }
    true
}

/// The starting index of the maximal suffix of the needle under the
/// byte order (or its reverse, with `order_greater`). Only the bound on
/// the returned index matters to the callers: the factorization it
/// induces is certified separately.
fn maximal_suffix(needle: &[u8], order_greater: bool) -> (r: usize)
    requires
        needle@.len() >= 1,
    ensures
        r < needle@.len(),
{
    let nlen = needle.len();
    let mut left: usize = 0;
    let mut right: usize = 1;
    let mut offset: usize = 0;
    let mut period: usize = 1;
    while right + offset < nlen
        invariant
            nlen == needle@.len(),
            1 <= period,
            left < right,
            offset < period,
            right + offset <= nlen,
        decreases nlen - right, period - offset,
    {
        let a = needle[right + offset];
        let b = needle[left + offset];
        if (a < b && !order_greater) || (a > b && order_greater) {
            // The suffix at `right` is smaller: skip past the scanned
            // stretch.
            right = right + offset + 1;
            offset = 0;
            period = right - left;
        } else if a == b {
            // Keep scanning the shared stretch, wrapping at the period.
            if offset + 1 == period {
                right = right + offset + 1;
                offset = 0;
            } else {
                offset += 1;
            }
        } else {
            // The suffix at `right` is larger: it dethrones the current
            // candidate.
            left = right;
            right = right + 1;
            offset = 0;
            period = 1;
        }
    }
    left
}

} // verus!
