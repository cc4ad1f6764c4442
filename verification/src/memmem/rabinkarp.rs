//! Rabin-Karp substring search.
//!
//! A 32-bit rolling hash is kept over a needle-sized window of the
//! haystack. Hash equality is a necessary condition for a match, so a
//! window whose hash differs from the needle hash can be skipped without
//! comparing bytes; windows with equal hashes are confirmed by an exact
//! byte comparison. Correctness therefore never depends on the quality of
//! the hash, only on it being a function of the window's bytes.

use vstd::prelude::*;
use vstd::arithmetic::div_mod::{
    lemma_add_mod_noop, lemma_mod_add_multiples_vanish, lemma_mul_mod_noop_right,
    lemma_small_mod, lemma_sub_mod_noop,
};
use vstd::arithmetic::power2::{lemma2_to64, lemma_pow2_unfold, pow2};

use vstd::slice::slice_subrange;

use crate::memmem::{is_first_match, is_last_match, lemma_matches_at_subrange, matches_at};
use crate::memmem::util::matches_here;

verus! {

/// The modulus of the rolling hash: all hash arithmetic is done mod 2^32.
pub const HASH_MOD: u64 = 0x1_0000_0000;

/// The rolling hash of a byte sequence before reduction: bytes are folded
/// in from the left, doubling the accumulator at each step, so the first
/// byte ends up with the highest power-of-two weight.
pub open spec fn hash_poly(s: Seq<u8>) -> int
    decreases s.len(),
{
    if s.len() == 0 {
        0
    } else {
        2 * hash_poly(s.drop_last()) + s.last()
    }
}

/// The 32-bit rolling hash of a byte sequence, as maintained by forward
/// searches.
pub open spec fn hash_of(s: Seq<u8>) -> int {
    hash_poly(s) % (HASH_MOD as int)
}

/// The mirror image of `hash_poly`: bytes are folded in from the right,
/// so the last byte ends up with the highest weight. Reverse searches
/// slide their window leftwards and therefore prepend bytes.
pub open spec fn hash_poly_rev(s: Seq<u8>) -> int
    decreases s.len(),
{
    if s.len() == 0 {
        0
    } else {
        2 * hash_poly_rev(s.drop_first()) + s.first()
    }
}

/// The 32-bit rolling hash of a byte sequence, as maintained by reverse
/// searches.
pub open spec fn hash_rev_of(s: Seq<u8>) -> int {
    hash_poly_rev(s) % (HASH_MOD as int)
}

/// Appending a byte on the right updates the forward hash by one doubling
/// step.
pub proof fn lemma_hash_push(s: Seq<u8>, b: u8)
    ensures
        hash_of(s.push(b)) == (2 * hash_of(s) + b) % (HASH_MOD as int),
{
    let m = HASH_MOD as int;
    assert(s.push(b).drop_last() =~= s);
    assert(s.push(b).last() == b);
    assert(hash_poly(s.push(b)) == 2 * hash_poly(s) + b);
    lemma_mul_mod_noop_right(2, hash_poly(s), m);
    lemma_add_mod_noop(2 * (hash_poly(s) % m), b as int, m);
    lemma_add_mod_noop(2 * hash_poly(s), b as int, m);
}

/// Prepending a byte on the left updates the reverse hash by one doubling
/// step.
pub proof fn lemma_hash_rev_prepend(s: Seq<u8>, b: u8)
    ensures
        hash_rev_of(seq![b] + s) == (2 * hash_rev_of(s) + b) % (HASH_MOD as int),
{
    let m = HASH_MOD as int;
    let t = seq![b] + s;
    assert(t.drop_first() =~= s);
    assert(t.first() == b);
    assert(hash_poly_rev(t) == 2 * hash_poly_rev(s) + b);
    lemma_mul_mod_noop_right(2, hash_poly_rev(s), m);
    lemma_add_mod_noop(2 * (hash_poly_rev(s) % m), b as int, m);
    lemma_add_mod_noop(2 * hash_poly_rev(s), b as int, m);
}

/// Splitting off the first byte of a sequence exposes its weight in the
/// forward hash polynomial: it carries the factor `2^(len-1)`.
pub proof fn lemma_hash_poly_drop_first(s: Seq<u8>)
    requires
        s.len() >= 1,
    ensures
        hash_poly(s) == s[0] * pow2((s.len() - 1) as nat) + hash_poly(s.drop_first()),
    decreases s.len(),
{
    if s.len() == 1 {
        assert(s.drop_last() =~= Seq::<u8>::empty());
        assert(s.drop_first() =~= Seq::<u8>::empty());
        lemma2_to64();
        assert(hash_poly(Seq::<u8>::empty()) == 0);
        assert(hash_poly(s) == 2 * 0 + s.last());
        assert(s.last() == s[0]);
    } else {
        let d = s.drop_last();
        lemma_hash_poly_drop_first(d);
        assert(d.drop_first() =~= s.drop_first().drop_last());
        let k = (s.len() - 2) as nat;
        lemma_pow2_unfold((s.len() - 1) as nat);
        assert(hash_poly(s) == 2 * hash_poly(d) + s.last());
        assert(hash_poly(d) == d[0] * pow2(k) + hash_poly(s.drop_first().drop_last()));
        assert(d[0] == s[0]);
        assert(s.drop_first().last() == s.last());
        assert(s.drop_first().len() >= 1);
        assert(hash_poly(s.drop_first()) == 2 * hash_poly(s.drop_first().drop_last())
            + s.last());
        assert(2 * (s[0] * pow2(k)) == s[0] * (2 * pow2(k))) by (nonlinear_arith);
        assert(pow2((s.len() - 1) as nat) == 2 * pow2(k));
    }
}

/// Splitting off the last byte of a sequence exposes its weight in the
/// reverse hash polynomial.
pub proof fn lemma_hash_poly_rev_drop_last(s: Seq<u8>)
    requires
        s.len() >= 1,
    ensures
        hash_poly_rev(s) == s.last() * pow2((s.len() - 1) as nat) + hash_poly_rev(
            s.drop_last(),
        ),
    decreases s.len(),
{
    if s.len() == 1 {
        assert(s.drop_first() =~= Seq::<u8>::empty());
        assert(s.drop_last() =~= Seq::<u8>::empty());
        lemma2_to64();
        assert(hash_poly_rev(Seq::<u8>::empty()) == 0);
        assert(hash_poly_rev(s) == 2 * 0 + s.first());
        assert(s.first() == s.last());
    } else {
        let d = s.drop_first();
        lemma_hash_poly_rev_drop_last(d);
        assert(d.drop_last() =~= s.drop_last().drop_first());
        let k = (s.len() - 2) as nat;
        lemma_pow2_unfold((s.len() - 1) as nat);
        assert(hash_poly_rev(s) == 2 * hash_poly_rev(d) + s.first());
        assert(d.last() == s.last());
        assert(s.drop_last().first() == s.first());
        assert(s.drop_last().len() >= 1);
        assert(hash_poly_rev(s.drop_last()) == 2 * hash_poly_rev(s.drop_last().drop_first())
            + s.first());
        assert(2 * (s.last() * pow2(k)) == s.last() * (2 * pow2(k))) by (nonlinear_arith);
        assert(pow2((s.len() - 1) as nat) == 2 * pow2(k));
    }
}

/// Sliding a forward window one byte to the right: remove the weight of
/// the leaving byte, then fold in the arriving byte. The right-hand side
/// is exactly the arithmetic that `Hash::roll` performs.
pub proof fn lemma_hash_roll(w: Seq<u8>, c: u8)
    requires
        w.len() >= 1,
    ensures
        hash_of(w.drop_first().push(c)) == (2 * ((hash_of(w) + HASH_MOD - (w[0] * (pow2(
            (w.len() - 1) as nat,
        ) as int % (HASH_MOD as int))) % (HASH_MOD as int)) % (HASH_MOD as int)) + c) % (
        HASH_MOD as int),
{
    let m = HASH_MOD as int;
    let p = pow2((w.len() - 1) as nat) as int;
    let w0 = w[0] as int;
    let t = hash_poly(w);
    let td = hash_poly(w.drop_first());
    lemma_hash_poly_drop_first(w);
    assert(td == t - w0 * p);
    // The two mod-reduced factors agree with the unreduced product.
    lemma_mul_mod_noop_right(w0, p, m);
    assert((w0 * (p % m)) % m == (w0 * p) % m);
    // Removing the leaving byte under the modulus.
    lemma_sub_mod_noop(t, w0 * p, m);
    assert((t % m - (w0 * p) % m) % m == (t - w0 * p) % m);
    lemma_mod_add_multiples_vanish(t % m - (w0 * p) % m, m);
    assert((t % m + m - (w0 * p) % m) % m == td % m);
    // Folding in the arriving byte.
    assert(w.drop_first().push(c).drop_last() =~= w.drop_first());
    assert(hash_poly(w.drop_first().push(c)) == 2 * td + c);
    lemma_mul_mod_noop_right(2, td, m);
    lemma_add_mod_noop(2 * (td % m), c as int, m);
    lemma_add_mod_noop(2 * td, c as int, m);
}

/// Sliding a reverse window one byte to the left: remove the weight of the
/// byte leaving on the right, then fold in the byte arriving on the left.
pub proof fn lemma_hash_roll_rev(w: Seq<u8>, c: u8)
    requires
        w.len() >= 1,
    ensures
        hash_rev_of(seq![c] + w.drop_last()) == (2 * ((hash_rev_of(w) + HASH_MOD - (w.last()
            * (pow2((w.len() - 1) as nat) as int % (HASH_MOD as int))) % (HASH_MOD as int)) % (
        HASH_MOD as int)) + c) % (HASH_MOD as int),
{
    let m = HASH_MOD as int;
    let p = pow2((w.len() - 1) as nat) as int;
    let wl = w.last() as int;
    let t = hash_poly_rev(w);
    let td = hash_poly_rev(w.drop_last());
    lemma_hash_poly_rev_drop_last(w);
    assert(td == t - wl * p);
    lemma_mul_mod_noop_right(wl, p, m);
    assert((wl * (p % m)) % m == (wl * p) % m);
    lemma_sub_mod_noop(t, wl * p, m);
    lemma_mod_add_multiples_vanish(t % m - (wl * p) % m, m);
    assert((t % m + m - (wl * p) % m) % m == td % m);
    let t2 = seq![c] + w.drop_last();
    assert(t2.drop_first() =~= w.drop_last());
    assert(hash_poly_rev(t2) == 2 * td + c);
    lemma_mul_mod_noop_right(2, td, m);
    lemma_add_mod_noop(2 * (td % m), c as int, m);
    lemma_add_mod_noop(2 * td, c as int, m);
}

/// A Rabin-Karp hash. This might represent the hash of a needle, or the
/// hash of a rolling window in the haystack.
#[derive(Clone, Copy, Debug, PartialEq, Eq, Structural)]
pub struct Hash(pub u32);

impl Hash {
    /// Create a new hash that represents the empty string.
    pub fn new() -> (r: Hash)
        ensures
            r.0 == 0,
    {
        Hash(0)
    }

    /// Create a new hash by folding in the given bytes from the left.
    pub fn from_bytes(bytes: &[u8]) -> (r: Hash)
        ensures
            r.0 == hash_of(bytes@),
    {
        let mut hash = Hash::new();
        let mut k: usize = 0;
        proof {
            assert(bytes@.subrange(0, 0) =~= Seq::<u8>::empty());
        }
        while k < bytes.len()
            invariant
                k <= bytes@.len(),
                hash.0 == hash_of(bytes@.subrange(0, k as int)),
            decreases bytes@.len() - k,
        {
            proof {
                lemma_hash_push(bytes@.subrange(0, k as int), bytes@[k as int]);
                assert(bytes@.subrange(0, k as int).push(bytes@[k as int]) =~= bytes@.subrange(
                    0,
                    k + 1,
                ));
            }
            hash.add(bytes[k]);
            k += 1;
        }
        proof {
            assert(bytes@.subrange(0, bytes@.len() as int) =~= bytes@);
        }
        hash
    }

    /// Create a new hash by folding in the given bytes from the right, as
    /// reverse searches do.
    pub fn from_bytes_rev(bytes: &[u8]) -> (r: Hash)
        ensures
            r.0 == hash_rev_of(bytes@),
    {
        let mut hash = Hash::new();
        let mut k: usize = bytes.len();
        proof {
            assert(bytes@.subrange(bytes@.len() as int, bytes@.len() as int) =~= Seq::<
                u8,
            >::empty());
        }
        while k > 0
            invariant
                k <= bytes@.len(),
                hash.0 == hash_rev_of(bytes@.subrange(k as int, bytes@.len() as int)),
            decreases k,
        {
            k -= 1;
            proof {
                lemma_hash_rev_prepend(
                    bytes@.subrange(k + 1, bytes@.len() as int),
                    bytes@[k as int],
                );
                assert(seq![bytes@[k as int]] + bytes@.subrange(k + 1, bytes@.len() as int)
                    =~= bytes@.subrange(k as int, bytes@.len() as int));
            }
            hash.add(bytes[k]);
        }
        proof {
            assert(bytes@.subrange(0, bytes@.len() as int) =~= bytes@);
        }
        hash
    }

    /// Fold one byte into this hash.
    pub fn add(&mut self, byte: u8)
        ensures
            final (self).0 == (2 * old(self).0 + byte) % (HASH_MOD as int),
    {
        let v: u64 = ((self.0 as u64) * 2 + (byte as u64)) % HASH_MOD;
        self.0 = v as u32;
    }

    /// Remove the byte that is leaving the window: `nhash` holds the
    /// precomputed weight `2^(len-1) mod 2^32` of the leaving byte.
    pub fn del(&mut self, nhash: &NeedleHash, byte: u8)
        ensures
            final (self).0 == (old(self).0 + HASH_MOD - (byte * nhash.hash_2pow) % (
            HASH_MOD as int)) % (HASH_MOD as int),
    {
        let factor = nhash.hash_2pow;
        proof {
            assert((byte as u64) * (factor as u64) <= 255 * 0xFFFF_FFFFu64) by (nonlinear_arith)
                requires
                    byte as u64 <= 255,
                    factor as u64 <= 0xFFFF_FFFFu64,
            ;
        }
        let t: u64 = ((byte as u64) * (factor as u64)) % HASH_MOD;
        let v: u64 = ((self.0 as u64) + HASH_MOD - t) % HASH_MOD;
        self.0 = v as u32;
    }

    /// Remove `old_byte` and fold in `new_byte`: one slide of the rolling
    /// window. The given needle hash holds the weight of the leaving
    /// byte, as in `del`.
    pub fn roll(&mut self, nhash: &NeedleHash, old_byte: u8, new_byte: u8)
        ensures
            final (self).0 == (2 * ((old(self).0 + HASH_MOD - (old_byte * nhash.hash_2pow) % (
            HASH_MOD as int)) % (HASH_MOD as int)) + new_byte) % (HASH_MOD as int),
    {
        self.del(nhash, old_byte);
        self.add(new_byte);
    }
}

/// A hash derived from a needle, together with the weight `2^(len-1) mod
/// 2^32` needed to remove a byte from the rolling window when it slides.
#[derive(Clone, Copy, Debug)]
pub struct NeedleHash {
    /// The hash of the needle.
    pub hash: Hash,
    /// The factor to multiply a byte by in order to remove it from the
    /// hash when the window slides past it.
    pub hash_2pow: u32,
}

impl NeedleHash {
    /// This needle hash was computed for the needle `n`, in the forward
    /// direction.
    pub open spec fn wf(self, n: Seq<u8>) -> bool {
        &&& self.hash.0 == hash_of(n)
        &&& self.hash_2pow == if n.len() == 0 {
            1int
        } else {
            pow2((n.len() - 1) as nat) as int % (HASH_MOD as int)
        }
    }

    /// This needle hash was computed for the needle `n`, in the reverse
    /// direction.
    pub open spec fn wf_rev(self, n: Seq<u8>) -> bool {
        &&& self.hash.0 == hash_rev_of(n)
        &&& self.hash_2pow == if n.len() == 0 {
            1int
        } else {
            pow2((n.len() - 1) as nat) as int % (HASH_MOD as int)
        }
    }

    /// Create a new Rabin-Karp hash for the given needle, for forward
    /// searching.
    pub fn new(needle: &[u8]) -> (r: NeedleHash)
        ensures
            r.wf(needle@),
    {
        let mut nh = NeedleHash { hash: Hash::from_bytes(needle), hash_2pow: 1 };
        nh.hash_2pow = pow2_mod_exec(needle.len());
        nh
    }

    /// Create a new Rabin-Karp hash for the given needle, for reverse
    /// searching.
    pub fn new_rev(needle: &[u8]) -> (r: NeedleHash)
        ensures
            r.wf_rev(needle@),
    {
        let mut nh = NeedleHash { hash: Hash::from_bytes_rev(needle), hash_2pow: 1 };
        nh.hash_2pow = pow2_mod_exec(needle.len());
        nh
    }

    /// Return true if and only if this needle hash equals the given window
    /// hash.
    pub fn eq(&self, hash: Hash) -> (r: bool)
        ensures
            r <==> self.hash.0 == hash.0,
    {
        self.hash == hash
    }
}

/// Search for the first occurrence of `needle` in `haystack`.
pub fn find(haystack: &[u8], needle: &[u8]) -> (r: Option<usize>)
    ensures
        match r {
            Some(i) => is_first_match(haystack@, needle@, i as int),
            None => forall|k: int| !matches_at(haystack@, needle@, k),
        },
{
    let nhash = NeedleHash::new(needle);
    find_with(&nhash, haystack, needle)
}

/// Search for the last occurrence of `needle` in `haystack`.
pub fn rfind(haystack: &[u8], needle: &[u8]) -> (r: Option<usize>)
    ensures
        match r {
            Some(i) => is_last_match(haystack@, needle@, i as int),
            None => forall|k: int| !matches_at(haystack@, needle@, k),
        },
{
    let nhash = NeedleHash::new_rev(needle);
    rfind_with(&nhash, haystack, needle)
}

/// Search for the first occurrence of `needle` in `haystack` using a
/// pre-computed needle hash.
pub fn find_with(nhash: &NeedleHash, haystack: &[u8], needle: &[u8]) -> (r: Option<usize>)
    requires
        nhash.wf(needle@),
    ensures
        match r {
            Some(i) => is_first_match(haystack@, needle@, i as int),
            None => forall|k: int| !matches_at(haystack@, needle@, k),
        },
{
    let hlen = haystack.len();
    let nlen = needle.len();
    if hlen < nlen {
        return None;
    }
    let first_window = slice_subrange(haystack, 0, nlen);
    let mut hash = Hash::from_bytes(first_window);
    let mut i: usize = 0;
    loop
        invariant
            nhash.wf(needle@),
            hlen == haystack@.len(),
            nlen == needle@.len(),
            i + nlen <= hlen,
            hash.0 == hash_of(haystack@.subrange(i as int, i + nlen)),
            forall|k: int| 0 <= k < i ==> !matches_at(haystack@, needle@, k),
        decreases hlen - i,
    {
        if nhash.eq(hash) {
            if matches_here(haystack, needle, i) {
                return Some(i);
            }
        } else {
            proof {
                if matches_at(haystack@, needle@, i as int) {
                    lemma_matches_at_subrange(haystack@, needle@, i as int);
                    assert(haystack@.subrange(i as int, i + nlen) == needle@);
                }
            }
        }
        assert(!matches_at(haystack@, needle@, i as int));
        if nlen >= hlen - i {
            proof {
                assert forall|k: int| !matches_at(haystack@, needle@, k) by {
                    if matches_at(haystack@, needle@, k) {
                        assert(0 <= k && k + nlen <= hlen);
                        assert(k <= i);
                    }
                }
            }
            return None;
        }
        proof {
            // An empty needle occurs trivially at `i`, so the search would
            // already have returned.
            assert(nlen >= 1);
            let w = haystack@.subrange(i as int, i + nlen);
            lemma_hash_roll(w, haystack@[i + nlen]);
            assert(w.drop_first().push(haystack@[i + nlen]) =~= haystack@.subrange(
                i + 1,
                i + 1 + nlen,
            ));
            assert(w[0] == haystack@[i as int]);
        }
        let leaving = haystack[i];
        let arriving = haystack[i + nlen];
        hash.roll(nhash, leaving, arriving);
        i += 1;
    }
}

/// Search for the last occurrence of `needle` in `haystack` using a
/// pre-computed (reverse) needle hash.
pub fn rfind_with(nhash: &NeedleHash, haystack: &[u8], needle: &[u8]) -> (r: Option<usize>)
    requires
        nhash.wf_rev(needle@),
    ensures
        match r {
            Some(i) => is_last_match(haystack@, needle@, i as int),
            None => forall|k: int| !matches_at(haystack@, needle@, k),
        },
{
    let hlen = haystack.len();
    let nlen = needle.len();
    if hlen < nlen {
        return None;
    }
    let last_window = slice_subrange(haystack, hlen - nlen, hlen);
    let mut hash = Hash::from_bytes_rev(last_window);
    let mut e: usize = hlen;
    loop
        invariant
            nhash.wf_rev(needle@),
            hlen == haystack@.len(),
            nlen == needle@.len(),
            nlen <= e <= hlen,
            hash.0 == hash_rev_of(haystack@.subrange(e - nlen, e as int)),
            forall|k: int| k > e - nlen ==> !matches_at(haystack@, needle@, k),
        decreases e,
    {
        if nhash.eq(hash) {
            if matches_here(haystack, needle, e - nlen) {
                return Some(e - nlen);
            }
        } else {
            proof {
                if matches_at(haystack@, needle@, e - nlen) {
                    lemma_matches_at_subrange(haystack@, needle@, e - nlen);
                    assert(haystack@.subrange(e - nlen, e as int) == needle@);
                }
            }
        }
        assert(!matches_at(haystack@, needle@, e - nlen));
        if e == nlen {
            proof {
                assert forall|k: int| !matches_at(haystack@, needle@, k) by {
                    if matches_at(haystack@, needle@, k) {
                        assert(k >= 0 && k >= e - nlen);
                    }
                }
            }
            return None;
        }
        proof {
            assert(nlen >= 1);
            let w = haystack@.subrange(e - nlen, e as int);
            lemma_hash_roll_rev(w, haystack@[e - nlen - 1]);
            assert(seq![haystack@[e - nlen - 1]] + w.drop_last() =~= haystack@.subrange(
                e - nlen - 1,
                e - 1,
            ));
            assert(w.last() == haystack@[e - 1]);
        }
        let leaving = haystack[e - 1];
        let arriving = haystack[e - 1 - nlen];
        hash.roll(nhash, leaving, arriving);
        e -= 1;
    }
}

/// Computes `2^(len-1) mod 2^32` (or 1 when `len` is 0), the weight used
/// to remove a byte from a rolling hash over a window of length `len`.
fn pow2_mod_exec(len: usize) -> (r: u32)
    ensures
        r == if len == 0 {
            1int
        } else {
            pow2((len - 1) as nat) as int % (HASH_MOD as int)
        },
{
    let mut r: u64 = 1;
    let mut k: usize = 0;
    proof {
        lemma2_to64();
        lemma_small_mod(1nat, HASH_MOD as nat);
    }
    if len == 0 {
        return 1;
    }
    while k < len - 1
        invariant
            len >= 1,
            k <= len - 1,
            r == pow2(k as nat) as int % (HASH_MOD as int),
        decreases len - k,
    {
        proof {
            lemma_pow2_unfold((k + 1) as nat);
            lemma_mul_mod_noop_right(2, pow2(k as nat) as int, HASH_MOD as int);
        }
        r = (r * 2) % HASH_MOD;
        k += 1;
    }
    r as u32
}

} // verus!
