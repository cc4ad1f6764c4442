//! Substring search over byte sequences.
//!
//! Given a haystack `H` and a needle `N`, the routines here locate
//! occurrences of `N` within `H`: the first one, the last one, and all
//! non-overlapping ones in either direction. Every searcher carries a
//! contract phrased over the spec-level occurrence model defined at the top
//! of this module: a result is either the leftmost (or rightmost) position
//! at which the needle occurs, or a guarantee that no occurrence exists.

use vstd::prelude::*;
use vstd::slice::{slice_subrange, slice_to_vec};

pub mod byte_frequencies;
pub mod genericsimd;
pub mod prefilter;
pub mod rabinkarp;
pub mod twoway;
pub mod util;

pub use self::prefilter::Prefilter;
use self::prefilter::PrefilterState;

verus! {

/// The needle `n` occurs in the haystack `h` at position `i`: the needle
/// fits inside the haystack when laid down at `i`, and every needle byte
/// agrees with the haystack byte under it.
pub open spec fn matches_at(h: Seq<u8>, n: Seq<u8>, i: int) -> bool {
    &&& 0 <= i
    &&& i + n.len() <= h.len()
    &&& forall|j: int| 0 <= j < n.len() ==> h[i + j] == n[j]
}

/// Some occurrence of `n` exists in `h`.
pub open spec fn has_match(h: Seq<u8>, n: Seq<u8>) -> bool {
    exists|i: int| matches_at(h, n, i)
}

/// `i` is the leftmost occurrence of `n` in `h`.
pub open spec fn is_first_match(h: Seq<u8>, n: Seq<u8>, i: int) -> bool {
    &&& matches_at(h, n, i)
    &&& forall|k: int| 0 <= k < i ==> !matches_at(h, n, k)
}

/// `i` is the rightmost occurrence of `n` in `h`.
pub open spec fn is_last_match(h: Seq<u8>, n: Seq<u8>, i: int) -> bool {
    &&& matches_at(h, n, i)
    &&& forall|k: int| i < k ==> !matches_at(h, n, k)
}

/// An occurrence is the same thing as equality with the needle-sized
/// window of the haystack that starts at `i`.
pub proof fn lemma_matches_at_subrange(h: Seq<u8>, n: Seq<u8>, i: int)
    requires
        0 <= i,
        i + n.len() <= h.len(),
    ensures
        matches_at(h, n, i) <==> h.subrange(i, i + n.len()) == n,
{
    if matches_at(h, n, i) {
        assert(h.subrange(i, i + n.len()) =~= n);
    }
    if h.subrange(i, i + n.len()) == n {
        assert forall|j: int| 0 <= j < n.len() implies h[i + j] == n[j] by {
            assert(h[i + j] == h.subrange(i, i + n.len())[j]);
        }
    }
}

/// Occurrences in a suffix of the haystack are occurrences in the whole
/// haystack, shifted by where the suffix starts.
pub proof fn lemma_matches_at_in_suffix(h: Seq<u8>, n: Seq<u8>, a: int, k: int)
    requires
        0 <= a <= h.len(),
    ensures
        matches_at(h.subrange(a, h.len() as int), n, k) <==> (k >= 0 && matches_at(h, n, a + k)),
{
    let s = h.subrange(a, h.len() as int);
    if matches_at(s, n, k) {
        assert forall|j: int| 0 <= j < n.len() implies h[(a + k) + j] == n[j] by {
            assert(s[k + j] == h[a + k + j]);
        }
    }
    if k >= 0 && matches_at(h, n, a + k) {
        assert forall|j: int| 0 <= j < n.len() implies s[k + j] == n[j] by {
            assert(s[k + j] == h[a + k + j]);
        }
    }
}

/// Occurrences in a prefix of the haystack are exactly the occurrences of
/// the whole haystack that end within the prefix.
pub proof fn lemma_matches_at_in_prefix(h: Seq<u8>, n: Seq<u8>, e: int, k: int)
    requires
        0 <= e <= h.len(),
    ensures
        matches_at(h.subrange(0, e), n, k) <==> (matches_at(h, n, k) && k + n.len() <= e),
{
    let s = h.subrange(0, e);
    if matches_at(s, n, k) {
        assert forall|j: int| 0 <= j < n.len() implies h[k + j] == n[j] by {
            assert(s[k + j] == h[k + j]);
        }
    }
    if matches_at(h, n, k) && k + n.len() <= e {
        assert forall|j: int| 0 <= j < n.len() implies s[k + j] == n[j] by {
            assert(s[k + j] == h[k + j]);
        }
    }
}

/// The empty needle occurs everywhere: at every position from `0` through
/// `h.len()`. In particular the leftmost occurrence is `0` and the
/// rightmost is `h.len()`.
pub proof fn lemma_empty_needle(h: Seq<u8>, n: Seq<u8>)
    requires
        n.len() == 0,
    ensures
        is_first_match(h, n, 0),
        is_last_match(h, n, h.len() as int),
{
    assert(matches_at(h, n, 0));
    assert(matches_at(h, n, h.len() as int));
}

/// Leftmost occurrences are unique: two positions that are each the first
/// occurrence must coincide. Together with the contracts of the individual
/// searchers, this is why every forward algorithm in this crate (and any
/// naive reference scan) must agree on its answer.
pub proof fn lemma_first_match_unique(h: Seq<u8>, n: Seq<u8>, i: int, k: int)
    requires
        is_first_match(h, n, i),
        is_first_match(h, n, k),
    ensures
        i == k,
{
    if i < k {
        assert(!matches_at(h, n, i));
    } else if k < i {
        assert(!matches_at(h, n, k));
    }
}

/// Rightmost occurrences are unique, for the same reason.
pub proof fn lemma_last_match_unique(h: Seq<u8>, n: Seq<u8>, i: int, k: int)
    requires
        is_last_match(h, n, i),
        is_last_match(h, n, k),
    ensures
        i == k,
{
    if i < k {
        assert(!matches_at(h, n, k));
    } else if k < i {
        assert(!matches_at(h, n, i));
    }
}

/// Every prefix of a haystack occurs in it at position 0, and 0 is the
/// leftmost occurrence.
pub proof fn lemma_prefix_matches_at_zero(h: Seq<u8>, k: int)
    requires
        0 <= k <= h.len(),
    ensures
        is_first_match(h, h.subrange(0, k), 0),
{
    assert(matches_at(h, h.subrange(0, k), 0));
}

/// Every suffix of length `k` of a haystack occurs in it at position
/// `h.len() - k`, and that is the rightmost occurrence.
pub proof fn lemma_suffix_matches_at_end(h: Seq<u8>, k: int)
    requires
        0 <= k <= h.len(),
    ensures
        is_last_match(h, h.subrange(h.len() - k, h.len() as int), h.len() - k),
{
    let n = h.subrange(h.len() - k, h.len() as int);
    assert(matches_at(h, n, h.len() - k));
    assert(forall|p: int| p > h.len() - k ==> !matches_at(h, n, p));
}

/// The naive reference search: try every position from `from` upward and
/// report the first where the needle occurs.
pub open spec fn naive_find_spec(h: Seq<u8>, n: Seq<u8>, from: int) -> Option<int>
    decreases (if from + n.len() > h.len() { 0int } else { h.len() - from })
{
    if from < 0 || from + n.len() > h.len() {
        None
    } else if matches_at(h, n, from) {
        Some(from)
    } else {
        naive_find_spec(h, n, from + 1)
    }
}

/// The naive reference search in reverse: try every position from `upto`
/// downward and report the first where the needle occurs.
pub open spec fn naive_rfind_spec(h: Seq<u8>, n: Seq<u8>, upto: int) -> Option<int>
    decreases (if upto < 0 { 0int } else { upto + 1 })
{
    if upto < 0 {
        None
    } else if upto + n.len() > h.len() || !matches_at(h, n, upto) {
        naive_rfind_spec(h, n, upto - 1)
    } else {
        Some(upto)
    }
}

/// The naive forward scan finds exactly the leftmost occurrence at or
/// after `from`, or establishes that there is none. At `from == 0` this
/// is the contract of every forward searcher in this crate, so — by
/// [`lemma_search_results_agree`] — the verified searchers return exactly
/// what the naive scan returns.
pub proof fn lemma_naive_find_correct(h: Seq<u8>, n: Seq<u8>, from: int)
    requires
        0 <= from,
    ensures
        match naive_find_spec(h, n, from) {
            Some(i) => from <= i && matches_at(h, n, i) && forall|k: int|
                from <= k < i ==> !matches_at(h, n, k),
            None => forall|k: int| k >= from ==> !matches_at(h, n, k),
        },
    decreases h.len() - from,
{
    if from + n.len() > h.len() {
        assert forall|k: int| k >= from implies !matches_at(h, n, k) by {
            if matches_at(h, n, k) {
                assert(k + n.len() <= h.len());
            }
        }
    } else if matches_at(h, n, from) {
    } else {
        lemma_naive_find_correct(h, n, from + 1);
    }
}

/// The naive reverse scan finds exactly the rightmost occurrence at or
/// before `upto`, or establishes that there is none. At
/// `upto == h.len()` this is the contract of every reverse searcher in
/// this crate.
pub proof fn lemma_naive_rfind_correct(h: Seq<u8>, n: Seq<u8>, upto: int)
    ensures
        match naive_rfind_spec(h, n, upto) {
            Some(i) => i <= upto && matches_at(h, n, i) && forall|k: int|
                i < k <= upto ==> !matches_at(h, n, k),
            None => forall|k: int| k <= upto ==> !matches_at(h, n, k),
        },
    decreases upto + 1,
{
    if upto < 0 {
    } else if upto + n.len() > h.len() {
        lemma_naive_rfind_correct(h, n, upto - 1);
        assert(!matches_at(h, n, upto)) by {
            if matches_at(h, n, upto) {
                assert(upto + n.len() <= h.len());
            }
        }
    } else if matches_at(h, n, upto) {
    } else {
        lemma_naive_rfind_correct(h, n, upto - 1);
    }
}

/// Any two procedures that each meet the forward-search contract agree on
/// every input: Rabin-Karp, the chunked confirming searcher, the Two-Way
/// matcher, the general prefilter composition and the naive reference
/// scan all return the same answer.
pub proof fn lemma_search_results_agree(h: Seq<u8>, n: Seq<u8>, r1: Option<int>, r2: Option<int>)
    requires
        match r1 {
            Some(i) => is_first_match(h, n, i),
            None => !has_match(h, n),
        },
        match r2 {
            Some(i) => is_first_match(h, n, i),
            None => !has_match(h, n),
        },
    ensures
        r1 == r2,
{
    match (r1, r2) {
        (Some(i), Some(k)) => {
            lemma_first_match_unique(h, n, i, k);
        },
        (Some(i), None) => {
            assert(matches_at(h, n, i));
            assert(has_match(h, n));
        },
        (None, Some(k)) => {
            assert(matches_at(h, n, k));
            assert(has_match(h, n));
        },
        (None, None) => {},
    }
}

/// The reverse counterpart: any two procedures that each meet the
/// reverse-search contract agree on every input.
pub proof fn lemma_rsearch_results_agree(h: Seq<u8>, n: Seq<u8>, r1: Option<int>, r2: Option<int>)
    requires
        match r1 {
            Some(i) => is_last_match(h, n, i),
            None => !has_match(h, n),
        },
        match r2 {
            Some(i) => is_last_match(h, n, i),
            None => !has_match(h, n),
        },
    ensures
        r1 == r2,
{
    match (r1, r2) {
        (Some(i), Some(k)) => {
            lemma_last_match_unique(h, n, i, k);
        },
        (Some(i), None) => {
            assert(matches_at(h, n, i));
            assert(has_match(h, n));
        },
        (None, Some(k)) => {
            assert(matches_at(h, n, k));
            assert(has_match(h, n));
        },
        (None, None) => {},
    }
}

/// Forward correctness in one line: any result that meets the contract
/// of the forward searchers — and by their `ensures` clauses they all do
/// — equals the result of the naive reference scan.
pub proof fn lemma_find_matches_naive(h: Seq<u8>, n: Seq<u8>, r: Option<int>)
    requires
        match r {
            Some(i) => is_first_match(h, n, i),
            None => !has_match(h, n),
        },
    ensures
        r == naive_find_spec(h, n, 0),
{
    lemma_naive_find_correct(h, n, 0);
    match naive_find_spec(h, n, 0) {
        Some(i) => {
            lemma_search_results_agree(h, n, r, Some(i));
        },
        None => {
            assert(!has_match(h, n)) by {
                if has_match(h, n) {
                    let k = choose|k: int| matches_at(h, n, k);
                    assert(!matches_at(h, n, k));
                }
            }
            lemma_search_results_agree(h, n, r, None);
        },
    }
}

/// Reverse correctness in one line: any result that meets the contract
/// of the reverse searchers equals the result of the naive reverse scan.
pub proof fn lemma_rfind_matches_naive(h: Seq<u8>, n: Seq<u8>, r: Option<int>)
    requires
        match r {
            Some(i) => is_last_match(h, n, i),
            None => !has_match(h, n),
        },
    ensures
        r == naive_rfind_spec(h, n, h.len() as int),
{
    lemma_naive_rfind_correct(h, n, h.len() as int);
    match naive_rfind_spec(h, n, h.len() as int) {
        Some(i) => {
            assert(is_last_match(h, n, i)) by {
                assert forall|k: int| i < k implies !matches_at(h, n, k) by {
                    if matches_at(h, n, k) {
                        assert(k + n.len() <= h.len());
                    }
                }
            }
            lemma_rsearch_results_agree(h, n, r, Some(i));
        },
        None => {
            assert(!has_match(h, n)) by {
                if has_match(h, n) {
                    let k = choose|k: int| matches_at(h, n, k);
                    assert(k + n.len() <= h.len());
                    assert(!matches_at(h, n, k));
                }
            }
            lemma_rsearch_results_agree(h, n, r, None);
        },
    }
}

/// A prefilter may not miss: any result meeting the forward prefilter
/// contract, run on a haystack whose earliest occurrence is at `p`, is a
/// candidate at or before `p` — never `None`, and never past the match.
pub proof fn lemma_prefilter_never_misses(h: Seq<u8>, n: Seq<u8>, r: Option<int>, p: int)
    requires
        is_first_match(h, n, p),
        match r {
            Some(q) => 0 <= q <= h.len() && forall|k: int| 0 <= k < q ==> !matches_at(h, n, k),
            None => forall|k: int| !matches_at(h, n, k),
        },
    ensures
        r is Some,
        r->Some_0 <= p,
{
    assert(matches_at(h, n, p));
}

/// A one-byte needle occurs exactly where that byte occurs.
pub proof fn lemma_single_byte_matches(h: Seq<u8>, n: Seq<u8>, k: int)
    requires
        n.len() == 1,
    ensures
        matches_at(h, n, k) <==> (0 <= k < h.len() && h[k] == n[0]),
{
}

/// Returns the index of the first occurrence of the given needle. The
/// result is exactly the leftmost occurrence, or `None` when the needle
/// occurs nowhere in the haystack. An empty needle is found at position
/// 0.
///
/// Small haystacks go straight to Rabin-Karp: building a full finder
/// would cost more than the search itself.
pub fn memmem(haystack: &[u8], needle: &[u8]) -> (r: Option<usize>)
    ensures
        match r {
            Some(i) => is_first_match(haystack@, needle@, i as int),
            None => !has_match(haystack@, needle@),
        },
{
    if haystack.len() < 64 {
        let r = rabinkarp::find(haystack, needle);
        proof {
            if r is None && has_match(haystack@, needle@) {
                let k = choose|k: int| matches_at(haystack@, needle@, k);
                assert(!matches_at(haystack@, needle@, k));
            }
        }
        r
    } else {
        Finder::new(needle).find(haystack)
    }
}

/// Returns the index of the last occurrence of the given needle. The
/// result is exactly the rightmost occurrence, or `None` when the needle
/// occurs nowhere in the haystack. An empty needle is found at position
/// `haystack.len()`.
pub fn memrmem(haystack: &[u8], needle: &[u8]) -> (r: Option<usize>)
    ensures
        match r {
            Some(i) => is_last_match(haystack@, needle@, i as int),
            None => !has_match(haystack@, needle@),
        },
{
    if haystack.len() < 64 {
        let r = rabinkarp::rfind(haystack, needle);
        proof {
            if r is None && has_match(haystack@, needle@) {
                let k = choose|k: int| matches_at(haystack@, needle@, k);
                assert(!matches_at(haystack@, needle@, k));
            }
        }
        r
    } else {
        FinderRev::new(needle).rfind(haystack)
    }
}

/// Returns an iterator over all non-overlapping occurrences of a
/// substring in a haystack, in ascending order.
pub fn memmem_iter(haystack: &[u8], needle: &[u8]) -> (r: Memmem)
    ensures
        r.spec_haystack() == haystack@,
        r.spec_needle() == needle@,
        r.spec_pos() == 0,
{
    Memmem::new(haystack, Finder::new(needle))
}

/// Returns a reverse iterator over all non-overlapping occurrences of a
/// substring in a haystack, in descending order.
pub fn memrmem_iter(haystack: &[u8], needle: &[u8]) -> (r: Memrmem)
    ensures
        r.spec_haystack() == haystack@,
        r.spec_needle() == needle@,
        r.spec_bound() == haystack@.len(),
{
    Memrmem::new(haystack, FinderRev::new(needle))
}

/// A single substring searcher fixed to a particular needle.
///
/// Building a finder performs the needle analysis once; the finder can
/// then search any number of haystacks. The finder owns a copy of its
/// needle.
#[derive(Debug)]
pub struct Finder {
    /// The needle searched for.
    needle: Vec<u8>,
    /// The rare-byte analysis and prefilter switch for this needle.
    freqy: prefilter::Freqy,
    /// The chunked confirming searcher, when the needle is short enough.
    confirmer: Option<genericsimd::Forward>,
    /// The Two-Way matcher, when its factorization could be certified.
    twoway: Option<twoway::TwoWay>,
}

impl View for Finder {
    type V = Seq<u8>;

    /// A finder is viewed as its needle.
    closed spec fn view(&self) -> Seq<u8> {
        self.needle@
    }
}

impl Finder {
    #[verifier::type_invariant]
    spec fn inv(self) -> bool {
        &&& self.freqy.wf_fwd(self.needle@)
        &&& match self.confirmer {
            Some(f) => f.wf(self.needle@),
            None => true,
        }
        &&& match self.twoway {
            Some(tw) => tw.wf(self.needle@),
            None => true,
        }
    }

    /// Create a new finder for the given needle.
    pub fn new(needle: &[u8]) -> (r: Finder)
        ensures
            r@ == needle@,
    {
        FinderBuilder::new().build_forward(needle)
    }

    /// Returns the index of the first occurrence of this finder's needle
    /// in the given haystack: exactly the leftmost occurrence, or `None`
    /// when the needle occurs nowhere.
    pub fn find(&self, haystack: &[u8]) -> (r: Option<usize>)
        ensures
            match r {
                Some(i) => is_first_match(haystack@, self@, i as int),
                None => !has_match(haystack@, self@),
            },
    {
        proof {
            use_type_invariant(&*self);
        }
        let mut prestate = self.freqy.state();
        let r = self.find_with(&mut prestate, haystack);
        proof {
            if r is None && has_match(haystack@, self@) {
                let k = choose|k: int| matches_at(haystack@, self@, k);
                assert(!matches_at(haystack@, self@, k));
            }
        }
        r
    }

    /// Returns an iterator over all non-overlapping occurrences of this
    /// finder's needle in the given haystack, in ascending order.
    pub fn find_iter(&self, haystack: &[u8]) -> (r: Memmem)
        ensures
            r.spec_haystack() == haystack@,
            r.spec_needle() == self@,
            r.spec_pos() == 0,
    {
        Memmem::new(haystack, self.as_ref())
    }

    /// Convert this finder into an owned finder. The finder already owns
    /// its needle, so this is the identity.
    pub fn into_owned(self) -> (r: Finder)
        ensures
            r@ == self@,
    {
        self
    }

    /// Return a copy of this finder, re-using its analysis.
    pub fn as_ref(&self) -> (r: Finder)
        ensures
            r@ == self@,
    {
        proof {
            use_type_invariant(&*self);
        }
        Finder {
            needle: slice_to_vec(self.needle.as_slice()),
            freqy: self.freqy,
            confirmer: self.confirmer,
            twoway: self.twoway,
        }
    }

    /// Returns the needle that this finder searches for.
    pub fn needle(&self) -> (r: &[u8])
        ensures
            r@ == self@,
    {
        self.needle.as_slice()
    }

    /// Search with a caller-provided prefilter state, so that iteration
    /// can carry the state across steps.
    fn find_with(&self, prestate: &mut PrefilterState, haystack: &[u8]) -> (r: Option<
        usize,
    >)
        ensures
            match r {
                Some(i) => is_first_match(haystack@, self@, i as int),
                None => forall|k: int| !matches_at(haystack@, self@, k),
            },
    {
        proof {
            use_type_invariant(&*self);
        }
        let hlen = haystack.len();
        let nlen = self.needle.len();
        if nlen == 0 {
            proof {
                assert(matches_at(haystack@, self.needle@, 0));
            }
            return Some(0);
        }
        if nlen == 1 {
            let b = self.needle[0];
            let r = crate::memchr::memchr(b, haystack);
            proof {
                assert forall|k: int|
                    matches_at(haystack@, self.needle@, k) <==> (0 <= k < haystack@.len()
                        && haystack@[k] == b) by {
                    lemma_single_byte_matches(haystack@, self.needle@, k);
                }
            }
            return r;
        }
        if hlen < 64 {
            return rabinkarp::find_with(&self.freqy.ninfo.nhash, haystack, self.needle.as_slice());
        }
        match &self.confirmer {
            Some(gs) => {
                if hlen >= gs.min_haystack_len(32) {
                    return gs.find(haystack, self.needle.as_slice(), 32);
                }
                if hlen >= gs.min_haystack_len(16) {
                    return gs.find(haystack, self.needle.as_slice(), 16);
                }
            },
            None => {},
        }
        self.general_find(prestate, haystack)
    }

    /// The general search: a candidate loop that composes the prefilter
    /// with exact confirmation. The prefilter is advisory — it only ever
    /// skips positions proved matchless — and is consulted only while its
    /// state reports it effective; once it is disabled or stops paying,
    /// the search finishes with the Two-Way matcher where its
    /// factorization was certified (worst-case linear in what remains),
    /// and with Rabin-Karp (expected linear) for the highly periodic
    /// needles where it was not.
    fn general_find(&self, prestate: &mut PrefilterState, haystack: &[u8]) -> (r: Option<usize>)
        requires
            self@.len() >= 1,
        ensures
            match r {
                Some(i) => is_first_match(haystack@, self@, i as int),
                None => forall|k: int| !matches_at(haystack@, self@, k),
            },
    {
        proof {
            use_type_invariant(&*self);
        }
        let needle = self.needle.as_slice();
        let hlen = haystack.len();
        let nlen = needle.len();
        if hlen < nlen {
            return None;
        }
        let mut pos: usize = 0;
        loop
            invariant
                self.freqy.wf_fwd(needle@),
                needle@ == self@,
                match self.twoway {
                    Some(tw) => tw.wf(needle@),
                    None => true,
                },
                hlen == haystack@.len(),
                nlen == needle@.len(),
                1 <= nlen <= hlen,
                pos <= hlen,
                forall|k: int| 0 <= k < pos ==> !matches_at(haystack@, needle@, k),
            decreases hlen - pos,
        {
            if !self.freqy.inert && prestate.is_effective() {
                let rest = slice_subrange(haystack, pos, hlen);
                match self.freqy.find(prestate, rest, needle) {
                    None => {
                        proof {
                            assert forall|k: int| !matches_at(haystack@, needle@, k) by {
                                if k >= pos {
                                    lemma_matches_at_in_suffix(
                                        haystack@,
                                        needle@,
                                        pos as int,
                                        k - pos,
                                    );
                                }
                            }
                        }
                        return None;
                    },
                    Some(c) => {
                        let cand = pos + c;
                        proof {
                            assert forall|k: int| 0 <= k < cand implies !matches_at(
                                haystack@,
                                needle@,
                                k,
                            ) by {
                                if k >= pos {
                                    lemma_matches_at_in_suffix(
                                        haystack@,
                                        needle@,
                                        pos as int,
                                        k - pos,
                                    );
                                }
                            }
                        }
                        if cand > hlen - nlen {
                            proof {
                                assert forall|k: int| !matches_at(haystack@, needle@, k) by {
                                    if matches_at(haystack@, needle@, k) {
                                        assert(k + nlen <= hlen);
                                    }
                                }
                            }
                            return None;
                        }
                        if util::matches_here(haystack, needle, cand) {
                            return Some(cand);
                        }
                        pos = cand + 1;
                    },
                }
            } else {
                // The prefilter is disabled or has stopped paying for
                // itself: finish the search with Two-Way when its
                // factorization was certified, and with Rabin-Karp for
                // the highly periodic needles where it was not.
                let rest = slice_subrange(haystack, pos, hlen);
                let r = match &self.twoway {
                    Some(tw) => tw.find(rest, needle),
                    None => rabinkarp::find_with(&self.freqy.ninfo.nhash, rest, needle),
                };
                match r {
                    Some(j) => {
                        proof {
                            lemma_matches_at_in_suffix(haystack@, needle@, pos as int, j as int);
                            assert forall|k: int| 0 <= k < pos + j implies !matches_at(
                                haystack@,
                                needle@,
                                k,
                            ) by {
                                if k >= pos {
                                    lemma_matches_at_in_suffix(
                                        haystack@,
                                        needle@,
                                        pos as int,
                                        k - pos,
                                    );
                                }
                            }
                        }
                        return Some(pos + j);
                    },
                    None => {
                        proof {
                            assert forall|k: int| !matches_at(haystack@, needle@, k) by {
                                if k >= pos {
                                    lemma_matches_at_in_suffix(
                                        haystack@,
                                        needle@,
                                        pos as int,
                                        k - pos,
                                    );
                                }
                            }
                        }
                        return None;
                    },
                }
            }
        }
    }
}

/// A single substring searcher for the reverse direction, fixed to a
/// particular needle.
#[derive(Debug)]
pub struct FinderRev {
    /// The needle searched for.
    needle: Vec<u8>,
    /// The mirror image of the needle, which the reverse Two-Way matcher
    /// scans.
    rneedle: Vec<u8>,
    /// The rare-byte analysis and prefilter switch, oriented from the end
    /// of the needle.
    freqy: prefilter::Freqy,
    /// The reverse Two-Way matcher, when its factorization could be
    /// certified.
    twoway: Option<twoway::TwoWay>,
}

impl View for FinderRev {
    type V = Seq<u8>;

    /// A finder is viewed as its needle.
    closed spec fn view(&self) -> Seq<u8> {
        self.needle@
    }
}

impl FinderRev {
    #[verifier::type_invariant]
    spec fn inv(self) -> bool {
        &&& self.freqy.wf_rev(self.needle@)
        &&& self.rneedle@ == twoway::rev_seq(self.needle@)
        &&& match self.twoway {
            Some(tw) => tw.wf(self.rneedle@),
            None => true,
        }
    }

    /// Create a new reverse finder for the given needle.
    pub fn new(needle: &[u8]) -> (r: FinderRev)
        ensures
            r@ == needle@,
    {
        FinderBuilder::new().build_reverse(needle)
    }

    /// Returns the index of the last occurrence of this finder's needle
    /// in the given haystack: exactly the rightmost occurrence, or `None`
    /// when the needle occurs nowhere.
    pub fn rfind(&self, haystack: &[u8]) -> (r: Option<usize>)
        ensures
            match r {
                Some(i) => is_last_match(haystack@, self@, i as int),
                None => !has_match(haystack@, self@),
            },
    {
        proof {
            use_type_invariant(&*self);
        }
        let mut prestate = self.freqy.state();
        let r = self.rfind_with(&mut prestate, haystack);
        proof {
            if r is None && has_match(haystack@, self@) {
                let k = choose|k: int| matches_at(haystack@, self@, k);
                assert(!matches_at(haystack@, self@, k));
            }
        }
        r
    }

    /// Returns a reverse iterator over all non-overlapping occurrences of
    /// this finder's needle in the given haystack, in descending order.
    pub fn rfind_iter(&self, haystack: &[u8]) -> (r: Memrmem)
        ensures
            r.spec_haystack() == haystack@,
            r.spec_needle() == self@,
            r.spec_bound() == haystack@.len(),
    {
        Memrmem::new(haystack, self.as_ref())
    }

    /// Convert this finder into an owned finder. The finder already owns
    /// its needle, so this is the identity.
    pub fn into_owned(self) -> (r: FinderRev)
        ensures
            r@ == self@,
    {
        self
    }

    /// Return a copy of this finder, re-using its analysis.
    pub fn as_ref(&self) -> (r: FinderRev)
        ensures
            r@ == self@,
    {
        proof {
            use_type_invariant(&*self);
        }
        FinderRev {
            needle: slice_to_vec(self.needle.as_slice()),
            rneedle: slice_to_vec(self.rneedle.as_slice()),
            freqy: self.freqy,
            twoway: self.twoway,
        }
    }

    /// Returns the needle that this finder searches for.
    pub fn needle(&self) -> (r: &[u8])
        ensures
            r@ == self@,
    {
        self.needle.as_slice()
    }

    /// Search with a caller-provided prefilter state, so that iteration
    /// can carry the state across steps.
    fn rfind_with(&self, prestate: &mut PrefilterState, haystack: &[u8]) -> (r: Option<
        usize,
    >)
        ensures
            match r {
                Some(i) => is_last_match(haystack@, self@, i as int),
                None => forall|k: int| !matches_at(haystack@, self@, k),
            },
    {
        proof {
            use_type_invariant(&*self);
        }
        let hlen = haystack.len();
        let nlen = self.needle.len();
        if nlen == 0 {
            proof {
                assert(matches_at(haystack@, self.needle@, haystack@.len() as int));
            }
            return Some(hlen);
        }
        if nlen == 1 {
            let b = self.needle[0];
            let r = crate::memchr::memrchr(b, haystack);
            proof {
                assert forall|k: int|
                    matches_at(haystack@, self.needle@, k) <==> (0 <= k < haystack@.len()
                        && haystack@[k] == b) by {
                    lemma_single_byte_matches(haystack@, self.needle@, k);
                }
            }
            return r;
        }
        if hlen < 64 {
            return rabinkarp::rfind_with(
                &self.freqy.ninfo.nhash,
                haystack,
                self.needle.as_slice(),
            );
        }
        self.general_rfind(prestate, haystack)
    }

    /// The general reverse search: a candidate loop composing the scalar
    /// reverse prefilter with exact confirmation; once the prefilter is
    /// disabled or stops paying, the search finishes with the reverse
    /// Two-Way matcher where its factorization was certified, and with
    /// reverse Rabin-Karp otherwise.
    fn general_rfind(&self, prestate: &mut PrefilterState, haystack: &[u8]) -> (r: Option<usize>)
        requires
            self@.len() >= 1,
        ensures
            match r {
                Some(i) => is_last_match(haystack@, self@, i as int),
                None => forall|k: int| !matches_at(haystack@, self@, k),
            },
    {
        proof {
            use_type_invariant(&*self);
        }
        let needle = self.needle.as_slice();
        let hlen = haystack.len();
        let nlen = needle.len();
        if hlen < nlen {
            return None;
        }
        let mut e: usize = hlen;
        loop
            invariant
                self.freqy.wf_rev(needle@),
                needle@ == self@,
                self.rneedle@ == twoway::rev_seq(needle@),
                match self.twoway {
                    Some(tw) => tw.wf(self.rneedle@),
                    None => true,
                },
                hlen == haystack@.len(),
                nlen == needle@.len(),
                1 <= nlen <= hlen,
                e <= hlen,
                forall|k: int| k + nlen > e ==> !matches_at(haystack@, needle@, k),
            decreases e,
        {
            if e < nlen {
                proof {
                    assert forall|k: int| !matches_at(haystack@, needle@, k) by {
                        if matches_at(haystack@, needle@, k) {
                            assert(k >= 0);
                        }
                    }
                }
                return None;
            }
            if !self.freqy.inert && prestate.is_effective() {
                let pre = slice_subrange(haystack, 0, e);
                match self.freqy.rfind(prestate, pre, needle) {
                    None => {
                        proof {
                            assert forall|k: int| !matches_at(haystack@, needle@, k) by {
                                lemma_matches_at_in_prefix(haystack@, needle@, e as int, k);
                            }
                        }
                        return None;
                    },
                    Some(cand_end) => {
                        proof {
                            assert forall|k: int| k + nlen > cand_end implies !matches_at(
                                haystack@,
                                needle@,
                                k,
                            ) by {
                                lemma_matches_at_in_prefix(haystack@, needle@, e as int, k);
                            }
                        }
                        if cand_end < nlen {
                            proof {
                                assert forall|k: int| !matches_at(haystack@, needle@, k) by {
                                    if matches_at(haystack@, needle@, k) {
                                        assert(k >= 0);
                                    }
                                }
                            }
                            return None;
                        }
                        let start = cand_end - nlen;
                        if util::matches_here(haystack, needle, start) {
                            return Some(start);
                        }
                        e = cand_end - 1;
                    },
                }
            } else {
                // The prefilter is disabled or has stopped paying for
                // itself: finish the search with reverse Two-Way when its
                // factorization was certified, and with reverse Rabin-Karp
                // for the highly periodic needles where it was not.
                let pre = slice_subrange(haystack, 0, e);
                let r = match &self.twoway {
                    Some(tw) => {
                        proof {
                            assert(twoway::rev_seq(self.rneedle@) =~= needle@);
                        }
                        tw.rfind(pre, self.rneedle.as_slice())
                    },
                    None => rabinkarp::rfind_with(&self.freqy.ninfo.nhash, pre, needle),
                };
                match r {
                    Some(j) => {
                        proof {
                            lemma_matches_at_in_prefix(haystack@, needle@, e as int, j as int);
                            assert forall|k: int| j < k implies !matches_at(
                                haystack@,
                                needle@,
                                k,
                            ) by {
                                lemma_matches_at_in_prefix(haystack@, needle@, e as int, k);
                            }
                        }
                        return Some(j);
                    },
                    None => {
                        proof {
                            assert forall|k: int| !matches_at(haystack@, needle@, k) by {
                                lemma_matches_at_in_prefix(haystack@, needle@, e as int, k);
                            }
                        }
                        return None;
                    },
                }
            }
        }
    }
}

/// A builder for constructing non-default forward or reverse finders.
#[derive(Clone, Copy, Debug)]
pub struct FinderBuilder {
    /// The prefilter setting that built finders will use.
    config: Prefilter,
}

impl FinderBuilder {
    /// The prefilter setting held by this builder.
    pub closed spec fn prefilter_setting(self) -> Prefilter {
        self.config
    }

    /// Create a new finder builder with default settings.
    pub fn new() -> (r: FinderBuilder)
        ensures
            r.prefilter_setting() == Prefilter::Auto,
    {
        FinderBuilder { config: Prefilter::Auto }
    }

    /// Build a forward finder for the given needle from the current
    /// settings.
    pub fn build_forward(&self, needle: &[u8]) -> (r: Finder)
        ensures
            r@ == needle@,
    {
        let freqy = prefilter::Freqy::forward(&self.config, needle);
        let confirmer = if self.config.is_none() {
            None
        } else {
            genericsimd::Forward::new(&freqy.ninfo, needle)
        };
        let tw = twoway::TwoWay::new(needle);
        Finder { needle: slice_to_vec(needle), freqy, confirmer, twoway: tw }
    }

    /// Build a reverse finder for the given needle from the current
    /// settings.
    pub fn build_reverse(&self, needle: &[u8]) -> (r: FinderRev)
        ensures
            r@ == needle@,
    {
        let freqy = prefilter::Freqy::reverse(&self.config, needle);
        let rneedle = twoway::reverse_bytes(needle);
        let tw = twoway::TwoWay::new(rneedle.as_slice());
        FinderRev { needle: slice_to_vec(needle), rneedle, freqy, twoway: tw }
    }

    /// Configure the prefilter setting for the finders built.
    pub fn prefilter(&mut self, setting: Prefilter) -> (r: &mut FinderBuilder)
        ensures
            r.prefilter_setting() == setting,
            *final(self) == *final(r),
    {
        self.config = setting;
        self
    }
}

impl Default for FinderBuilder {
    /// The default builder chooses a prefilter automatically.
    fn default() -> (r: FinderBuilder)
        ensures
            r.prefilter_setting() == Prefilter::Auto,
    {
        FinderBuilder::new()
    }
}

/// An iterator over non-overlapping substring matches, in ascending
/// order. Matches are reported by the byte offset at which they begin;
/// after a match at `p` the scan resumes at `p + max(1, needle.len())`.
#[derive(Debug)]
pub struct Memmem {
    /// The haystack searched.
    haystack: Vec<u8>,
    /// The prefilter state, shared across the steps of this iteration.
    prestate: PrefilterState,
    /// The searcher.
    finder: Finder,
    /// The position at which the next search begins.
    pos: usize,
    /// The iteration has advanced past the end of the haystack.
    done: bool,
}

impl Memmem {
    #[verifier::type_invariant]
    spec fn inv(self) -> bool {
        !self.done ==> self.pos <= self.haystack@.len()
    }

    /// The haystack being searched.
    pub closed spec fn spec_haystack(self) -> Seq<u8> {
        self.haystack@
    }

    /// The needle being searched for.
    pub closed spec fn spec_needle(self) -> Seq<u8> {
        self.finder@
    }

    /// The position at which the next search begins; one past the end of
    /// the haystack when the iteration is exhausted.
    pub closed spec fn spec_pos(self) -> int {
        if self.done {
            self.haystack@.len() + 1int
        } else {
            self.pos as int
        }
    }

    /// Create an iterator over the occurrences of the finder's needle in
    /// the haystack.
    pub fn new(haystack: &[u8], finder: Finder) -> (r: Memmem)
        ensures
            r.spec_haystack() == haystack@,
            r.spec_needle() == finder@,
            r.spec_pos() == 0,
    {
        proof {
            use_type_invariant(&finder);
        }
        let prestate = finder.freqy.state();
        Memmem { haystack: slice_to_vec(haystack), prestate, finder, pos: 0, done: false }
    }

    /// The next match, in ascending order: exactly the leftmost
    /// occurrence at or after the current position, or `None` when no
    /// occurrence remains.
    pub fn next(&mut self) -> (r: Option<usize>)
        ensures
            final (self).spec_haystack() == old(self).spec_haystack(),
            final (self).spec_needle() == old(self).spec_needle(),
            match r {
                Some(i) => {
                    let h = old(self).spec_haystack();
                    let n = old(self).spec_needle();
                    let step = if n.len() == 0 {
                        1int
                    } else {
                        n.len() as int
                    };
                    &&& old(self).spec_pos() <= i
                    &&& matches_at(h, n, i as int)
                    &&& forall|k: int| old(self).spec_pos() <= k < i ==> !matches_at(h, n, k)
                    &&& final (self).spec_pos() == if i + step <= h.len() {
                        i + step
                    } else {
                        h.len() + 1int
                    }
                },
                None => {
                    &&& final (self).spec_pos() == old(self).spec_pos()
                    &&& forall|k: int|
                        k >= old(self).spec_pos() ==> !matches_at(
                            old(self).spec_haystack(),
                            old(self).spec_needle(),
                            k,
                        )
                },
            },
    {
        proof {
            use_type_invariant(&*self);
        }
        let hlen = self.haystack.len();
        if self.done {
            proof {
                assert forall|k: int| k >= old(self).spec_pos() implies !matches_at(
                    old(self).spec_haystack(),
                    old(self).spec_needle(),
                    k,
                ) by {
                    if matches_at(old(self).spec_haystack(), old(self).spec_needle(), k) {
                        assert(k + old(self).spec_needle().len() <= hlen);
                    }
                }
            }
            return None;
        }
        let rest = slice_subrange(self.haystack.as_slice(), self.pos, hlen);
        let mut prestate = self.prestate;
        let result = self.finder.find_with(&mut prestate, rest);
        self.prestate = prestate;
        match result {
            None => {
                proof {
                    assert forall|k: int| k >= old(self).spec_pos() implies !matches_at(
                        old(self).spec_haystack(),
                        old(self).spec_needle(),
                        k,
                    ) by {
                        lemma_matches_at_in_suffix(
                            self.haystack@,
                            self.finder@,
                            self.pos as int,
                            k - self.pos,
                        );
                    }
                }
                None
            },
            Some(i) => {
                proof {
                    lemma_matches_at_in_suffix(self.haystack@, self.finder@, self.pos as int, i as int);
                    assert forall|k: int| old(self).spec_pos() <= k < self.pos + i implies !matches_at(
                        old(self).spec_haystack(),
                        old(self).spec_needle(),
                        k,
                    ) by {
                        lemma_matches_at_in_suffix(
                            self.haystack@,
                            self.finder@,
                            self.pos as int,
                            k - self.pos,
                        );
                    }
                }
                let found = self.pos + i;
                let nlen = self.finder.needle.len();
                let step: usize = if nlen == 0 {
                    1
                } else {
                    nlen
                };
                if step <= hlen - found {
                    self.pos = found + step;
                } else {
                    self.done = true;
                }
                Some(found)
            },
        }
    }
}

/// An iterator over non-overlapping substring matches in reverse, in
/// descending order. Matches are reported by the byte offset at which
/// they begin; after a match at `p` the scan resumes within the first
/// `p` bytes of the haystack (one fewer for an empty needle).
#[derive(Debug)]
pub struct Memrmem {
    /// The haystack searched.
    haystack: Vec<u8>,
    /// The prefilter state, shared across the steps of this iteration.
    prestate: PrefilterState,
    /// The searcher.
    finder: FinderRev,
    /// The next search runs over this many leading haystack bytes;
    /// `None` once the iteration is exhausted.
    pos: Option<usize>,
}

impl Memrmem {
    #[verifier::type_invariant]
    spec fn inv(self) -> bool {
        match self.pos {
            Some(p) => p <= self.haystack@.len(),
            None => true,
        }
    }

    /// The haystack being searched.
    pub closed spec fn spec_haystack(self) -> Seq<u8> {
        self.haystack@
    }

    /// The needle being searched for.
    pub closed spec fn spec_needle(self) -> Seq<u8> {
        self.finder@
    }

    /// The bound of the next search: occurrences ending past it have
    /// already been reported or ruled out. Negative once the iteration is
    /// exhausted.
    pub closed spec fn spec_bound(self) -> int {
        match self.pos {
            Some(p) => p as int,
            None => -1,
        }
    }

    /// Create a reverse iterator over the occurrences of the finder's
    /// needle in the haystack.
    pub fn new(haystack: &[u8], finder: FinderRev) -> (r: Memrmem)
        ensures
            r.spec_haystack() == haystack@,
            r.spec_needle() == finder@,
            r.spec_bound() == haystack@.len(),
    {
        proof {
            use_type_invariant(&finder);
        }
        let prestate = finder.freqy.state();
        let pos = Some(haystack.len());
        Memrmem { haystack: slice_to_vec(haystack), prestate, finder, pos }
    }

    /// The next match, in descending order: exactly the rightmost
    /// occurrence ending within the current bound, or `None` when no
    /// occurrence remains.
    pub fn next(&mut self) -> (r: Option<usize>)
        ensures
            final (self).spec_haystack() == old(self).spec_haystack(),
            final (self).spec_needle() == old(self).spec_needle(),
            match r {
                Some(i) => {
                    let h = old(self).spec_haystack();
                    let n = old(self).spec_needle();
                    &&& old(self).spec_bound() >= 0
                    &&& i + n.len() <= old(self).spec_bound()
                    &&& matches_at(h, n, i as int)
                    &&& forall|k: int|
                        i < k && k + n.len() <= old(self).spec_bound() ==> !matches_at(h, n, k)
                    &&& final (self).spec_bound() == if n.len() == 0 {
                        old(self).spec_bound() - 1
                    } else {
                        i as int
                    }
                },
                None => {
                    &&& final (self).spec_bound() == old(self).spec_bound()
                    &&& forall|k: int|
                        k + old(self).spec_needle().len() <= old(self).spec_bound()
                            ==> !matches_at(
                            old(self).spec_haystack(),
                            old(self).spec_needle(),
                            k,
                        )
                },
            },
    {
        proof {
            use_type_invariant(&*self);
        }
        let p = match self.pos {
            None => {
                proof {
                    assert forall|k: int|
                        k + old(self).spec_needle().len() <= old(self).spec_bound() implies !matches_at(
                        old(self).spec_haystack(),
                        old(self).spec_needle(),
                        k,
                    ) by {
                        if matches_at(old(self).spec_haystack(), old(self).spec_needle(), k) {
                            assert(k >= 0);
                        }
                    }
                }
                return None;
            },
            Some(p) => p,
        };
        let pre = slice_subrange(self.haystack.as_slice(), 0, p);
        let mut prestate = self.prestate;
        let result = self.finder.rfind_with(&mut prestate, pre);
        self.prestate = prestate;
        match result {
            None => {
                proof {
                    assert forall|k: int|
                        k + old(self).spec_needle().len() <= old(self).spec_bound() implies !matches_at(
                        old(self).spec_haystack(),
                        old(self).spec_needle(),
                        k,
                    ) by {
                        lemma_matches_at_in_prefix(self.haystack@, self.finder@, p as int, k);
                    }
                }
                None
            },
            Some(i) => {
                proof {
                    lemma_matches_at_in_prefix(self.haystack@, self.finder@, p as int, i as int);
                    assert forall|k: int|
                        i < k && k + old(self).spec_needle().len() <= old(self).spec_bound()
                            implies !matches_at(
                        old(self).spec_haystack(),
                        old(self).spec_needle(),
                        k,
                    ) by {
                        lemma_matches_at_in_prefix(self.haystack@, self.finder@, p as int, k);
                    }
                }
                proof {
                    // The bound itself is the match position exactly when
                    // the needle is empty.
                    if self.finder@.len() == 0 {
                        assert(matches_at(
                            self.haystack@.subrange(0, p as int),
                            self.finder@,
                            p as int,
                        ));
                        assert(i == p);
                    }
                }
                if p == i {
                    // Only an empty needle matches at the bound itself;
                    // step the bound down by one.
                    if p == 0 {
                        self.pos = None;
                    } else {
                        self.pos = Some(p - 1);
                    }
                } else {
                    self.pos = Some(i);
                }
                Some(i)
            },
        }
    }
}

} // verus!
