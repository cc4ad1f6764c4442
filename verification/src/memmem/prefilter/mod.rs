//! Heuristic prefilters for substring search.
//!
//! A prefilter inspects a haystack quickly and returns a *candidate*
//! position: a place where a match might start. A prefilter may return
//! false positives — the caller must confirm the candidate — but it must
//! never return a false negative. The contracts below state exactly that:
//! every position a prefilter skips is proved to hold no occurrence.
//!
//! Prefilters pick out the needle byte predicted to occur least often (by
//! the static frequency table) and scan for it; a second rare byte is used
//! as a guard to reject quickly. A [`PrefilterState`] measures how many
//! bytes each skip actually saved and renders the prefilter inert once
//! skipping stops paying for itself.

use vstd::prelude::*;

use crate::memmem::byte_frequencies::{frequency_rank, spec_rank};
use crate::memmem::matches_at;
use crate::memmem::rabinkarp::NeedleHash;

pub mod fallback;
pub mod wide;

verus! {

/// The maximum frequency rank permitted for the rarest byte of a needle.
/// If even the rarest needle byte is believed more common than this, a
/// rare-byte prefilter is unlikely to skip anything and is disabled.
pub const MAX_FALLBACK_RANK: usize = 250;

/// The minimum number of skip attempts to try before considering whether
/// a prefilter is effective or not.
pub const MIN_SKIPS: u32 = 50;

/// The minimum number of bytes that skipping must average per attempt for
/// a prefilter to be considered effective.
pub const MIN_SKIP_BYTES: u32 = 8;

/// Return the heuristic frequency rank of the given byte. A lower rank
/// means the byte is believed to occur less frequently.
pub fn rank(b: u8) -> (r: usize)
    ensures
        r == spec_rank(b),
        r <= 255,
{
    frequency_rank(b) as usize
}

/// A prefilter setting, chosen when a finder is built.
#[derive(Clone, Copy, Debug)]
pub enum Prefilter {
    /// Never use a prefilter: the search runs on the core algorithm
    /// alone.
    Off,
    /// Choose a prefilter automatically from the needle analysis.
    Auto,
}

impl Prefilter {
    /// True if and only if this setting disables prefilters.
    pub fn is_none(&self) -> (r: bool)
        ensures
            r <==> *self == Prefilter::Off,
    {
        match *self {
            Prefilter::Off => true,
            Prefilter::Auto => false,
        }
    }
}

impl Default for Prefilter {
    /// The default setting chooses a prefilter automatically.
    fn default() -> (r: Prefilter)
        ensures
            r == Prefilter::Auto,
    {
        Prefilter::Auto
    }
}

/// Tracks how effective a prefilter has been, as a pair of counters: the
/// number of skips attempted and the total number of bytes skipped. The
/// `skips` counter is kept one greater than the true count; the sentinel
/// value 0 means the state is inert and the prefilter must no longer be
/// used. An inert state never becomes effective again.
#[derive(Clone, Copy, Debug)]
pub struct PrefilterState {
    /// One more than the number of skips executed, or 0 when inert.
    pub skips: u32,
    /// The total number of bytes skipped, saturating.
    pub skipped: u32,
}

impl PrefilterState {
    /// The state is inert: the prefilter must not be used any more.
    pub open spec fn is_inert_spec(self) -> bool {
        self.skips == 0
    }

    /// The number of skips recorded so far.
    pub open spec fn skips_spec(self) -> int {
        if self.skips == 0 {
            0
        } else {
            self.skips - 1
        }
    }

    /// The state still considers the prefilter effective: it is not inert,
    /// and either too few skips have been attempted to judge, or the
    /// average number of bytes skipped per attempt is at least
    /// [`MIN_SKIP_BYTES`].
    pub open spec fn effective_spec(self) -> bool {
        &&& self.skips != 0
        &&& (self.skips - 1 < MIN_SKIPS || self.skipped >= MIN_SKIP_BYTES * (self.skips - 1))
    }

    /// The state after this one has recorded `probes` more prefilter
    /// probes that skipped `advanced` more bytes in total: both counters
    /// rise, saturating. Every prefilter routine promises that the state
    /// it hands back is of this shape (possibly zeroed by the
    /// effectiveness check), so a prefilter cannot leave its probes
    /// unaccounted.
    pub open spec fn recording(self, probes: int, advanced: int) -> PrefilterState {
        PrefilterState {
            skips: (if self.skips + probes > u32::MAX {
                u32::MAX as int
            } else {
                self.skips + probes
            }) as u32,
            skipped: (if self.skipped + advanced > u32::MAX {
                u32::MAX as int
            } else {
                self.skipped + advanced
            }) as u32,
        }
    }

    /// Create a fresh prefilter state.
    pub fn new() -> (r: PrefilterState)
        ensures
            r.skips == 1,
            r.skipped == 0,
            r.effective_spec(),
    {
        PrefilterState { skips: 1, skipped: 0 }
    }

    /// Create a prefilter state that is inert from the start.
    pub fn inert() -> (r: PrefilterState)
        ensures
            r.skips == 0,
            r.skipped == 0,
            !r.effective_spec(),
    {
        PrefilterState { skips: 0, skipped: 0 }
    }

    /// Record one prefilter invocation that skipped `skipped` bytes. Both
    /// counters saturate instead of overflowing.
    pub fn update(&mut self, skipped: usize)
        ensures
            final (self).skips == if old(self).skips == u32::MAX {
                u32::MAX as int
            } else {
                old(self).skips + 1
            },
            final (self).skipped == if old(self).skipped + skipped > u32::MAX {
                u32::MAX as int
            } else {
                old(self).skipped + skipped
            },
    {
        self.skips = self.skips.saturating_add(1);
        if skipped > u32::MAX as usize {
            self.skipped = u32::MAX;
        } else {
            self.skipped = self.skipped.saturating_add(skipped as u32);
        }
    }

    /// Return true if and only if this state indicates that a prefilter is
    /// still effective. When the answer is no, the state becomes (or
    /// remains) inert, so a later call answers no again: effectiveness,
    /// once lost, is never regained within a search.
    pub fn is_effective(&mut self) -> (r: bool)
        ensures
            r == old(self).effective_spec(),
            final (self).skipped == old(self).skipped,
            final (self).skips == if r {
                old(self).skips as int
            } else {
                0
            },
    {
        if self.is_inert() {
            return false;
        }
        if self.skips() < MIN_SKIPS {
            return true;
        }
        if (self.skipped as u64) >= (MIN_SKIP_BYTES as u64) * (self.skips() as u64) {
            return true;
        }
        // The prefilter has not been skipping enough: go inert.
        self.skips = 0;
        false
    }

    /// True if and only if the state is inert.
    pub fn is_inert(&self) -> (r: bool)
        ensures
            r == self.is_inert_spec(),
    {
        self.skips == 0
    }

    /// The number of skips recorded so far.
    pub fn skips(&self) -> (r: u32)
        ensures
            r == self.skips_spec(),
    {
        self.skips.saturating_sub(1)
    }
}

/// An inert state never reports the prefilter as effective. Together with
/// the contract of [`PrefilterState::is_effective`] — which leaves the
/// state inert whenever it answers no — this shows that once
/// `is_effective` has returned false, every later call returns false too.
pub proof fn lemma_ineffective_is_forever(s: PrefilterState)
    requires
        s.is_inert_spec(),
    ensures
        !s.effective_spec(),
{
}

/// Recording one more probe on an already-recorded state accumulates:
/// the saturating counters compose.
pub proof fn lemma_recording_step(s: PrefilterState, probes: int, advanced: int, d: int)
    requires
        0 <= probes,
        0 <= advanced,
        0 <= d,
    ensures
        s.recording(probes, advanced).recording(1, d) == s.recording(probes + 1, advanced + d),
{
}

/// Recording nothing changes nothing.
pub proof fn lemma_recording_zero(s: PrefilterState)
    ensures
        s.recording(0, 0) == s,
{
}

/// The two rare-byte offsets chosen for a needle, along with the needle's
/// Rabin-Karp hash.
///
/// For forward searches the offsets index the needle from its start. For
/// reverse searches they count from the end: offset 0 is the last byte.
/// Offsets are only computed for needles of length 2 through 255; outside
/// that range both offsets are 0 and the prefilter is made inert.
#[derive(Clone, Copy, Debug)]
pub struct NeedleInfo {
    /// The offset of the byte believed rarest in the needle.
    pub rare1i: u8,
    /// The offset of the second rarest, distinct byte.
    pub rare2i: u8,
    /// The needle's Rabin-Karp hash.
    pub nhash: NeedleHash,
}

impl NeedleInfo {
    /// The offsets are in bounds for the needle `n`, and distinct whenever
    /// rare bytes were actually computed.
    pub open spec fn offsets_valid(self, n: Seq<u8>) -> bool {
        if 2 <= n.len() <= 255 {
            self.rare1i < n.len() && self.rare2i < n.len() && self.rare1i != self.rare2i
        } else {
            self.rare1i == 0 && self.rare2i == 0
        }
    }

    /// Analyze a needle for forward searching: pick the two rarest,
    /// distinct needle bytes by frequency rank. With `skip_first_byte`,
    /// the first needle byte is ignored for needles of at least 3 bytes;
    /// this suits callers that anchor the first byte separately.
    ///
    /// The offsets name occurrences of the chosen byte values, not
    /// necessarily their first occurrences in the needle. The prefilter
    /// contracts are proved for arbitrary in-bounds offsets, so no remap
    /// to first occurrences is needed for their no-miss guarantees; a
    /// remap would also collide with the distinctness of the two offsets
    /// on needles whose two picks share a byte value.
    pub fn forward(needle: &[u8], skip_first_byte: bool) -> (r: NeedleInfo)
        ensures
            r.offsets_valid(needle@),
            r.nhash.wf(needle@),
            2 <= needle@.len() <= 255 ==> spec_rank(needle@[r.rare1i as int]) <= spec_rank(
                needle@[r.rare2i as int],
            ),
    {
        let nhash = NeedleHash::new(needle);
        if needle.len() <= 1 || needle.len() > 255 {
            return NeedleInfo { rare1i: 0, rare2i: 0, nhash };
        }
        let start: usize = if skip_first_byte && needle.len() >= 3 {
            1
        } else {
            0
        };
        let mut rare1 = needle[start];
        let mut rare1i = start as u8;
        let mut rare2 = needle[start + 1];
        let mut rare2i = (start + 1) as u8;
        if rank(rare2) < rank(rare1) {
            let tb = rare1;
            rare1 = rare2;
            rare2 = tb;
            let ti = rare1i;
            rare1i = rare2i;
            rare2i = ti;
        }
        let mut i: usize = start + 2;
        while i < needle.len()
            invariant
                2 <= needle@.len() <= 255,
                i <= needle@.len(),
                rare1i < needle@.len(),
                rare2i < needle@.len(),
                rare1i != rare2i,
                rare1i < i,
                rare2i < i,
                i >= 2,
                rare1 == needle@[rare1i as int],
                rare2 == needle@[rare2i as int],
                spec_rank(rare1) <= spec_rank(rare2),
            decreases needle@.len() - i,
        {
            let b = needle[i];
            if rank(b) < rank(rare1) {
                rare2 = rare1;
                rare2i = rare1i;
                rare1 = b;
                rare1i = i as u8;
            } else if b != rare1 && rank(b) < rank(rare2) {
                rare2 = b;
                rare2i = i as u8;
            }
            i += 1;
        }
        NeedleInfo { rare1i, rare2i, nhash }
    }

    /// Analyze a needle for reverse searching. The offsets count from the
    /// end of the needle: offset 0 names the last byte. As in the forward
    /// direction, the offsets need not name first occurrences.
    pub fn reverse(needle: &[u8], skip_first_byte: bool) -> (r: NeedleInfo)
        ensures
            r.offsets_valid(needle@),
            r.nhash.wf_rev(needle@),
            2 <= needle@.len() <= 255 ==> spec_rank(needle@[needle@.len() - r.rare1i - 1])
                <= spec_rank(needle@[needle@.len() - r.rare2i - 1]),
    {
        let nhash = NeedleHash::new_rev(needle);
        if needle.len() <= 1 || needle.len() > 255 {
            return NeedleInfo { rare1i: 0, rare2i: 0, nhash };
        }
        let start: usize = if skip_first_byte && needle.len() >= 3 {
            1
        } else {
            0
        };
        let mut rare1i = start as u8;
        let mut rare2i = (start + 1) as u8;
        let mut rare1 = needle[needle.len() - start - 1];
        let mut rare2 = needle[needle.len() - start - 2];
        if rank(rare2) < rank(rare1) {
            let tb = rare1;
            rare1 = rare2;
            rare2 = tb;
            let ti = rare1i;
            rare1i = rare2i;
            rare2i = ti;
        }
        let mut i: usize = start + 2;
        while i < needle.len()
            invariant
                2 <= needle@.len() <= 255,
                i <= needle@.len(),
                rare1i < needle@.len(),
                rare2i < needle@.len(),
                rare1i != rare2i,
                rare1i < i,
                rare2i < i,
                i >= 2,
                rare1 == needle@[needle@.len() - rare1i - 1],
                rare2 == needle@[needle@.len() - rare2i - 1],
                spec_rank(rare1) <= spec_rank(rare2),
            decreases needle@.len() - i,
        {
            let b = needle[needle.len() - i - 1];
            if rank(b) < rank(rare1) {
                rare2 = rare1;
                rare2i = rare1i;
                rare1 = b;
                rare1i = i as u8;
            } else if b != rare1 && rank(b) < rank(rare2) {
                rare2 = b;
                rare2i = i as u8;
            }
            i += 1;
        }
        NeedleInfo { rare1i, rare2i, nhash }
    }

    /// Return the rare bytes of the given needle in the forward direction.
    /// The needle must be the one this info was computed for.
    pub fn fwd_rare(&self, needle: &[u8]) -> (r: (u8, u8))
        requires
            self.rare1i < needle@.len(),
            self.rare2i < needle@.len(),
        ensures
            r.0 == needle@[self.rare1i as int],
            r.1 == needle@[self.rare2i as int],
    {
        (needle[self.rare1i as usize], needle[self.rare2i as usize])
    }

    /// Return the rare bytes of the given needle in the reverse direction.
    /// The needle must be the one this info was computed for.
    pub fn rev_rare(&self, needle: &[u8]) -> (r: (u8, u8))
        requires
            self.rare1i < needle@.len(),
            self.rare2i < needle@.len(),
        ensures
            r.0 == needle@[needle@.len() - self.rare1i - 1],
            r.1 == needle@[needle@.len() - self.rare2i - 1],
    {
        let i1 = needle.len() - self.rare1i as usize - 1;
        let i2 = needle.len() - self.rare2i as usize - 1;
        (needle[i1], needle[i2])
    }

    /// Return the rare offsets with the smaller one first. Useful when a
    /// prefilter only needs the offsets ordered, not ranked by rarity.
    pub fn as_rare_ordered_usize(&self) -> (r: (usize, usize))
        ensures
            r.0 <= r.1,
            (r.0 == self.rare1i && r.1 == self.rare2i) || (r.0 == self.rare2i && r.1
                == self.rare1i),
    {
        if self.rare1i <= self.rare2i {
            (self.rare1i as usize, self.rare2i as usize)
        } else {
            (self.rare2i as usize, self.rare1i as usize)
        }
    }

    /// Return the rare offsets in rarity order: the offset of the rarest
    /// byte first.
    pub fn as_rare_usize(&self) -> (r: (usize, usize))
        ensures
            r.0 == self.rare1i,
            r.1 == self.rare2i,
    {
        (self.rare1i as usize, self.rare2i as usize)
    }
}

/// The frequency-based prefilter for one needle: its rare-byte analysis
/// and a flag that records whether the prefilter was disabled at
/// construction (a setting of [`Prefilter::Off`], a needle outside the
/// supported length range, or a rarest byte that is itself too common).
#[derive(Clone, Copy, Debug)]
pub struct Freqy {
    /// The needle analysis.
    pub ninfo: NeedleInfo,
    /// The prefilter was disabled at construction time.
    pub inert: bool,
}

impl Freqy {
    /// The analysis fits the needle `n`, for forward searching.
    pub open spec fn wf_fwd(self, n: Seq<u8>) -> bool {
        &&& self.ninfo.offsets_valid(n)
        &&& self.ninfo.nhash.wf(n)
    }

    /// The analysis fits the needle `n`, for reverse searching.
    pub open spec fn wf_rev(self, n: Seq<u8>) -> bool {
        &&& self.ninfo.offsets_valid(n)
        &&& self.ninfo.nhash.wf_rev(n)
    }

    /// Analyze a needle for forward searching and decide whether the
    /// prefilter may be used at all.
    pub fn forward(config: &Prefilter, needle: &[u8]) -> (r: Freqy)
        ensures
            r.wf_fwd(needle@),
            r.inert == (*config == Prefilter::Off || needle@.len() < 2 || needle@.len() > 255
                || spec_rank(needle@[r.ninfo.rare1i as int]) > MAX_FALLBACK_RANK as int),
    {
        let ninfo = NeedleInfo::forward(needle, false);
        let mut inert = false;
        if config.is_none() || needle.len() <= 1 || needle.len() > 255 {
            inert = true;
        } else {
            let (rare1, _) = ninfo.fwd_rare(needle);
            if rank(rare1) > MAX_FALLBACK_RANK {
                inert = true;
            }
        }
        Freqy { ninfo, inert }
    }

    /// Analyze a needle for reverse searching and decide whether the
    /// prefilter may be used at all.
    pub fn reverse(config: &Prefilter, needle: &[u8]) -> (r: Freqy)
        ensures
            r.wf_rev(needle@),
            r.inert == (*config == Prefilter::Off || needle@.len() < 2 || needle@.len() > 255
                || spec_rank(needle@[needle@.len() - r.ninfo.rare1i - 1]) > MAX_FALLBACK_RANK
                as int),
    {
        let ninfo = NeedleInfo::reverse(needle, false);
        let mut inert = false;
        if config.is_none() || needle.len() <= 1 || needle.len() > 255 {
            inert = true;
        } else {
            let (rare1, _) = ninfo.rev_rare(needle);
            if rank(rare1) > MAX_FALLBACK_RANK {
                inert = true;
            }
        }
        Freqy { ninfo, inert }
    }

    /// An always-disabled prefilter for the given needle.
    pub fn inert(needle: &[u8]) -> (r: Freqy)
        ensures
            r.wf_fwd(needle@),
            r.inert,
    {
        Freqy { ninfo: NeedleInfo::forward(needle, false), inert: true }
    }

    /// Return a fresh prefilter state for a search with this prefilter:
    /// inert from the start when the prefilter is disabled, effective
    /// otherwise. The state should be reused across the steps of one
    /// iterator, and created anew for each independent search.
    pub fn state(&self) -> (r: PrefilterState)
        ensures
            r.skipped == 0,
            r.skips == if self.inert {
                0int
            } else {
                1int
            },
    {
        if self.inert {
            PrefilterState::inert()
        } else {
            PrefilterState::new()
        }
    }

    /// Run the forward prefilter over the haystack: chunked scanning with
    /// a chunk width chosen from the haystack length. Returns a candidate
    /// position with everything before it proved matchless, or `None`
    /// when the needle occurs nowhere. Exactly one probe is recorded in
    /// the state, crediting the bytes ruled out.
    pub fn find(
        &self,
        state: &mut PrefilterState,
        haystack: &[u8],
        needle: &[u8],
    ) -> (r: Option<usize>)
        requires
            self.wf_fwd(needle@),
            needle@.len() >= 1,
        ensures
            match r {
                Some(q) => q < haystack@.len() && forall|k: int|
                    0 <= k < q ==> !matches_at(haystack@, needle@, k),
                None => forall|k: int| !matches_at(haystack@, needle@, k),
            },
            *final (state) == old(state).recording(
                1,
                match r {
                    Some(q) => q as int,
                    None => haystack@.len() as int,
                },
            ),
            ({
                let lo = if self.ninfo.rare1i <= self.ninfo.rare2i {
                    self.ninfo.rare1i as int
                } else {
                    self.ninfo.rare2i as int
                };
                let hi = if self.ninfo.rare1i <= self.ninfo.rare2i {
                    self.ninfo.rare2i as int
                } else {
                    self.ninfo.rare1i as int
                };
                // A candidate from the chunked regime has both rare bytes
                // aligned.
                haystack@.len() >= hi + 16 && r is Some ==> {
                    let q = r->Some_0;
                    &&& q + hi < haystack@.len()
                    &&& haystack@[q + lo] == needle@[lo]
                    &&& haystack@[q + hi] == needle@[hi]
                }
            }),
    {
        let (_, hi) = self.ninfo.as_rare_ordered_usize();
        if haystack.len() >= hi + 32 {
            wide::find(state, &self.ninfo, haystack, needle, 32)
        } else {
            wide::find(state, &self.ninfo, haystack, needle, 16)
        }
    }

    /// Run the reverse prefilter over the haystack: the reverse direction
    /// uses only the scalar variant. Returns the position just after a
    /// candidate occurrence, with every later ending proved matchless, or
    /// `None` when the needle occurs nowhere. The state records one skip
    /// per probe made, or has been zeroed by the effectiveness check.
    pub fn rfind(
        &self,
        state: &mut PrefilterState,
        haystack: &[u8],
        needle: &[u8],
    ) -> (r: Option<usize>)
        requires
            self.wf_rev(needle@),
            needle@.len() >= 1,
        ensures
            match r {
                Some(q) => q <= haystack@.len() && forall|k: int|
                    k + needle@.len() > q ==> !matches_at(haystack@, needle@, k),
                None => forall|k: int| !matches_at(haystack@, needle@, k),
            },
            !old(state).effective_spec() ==> r is Some && r->Some_0 == haystack@.len(),
            exists|probes: int, advanced: int|
                #![trigger old(state).recording(probes, advanced)]
                {
                    &&& 0 <= probes
                    &&& 0 <= advanced <= haystack@.len()
                    &&& (old(state).effective_spec() ==> probes >= 1)
                    &&& (*final (state) == old(state).recording(probes, advanced) || (final (
                    state).skips == 0 && final (state).skipped == old(state).recording(
                        probes,
                        advanced,
                    ).skipped))
                },
    {
        fallback::rfind(state, &self.ninfo, haystack, needle)
    }
}

} // verus!
