//! Behavioural tests for the search routines: literal scenarios, naive
//! cross-checks over generated corpora, iterator laws, and the adaptive
//! prefilter state.

use memchr::memmem::prefilter::{rank, Freqy, NeedleInfo, Prefilter, PrefilterState};
use memchr::memmem::rabinkarp;
use memchr::memmem::rabinkarp::NeedleHash;
use memchr::memmem::twoway::{reverse_bytes, TwoWay};
use memchr::memmem::util;
use memchr::memmem::{memmem, memmem_iter, memrmem, memrmem_iter, Finder, FinderBuilder, FinderRev};

fn naive_find(haystack: &[u8], needle: &[u8]) -> Option<usize> {
    if needle.is_empty() {
        return Some(0);
    } else if haystack.len() < needle.len() {
        return None;
    }
    for i in 0..(haystack.len() - needle.len() + 1) {
        if needle == &haystack[i..i + needle.len()] {
            return Some(i);
        }
    }
    None
}

fn naive_rfind(haystack: &[u8], needle: &[u8]) -> Option<usize> {
    if needle.is_empty() {
        return Some(haystack.len());
    } else if haystack.len() < needle.len() {
        return None;
    }
    for i in (0..(haystack.len() - needle.len() + 1)).rev() {
        if needle == &haystack[i..i + needle.len()] {
            return Some(i);
        }
    }
    None
}

#[test]
fn simple_scenarios() {
    let haystack = b"foo bar baz";
    assert_eq!(Some(0), memmem(haystack, b"foo"));
    assert_eq!(Some(4), memmem(haystack, b"bar"));
    assert_eq!(None, memmem(haystack, b"quux"));
    assert_eq!(Some(0), memrmem(haystack, b"foo"));
    assert_eq!(Some(4), memrmem(haystack, b"bar"));
    assert_eq!(Some(8), memrmem(haystack, b"ba"));
    assert_eq!(None, memrmem(haystack, b"quux"));
}

#[test]
fn reverse_iterator_yields_descending() {
    let haystack = b"foo bar foo baz foo";
    assert_eq!(Some(16), memrmem(haystack, b"foo"));
    let mut it = memrmem_iter(haystack, b"foo");
    assert_eq!(Some(16), it.next());
    assert_eq!(Some(8), it.next());
    assert_eq!(Some(0), it.next());
    assert_eq!(None, it.next());
}

#[test]
fn forward_iterator_yields_ascending() {
    let haystack = b"foo bar foo baz foo";
    let mut it = memmem_iter(haystack, b"foo");
    assert_eq!(Some(0), it.next());
    assert_eq!(Some(8), it.next());
    assert_eq!(Some(16), it.next());
    assert_eq!(None, it.next());
}

#[test]
fn iterator_advances_past_whole_match() {
    // Occurrences of "aa" in "aaaa" overlap; the iterator reports only
    // the non-overlapping ones.
    let mut it = memmem_iter(b"aaaa", b"aa");
    assert_eq!(Some(0), it.next());
    assert_eq!(Some(2), it.next());
    assert_eq!(None, it.next());
    let mut rit = memrmem_iter(b"aaaa", b"aa");
    assert_eq!(Some(2), rit.next());
    assert_eq!(Some(0), rit.next());
    assert_eq!(None, rit.next());
}

#[test]
fn empty_needle_laws() {
    assert_eq!(Some(0), memmem(b"", b""));
    assert_eq!(Some(0), memmem(b"abc", b""));
    assert_eq!(Some(0), memrmem(b"", b""));
    assert_eq!(Some(3), memrmem(b"abc", b""));
    let mut it = memmem_iter(b"abc", b"");
    assert_eq!(Some(0), it.next());
    assert_eq!(Some(1), it.next());
    assert_eq!(Some(2), it.next());
    assert_eq!(Some(3), it.next());
    assert_eq!(None, it.next());
    let mut rit = memrmem_iter(b"abc", b"");
    assert_eq!(Some(3), rit.next());
    assert_eq!(Some(2), rit.next());
    assert_eq!(Some(1), rit.next());
    assert_eq!(Some(0), rit.next());
    assert_eq!(None, rit.next());
    let mut empty_it = memmem_iter(b"", b"");
    assert_eq!(Some(0), empty_it.next());
    assert_eq!(None, empty_it.next());
    let mut empty_rit = memrmem_iter(b"", b"");
    assert_eq!(Some(0), empty_rit.next());
    assert_eq!(None, empty_rit.next());
}

#[test]
fn long_needle_scenarios() {
    assert_eq!(Some(0), memmem(b"abczdefzzzzzzzzzzzzzzzzzzzz", b"abczdef"));
    assert_eq!(Some(20), memmem(b"zzzzzzzzzzzzzzzzzzzzabczdef", b"abczdef"));
    assert_eq!(Some(32), memmem(b"aaaaaaaaaaaaaaaaaaaaaaaaaaaaaaaaxyz", b"xyz"));
}

#[test]
fn regression_short_binary_needles() {
    assert_eq!(Some(0), memmem(b"\x00\x15\x15\x00", b"\x00\x15"));
    assert_eq!(None, memmem(b"\x1e\x00", b"\x00\x1e"));
}

#[test]
fn pathological_repeated_prefix_is_fast() {
    // A periodic haystack with the match at the very end: must finish
    // quickly and find the single occurrence.
    let mut haystack = vec![b'a'; 10000];
    haystack.push(b'z');
    let mut needle = vec![b'a'; 32];
    needle.push(b'z');
    assert_eq!(Some(9968), memmem(&haystack, &needle));
    assert_eq!(Some(9968), memrmem(&haystack, &needle));
}

#[test]
fn needles_longer_than_rare_byte_tracking() {
    // Needles over 255 bytes skip rare-byte tracking entirely; the search
    // must still be exact.
    let mut haystack = vec![b'q'; 900];
    let needle: Vec<u8> = (0..300u32).map(|i| (i % 7) as u8 + b'a').collect();
    haystack[500..800].copy_from_slice(&needle);
    assert_eq!(Some(500), memmem(&haystack, &needle));
    assert_eq!(Some(500), memrmem(&haystack, &needle));
    let absent: Vec<u8> = vec![b'r'; 300];
    assert_eq!(None, memmem(&haystack, &absent));
    assert_eq!(None, memrmem(&haystack, &absent));
}

#[test]
fn prefix_is_substring() {
    let samples: Vec<&[u8]> = vec![
        b"apple banana cherry",
        b"aaaaaaaaaaaaaaaaaaaaaaaaaaaaaaaaaaaaaaaaaaaaaaaaaaaaaaaaaaaaaaaaaaaaaaaa",
        b"abc\x00def\x15ghi\x00\x15",
        b"the quick brown fox jumps over the lazy dog and keeps on running today",
    ];
    for bs in samples {
        for i in 0..bs.len() {
            let prefix = &bs[..i];
            assert_eq!(Some(0), memmem(bs, prefix), "prefix of length {}", i);
        }
    }
}

#[test]
fn suffix_is_substring() {
    let samples: Vec<&[u8]> = vec![
        b"apple banana cherry",
        b"aaaaaaaaaaaaaaaaaaaaaaaaaaaaaaaaaaaaaaaaaaaaaaaaaaaaaaaaaaaaaaaaaaaaaaaa",
        b"abc\x00def\x15ghi\x00\x15",
        b"the quick brown fox jumps over the lazy dog and keeps on running today",
    ];
    for bs in samples {
        for i in 0..bs.len() {
            let suffix = &bs[i..];
            assert_eq!(Some(i), memrmem(bs, suffix), "suffix from {}", i);
            assert_eq!(naive_find(bs, suffix), memmem(bs, suffix), "suffix from {}", i);
        }
    }
}

/// A small deterministic generator, so the naive cross-checks run the
/// same cases every time.
struct Lcg(u64);

impl Lcg {
    fn next(&mut self) -> u64 {
        self.0 = self.0.wrapping_mul(6364136223846793005).wrapping_add(1442695040888963407);
        self.0 >> 33
    }

    fn below(&mut self, n: usize) -> usize {
        (self.next() % (n as u64)) as usize
    }
}

#[test]
fn matches_naive_on_generated_corpus() {
    let mut rng = Lcg(0xdeadbeef);
    let alphabets: Vec<&[u8]> = vec![b"ab", b"abc", b"az\x00\xff", b" etaoinshr"];
    for round in 0..400 {
        let alphabet = alphabets[round % alphabets.len()];
        let hlen = rng.below(180);
        let haystack: Vec<u8> =
            (0..hlen).map(|_| alphabet[rng.below(alphabet.len())]).collect();
        // A needle drawn from the haystack (likely present) and a random
        // one (likely absent), over several lengths.
        for nlen in [0usize, 1, 2, 3, 5, 8, 17, 40] {
            let random: Vec<u8> =
                (0..nlen).map(|_| alphabet[rng.below(alphabet.len())]).collect();
            assert_eq!(naive_find(&haystack, &random), memmem(&haystack, &random));
            assert_eq!(naive_rfind(&haystack, &random), memrmem(&haystack, &random));
            if nlen <= hlen && hlen > 0 {
                let start = rng.below(hlen - nlen + 1);
                let drawn = haystack[start..start + nlen].to_vec();
                assert_eq!(naive_find(&haystack, &drawn), memmem(&haystack, &drawn));
                assert_eq!(naive_rfind(&haystack, &drawn), memrmem(&haystack, &drawn));
            }
        }
    }
}

#[test]
fn iterator_matches_naive_scan() {
    let mut rng = Lcg(42);
    for _ in 0..200 {
        let hlen = rng.below(150);
        let haystack: Vec<u8> = (0..hlen).map(|_| b"ab"[rng.below(2)]).collect();
        let nlen = rng.below(4);
        let needle: Vec<u8> = (0..nlen).map(|_| b"ab"[rng.below(2)]).collect();
        // Collect the iterator's output and replay the definition: each
        // yield is the first match at or after the cursor, and the
        // cursor advances by max(1, needle length).
        let mut it = memmem_iter(&haystack, &needle);
        let mut expected = vec![];
        let mut pos = 0usize;
        while pos <= haystack.len() {
            match naive_find(&haystack[pos..], &needle) {
                None => break,
                Some(i) => {
                    expected.push(pos + i);
                    pos = pos + i + std::cmp::max(1, needle.len());
                },
            }
        }
        let mut got = vec![];
        while let Some(i) = it.next() {
            got.push(i);
        }
        assert_eq!(expected, got);
        // Ascending with the promised gap.
        for w in got.windows(2) {
            assert!(w[1] >= w[0] + std::cmp::max(1, needle.len()));
        }
    }
}

#[test]
fn finder_reuse_and_views() {
    let finder = Finder::new(b"bar");
    assert_eq!(b"bar" as &[u8], finder.needle());
    assert_eq!(Some(4), finder.find(b"foo bar baz"));
    assert_eq!(None, finder.find(b"quux"));
    let copy = finder.as_ref();
    assert_eq!(Some(4), copy.find(b"foo bar baz"));
    let owned = finder.into_owned();
    assert_eq!(Some(4), owned.find(b"foo bar baz"));
    let mut it = owned.find_iter(b"bar bar");
    assert_eq!(Some(0), it.next());
    assert_eq!(Some(4), it.next());
    assert_eq!(None, it.next());

    let rev = FinderRev::new(b"bar");
    assert_eq!(b"bar" as &[u8], rev.needle());
    assert_eq!(Some(4), rev.rfind(b"foo bar baz"));
    let rcopy = rev.as_ref();
    assert_eq!(Some(4), rcopy.rfind(b"foo bar baz"));
    let rowned = rev.into_owned();
    let mut rit = rowned.rfind_iter(b"bar bar");
    assert_eq!(Some(4), rit.next());
    assert_eq!(Some(0), rit.next());
    assert_eq!(None, rit.next());
}

#[test]
fn builder_prefilter_off_agrees() {
    // Disabling the prefilter must not change any answer (only speed).
    let mut rng = Lcg(7);
    for _ in 0..150 {
        let hlen = rng.below(200);
        let haystack: Vec<u8> = (0..hlen).map(|_| b"abcz"[rng.below(4)]).collect();
        let nlen = rng.below(12);
        let needle: Vec<u8> = (0..nlen).map(|_| b"abcz"[rng.below(4)]).collect();
        let mut builder = FinderBuilder::new();
        builder.prefilter(Prefilter::Off);
        let plain = builder.build_forward(&needle);
        let auto = Finder::new(&needle);
        assert_eq!(auto.find(&haystack), plain.find(&haystack));
        assert_eq!(naive_find(&haystack, &needle), plain.find(&haystack));
        let rev_plain = builder.build_reverse(&needle);
        assert_eq!(naive_rfind(&haystack, &needle), rev_plain.rfind(&haystack));
    }
}

#[test]
fn rabinkarp_agrees_with_naive() {
    let mut rng = Lcg(99);
    for _ in 0..300 {
        let hlen = rng.below(80);
        let haystack: Vec<u8> = (0..hlen).map(|_| b"xyz"[rng.below(3)]).collect();
        let nlen = rng.below(6);
        let needle: Vec<u8> = (0..nlen).map(|_| b"xyz"[rng.below(3)]).collect();
        assert_eq!(naive_find(&haystack, &needle), rabinkarp::find(&haystack, &needle));
        assert_eq!(naive_rfind(&haystack, &needle), rabinkarp::rfind(&haystack, &needle));
    }
}

#[test]
fn prefilter_state_goes_inert_and_stays() {
    let mut state = PrefilterState::new();
    assert!(!state.is_inert());
    // Plenty of attempts, none of which skipped anything: after the
    // minimum number of attempts the state must go inert, and stay so.
    for _ in 0..60 {
        if state.is_effective() {
            state.update(0);
        }
    }
    assert!(!state.is_effective());
    assert!(state.is_inert());
    for _ in 0..5 {
        assert!(!state.is_effective());
        assert!(state.is_inert());
    }
    // A state that skips generously stays effective.
    let mut good = PrefilterState::new();
    for _ in 0..500 {
        assert!(good.is_effective());
        good.update(1000);
    }
    assert!(good.is_effective());
    assert_eq!(500, good.skips());
    // An inert state reports ineffective from the start.
    let mut inert = PrefilterState::inert();
    assert!(!inert.is_effective());
}

#[test]
fn rolling_hash_tracks_windows() {
    // Rolling the hash across the haystack must agree, window for
    // window, with hashing each window from scratch.
    let h = b"abracadabra alakazam";
    let n = 5usize;
    let nhash = NeedleHash::new(&h[..n]);
    let mut hash = memchr::memmem::rabinkarp::Hash::from_bytes(&h[..n]);
    assert!(nhash.eq(hash));
    for i in 0..(h.len() - n) {
        hash.roll(&nhash, h[i], h[i + n]);
        let direct = memchr::memmem::rabinkarp::Hash::from_bytes(&h[i + 1..i + 1 + n]);
        assert!(hash == direct, "window at {}", i + 1);
    }
}

#[test]
fn prefilter_default_is_auto() {
    assert!(!Prefilter::default().is_none());
    assert!(Prefilter::Off.is_none());
    assert!(!Prefilter::Auto.is_none());
}

#[test]
fn freqy_construction_controls_prefilter() {
    // An explicit off switch, a too-short needle and a too-long needle
    // all disable the prefilter; an ordinary needle keeps it.
    assert!(Freqy::forward(&Prefilter::Off, b"abcdef").inert);
    assert!(Freqy::forward(&Prefilter::Auto, b"").inert);
    assert!(Freqy::forward(&Prefilter::Auto, b"a").inert);
    let long = vec![b'a'; 300];
    assert!(Freqy::forward(&Prefilter::Auto, &long).inert);
    let f = Freqy::forward(&Prefilter::Auto, b"qzx");
    assert!(!f.inert);
    assert!(!f.state().is_inert());
    assert!(Freqy::forward(&Prefilter::Off, b"qzx").state().is_inert());
    assert!(!Freqy::reverse(&Prefilter::Auto, b"qzx").inert);
    assert!(Freqy::reverse(&Prefilter::Off, b"qzx").inert);
    assert!(Freqy::inert(b"qzx").inert);
    // Letters rank roughly by how common they are in text.
    assert!(rank(b'z') < rank(b'e'));
    assert!(rank(b'q') < rank(b'a'));
    assert!(rank(b'\x10') < rank(b' '));
}

#[test]
fn needle_info_offsets_are_valid() {
    let needles: Vec<&[u8]> = vec![b"ab", b"zz", b"abcz", b"aaaz", b"zyzy", b"the quick brown"];
    for needle in needles {
        let fwd = NeedleInfo::forward(needle, false);
        assert!((fwd.rare1i as usize) < needle.len());
        assert!((fwd.rare2i as usize) < needle.len());
        assert_ne!(fwd.rare1i, fwd.rare2i);
        let (r1, r2) = fwd.fwd_rare(needle);
        assert_eq!(needle[fwd.rare1i as usize], r1);
        assert_eq!(needle[fwd.rare2i as usize], r2);
        let (lo, hi) = fwd.as_rare_ordered_usize();
        assert!(lo <= hi);
        let rev = NeedleInfo::reverse(needle, false);
        assert!((rev.rare1i as usize) < needle.len());
        assert!((rev.rare2i as usize) < needle.len());
        assert_ne!(rev.rare1i, rev.rare2i);
        let (s1, s2) = rev.rev_rare(needle);
        assert_eq!(needle[needle.len() - rev.rare1i as usize - 1], s1);
        assert_eq!(needle[needle.len() - rev.rare2i as usize - 1], s2);
    }
    // In skip-first-byte mode the first needle byte is never chosen.
    let skipped = NeedleInfo::forward(b"zab", true);
    assert!(skipped.rare1i >= 1);
    assert!(skipped.rare2i >= 1);
    // Degenerate lengths give the fixed zero offsets.
    let tiny = NeedleInfo::forward(b"a", false);
    assert_eq!((0, 0), (tiny.rare1i, tiny.rare2i));
}

#[test]
fn memchr_variants() {
    let h = b"abcabc\x00xyz";
    assert_eq!(Some(0), memchr::memchr(b'a', h));
    assert_eq!(Some(6), memchr::memchr(b'\x00', h));
    assert_eq!(None, memchr::memchr(b'q', h));
    assert_eq!(Some(1), memchr::memchr2(b'b', b'c', h));
    assert_eq!(Some(2), memchr::memchr3(b'z', b'y', b'c', h));
    assert_eq!(Some(3), memchr::memrchr(b'a', h));
    assert_eq!(Some(5), memchr::memrchr2(b'b', b'c', h));
    assert_eq!(Some(9), memchr::memrchr3(b'z', b'a', b'c', h));
    assert_eq!(None, memchr::memrchr3(b'q', b'r', b's', h));
}

#[test]
fn util_comparisons() {
    assert!(util::memcmp(b"", b""));
    assert!(util::memcmp(b"abc", b"abc"));
    assert!(!util::memcmp(b"abc", b"abd"));
    assert!(!util::memcmp(b"abc", b"ab"));
    assert!(util::is_prefix(b"abcdef", b"abc"));
    assert!(!util::is_prefix(b"abcdef", b"abd"));
    assert!(util::is_prefix(b"abc", b""));
    assert!(!util::is_prefix(b"ab", b"abc"));
    assert!(util::is_suffix(b"abcdef", b"def"));
    assert!(!util::is_suffix(b"abcdef", b"dee"));
    assert!(util::is_suffix(b"abc", b""));
    assert!(util::matches_here(b"abcdef", b"cde", 2));
    assert!(!util::matches_here(b"abcdef", b"cde", 3));
}

#[test]
fn twoway_finds_exact_matches() {
    let tw = TwoWay::new(b"bar").unwrap();
    assert_eq!(Some(4), tw.find(b"foo bar baz", b"bar"));
    assert_eq!(Some(0), tw.find(b"barbar", b"bar"));
    assert_eq!(None, tw.find(b"quux", b"bar"));
    assert_eq!(None, tw.find(b"ba", b"bar"));
    let rneedle = reverse_bytes(b"bar");
    let rtw = TwoWay::new(&rneedle).unwrap();
    assert_eq!(Some(4), rtw.rfind(b"bar bar", &rneedle));
    assert_eq!(Some(0), rtw.rfind(b"barb", &rneedle));
    assert_eq!(None, rtw.rfind(b"quux", &rneedle));
}

#[test]
fn twoway_declines_short_period_needles() {
    // Highly periodic needles fall in the short-period case of the
    // factorization; certification fails and another searcher is used.
    assert!(TwoWay::new(b"").is_none());
    assert!(TwoWay::new(b"a").is_none());
    assert!(TwoWay::new(b"aaaa").is_none());
    assert!(TwoWay::new(b"abab").is_none());
    // Aperiodic needles certify.
    assert!(TwoWay::new(b"ab").is_some());
    assert!(TwoWay::new(b"aaab").is_some());
    assert!(TwoWay::new(b"abczdef").is_some());
}

#[test]
fn twoway_agrees_with_naive() {
    let mut rng = Lcg(1234);
    for _ in 0..300 {
        let hlen = rng.below(120);
        let haystack: Vec<u8> = (0..hlen).map(|_| b"abc"[rng.below(3)]).collect();
        let nlen = 2 + rng.below(6);
        let needle: Vec<u8> = (0..nlen).map(|_| b"abc"[rng.below(3)]).collect();
        if let Some(tw) = TwoWay::new(&needle) {
            assert_eq!(naive_find(&haystack, &needle), tw.find(&haystack, &needle));
            let rneedle = reverse_bytes(&needle);
            if let Some(rtw) = TwoWay::new(&rneedle) {
                assert_eq!(naive_rfind(&haystack, &needle), rtw.rfind(&haystack, &rneedle));
            }
        }
    }
}

#[test]
fn pathological_with_prefilter_off_is_fast() {
    // With the prefilter forced off, the periodic haystack runs through
    // the Two-Way engine and must still finish quickly and exactly.
    let mut haystack = vec![b'a'; 10000];
    haystack.push(b'z');
    let mut needle = vec![b'a'; 32];
    needle.push(b'z');
    let mut builder = FinderBuilder::new();
    builder.prefilter(Prefilter::Off);
    assert_eq!(Some(9968), builder.build_forward(&needle).find(&haystack));
    assert_eq!(Some(9968), builder.build_reverse(&needle).rfind(&haystack));
}

#[test]
fn twoway_certification_is_exact() {
    // Any properly splitting position without a short local period
    // certifies; a matcher built at any certified position is exact.
    assert!(TwoWay::with_crit_pos(b"bar", 1).is_some());
    assert!(TwoWay::with_crit_pos(b"bar", 2).is_some());
    assert!(TwoWay::with_crit_pos(b"bar", 0).is_none());
    assert!(TwoWay::with_crit_pos(b"bar", 3).is_none());
    // "abab" has local period 2 everywhere: no position certifies.
    assert!(TwoWay::with_crit_pos(b"abab", 1).is_none());
    assert!(TwoWay::with_crit_pos(b"abab", 2).is_none());
    assert!(TwoWay::with_crit_pos(b"abab", 3).is_none());
    let tw = TwoWay::with_crit_pos(b"bar", 1).unwrap();
    assert_eq!(Some(4), tw.find(b"foo bar", b"bar"));
    assert_eq!(None, tw.find(b"foo baz", b"bar"));
}
