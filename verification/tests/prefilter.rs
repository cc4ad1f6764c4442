//! Tests for the rare-byte prefilters: hand-written cases for the scalar
//! fallback, and a permutation suite that runs every prefilter variant
//! over planted needles at every offset of small haystacks.

use memchr::memmem::prefilter::{fallback, wide, NeedleInfo, PrefilterState};
use memchr::memmem::rabinkarp::NeedleHash;

type PrefilterFn = fn(&mut PrefilterState, &NeedleInfo, &[u8], &[u8]) -> Option<usize>;

fn fallback_prefn(
    prestate: &mut PrefilterState,
    ninfo: &NeedleInfo,
    haystack: &[u8],
    needle: &[u8],
) -> Option<usize> {
    fallback::find(prestate, ninfo, haystack, needle)
}

fn wide16_prefn(
    prestate: &mut PrefilterState,
    ninfo: &NeedleInfo,
    haystack: &[u8],
    needle: &[u8],
) -> Option<usize> {
    wide::find(prestate, ninfo, haystack, needle, 16)
}

fn wide32_prefn(
    prestate: &mut PrefilterState,
    ninfo: &NeedleInfo,
    haystack: &[u8],
    needle: &[u8],
) -> Option<usize> {
    wide::find(prestate, ninfo, haystack, needle, 32)
}

fn freqy_find(haystack: &[u8], needle: &[u8]) -> Option<usize> {
    let ninfo = NeedleInfo::forward(needle, false);
    let mut prestate = PrefilterState::new();
    fallback::find(&mut prestate, &ninfo, haystack, needle)
}

fn freqy_rfind(haystack: &[u8], needle: &[u8]) -> Option<usize> {
    let ninfo = NeedleInfo::reverse(needle, false);
    let mut prestate = PrefilterState::new();
    fallback::rfind(&mut prestate, &ninfo, haystack, needle)
}

#[test]
fn freqy_forward() {
    assert_eq!(Some(0), freqy_find(b"BARFOO", b"BAR"));
    assert_eq!(Some(3), freqy_find(b"FOOBAR", b"BAR"));
    assert_eq!(Some(0), freqy_find(b"zyzz", b"zyzy"));
    assert_eq!(Some(2), freqy_find(b"zzzy", b"zyzy"));
    assert_eq!(None, freqy_find(b"zazb", b"zyzy"));
    assert_eq!(Some(0), freqy_find(b"yzyy", b"yzyz"));
    assert_eq!(Some(2), freqy_find(b"yyyz", b"yzyz"));
    assert_eq!(None, freqy_find(b"yayb", b"yzyz"));
}

#[test]
fn freqy_reverse() {
    assert_eq!(Some(3), freqy_rfind(b"BARFOO", b"BAR"));
    assert_eq!(Some(6), freqy_rfind(b"FOOBAR", b"BAR"));
    assert_eq!(Some(2), freqy_rfind(b"zyzz", b"zyzy"));
    assert_eq!(Some(4), freqy_rfind(b"zzzy", b"zyzy"));
    assert_eq!(None, freqy_rfind(b"zazb", b"zyzy"));
    assert_eq!(Some(2), freqy_rfind(b"yzyy", b"yzyz"));
    assert_eq!(Some(4), freqy_rfind(b"yyyz", b"yzyz"));
    assert_eq!(None, freqy_rfind(b"yayb", b"yzyz"));
}

/// One input and expected output for a prefilter function. The test can
/// run with any prefilter variant and must get the expected output.
struct PrefilterTest {
    ninfo: NeedleInfo,
    haystack: Vec<u8>,
    needle: Vec<u8>,
    output: Option<usize>,
}

impl PrefilterTest {
    fn run_all_tests(prefn: PrefilterFn) {
        for seed in seeds() {
            seed.generate(|test| test.run(prefn));
        }
    }

    fn new(
        seed: &PrefilterTestSeed,
        rare1i: usize,
        rare2i: usize,
        haystack_len: usize,
        needle_len: usize,
        output: Option<usize>,
    ) -> Option<PrefilterTest> {
        let mut haystack = vec![b'@'; haystack_len];
        let mut needle = vec![b'#'; needle_len];
        needle[0] = seed.first;
        needle[rare1i] = seed.rare1;
        needle[rare2i] = seed.rare2;
        if let Some(i) = output {
            haystack[i..i + needle.len()].copy_from_slice(&needle);
        }
        let mut ninfo = NeedleInfo {
            rare1i: rare1i as u8,
            rare2i: rare2i as u8,
            nhash: NeedleHash::new(&needle),
        };
        // If the plants above made a rare offset point at a non-first
        // occurrence of its byte, point it at the first occurrence.
        if let Some(i) = memchr::memchr(seed.rare1, &needle) {
            ninfo.rare1i = i as u8;
        }
        if let Some(i) = memchr::memchr(seed.rare2, &needle) {
            ninfo.rare2i = i as u8;
        }
        Some(PrefilterTest { ninfo, haystack, needle, output })
    }

    fn run(&self, prefn: PrefilterFn) {
        let mut prestate = PrefilterState::new();
        assert_eq!(
            self.output,
            prefn(&mut prestate, &self.ninfo, &self.haystack, &self.needle),
            "ninfo: rare1i={} rare2i={}, haystack(len={}): {:?}, needle(len={}): {:?}",
            self.ninfo.rare1i,
            self.ninfo.rare2i,
            self.haystack.len(),
            std::str::from_utf8(&self.haystack).unwrap(),
            self.needle.len(),
            std::str::from_utf8(&self.needle).unwrap(),
        );
    }
}

fn seeds() -> Vec<PrefilterTestSeed> {
    vec![
        PrefilterTestSeed { first: b'x', rare1: b'y', rare2: b'z' },
        PrefilterTestSeed { first: b'x', rare1: b'x', rare2: b'z' },
        PrefilterTestSeed { first: b'x', rare1: b'y', rare2: b'x' },
        PrefilterTestSeed { first: b'x', rare1: b'x', rare2: b'x' },
        PrefilterTestSeed { first: b'x', rare1: b'y', rare2: b'y' },
    ]
}

struct PrefilterTestSeed {
    first: u8,
    rare1: u8,
    rare2: u8,
}

impl PrefilterTestSeed {
    fn generate(&self, mut run: impl FnMut(PrefilterTest)) {
        let mut push = |test: Option<PrefilterTest>| {
            if let Some(test) = test {
                run(test);
            }
        };
        let len_start: usize = 2;
        for needle_len in len_start..=40 {
            let rare_start = len_start - 1;
            for rare1i in rare_start..needle_len {
                for rare2i in rare1i..needle_len {
                    for haystack_len in needle_len..=66 {
                        push(PrefilterTest::new(
                            self,
                            rare1i,
                            rare2i,
                            haystack_len,
                            needle_len,
                            None,
                        ));
                        for output in 0..=(haystack_len - needle_len) {
                            push(PrefilterTest::new(
                                self,
                                rare1i,
                                rare2i,
                                haystack_len,
                                needle_len,
                                Some(output),
                            ));
                        }
                    }
                }
            }
        }
    }
}

#[test]
fn fallback_prefilter_permutations() {
    PrefilterTest::run_all_tests(fallback_prefn);
}

#[test]
fn sse_prefilter_permutations() {
    PrefilterTest::run_all_tests(wide16_prefn);
}

#[test]
fn avx_prefilter_permutations() {
    PrefilterTest::run_all_tests(wide32_prefn);
}

// A specific regression discovered by the permutation suite: the rare
// indices in the needle info pointed at the second occurrence of the rare
// byte instead of the first. With a short haystack the prefilter reduces
// to a single rare-byte scan, which reports the first occurrence aligned
// back to the start of the needle.
#[test]
fn perm1() {
    let mut prestate = PrefilterState::new();
    let ninfo = NeedleInfo { rare1i: 1, rare2i: 1, nhash: NeedleHash::new(b"xx") };
    let got = wide::find(&mut prestate, &ninfo, b"@xx", b"xx", 32);
    assert_eq!(Some(0), got);
}

// The prefilter contracts promise that every probe is accounted for in
// the state: one skip recorded per scan, crediting the bytes it ruled
// out, or a state zeroed by the effectiveness check.
#[test]
fn prefilters_account_for_their_probes() {
    // The chunked prefilter probes exactly once per call.
    let ninfo = NeedleInfo::forward(b"qzx", false);
    let mut state = PrefilterState::new();
    let got = wide::find(&mut state, &ninfo, b"@@@@@@@@@@qzx@@@@@@@@@@@@@@@@@@@@@@@", b"qzx", 16);
    assert_eq!(Some(10), got);
    assert_eq!(1, state.skips());
    let mut state = PrefilterState::new();
    let haystack = b"@@@@@@@@@@@@@@@@@@@@@@@@@@@@@@@@@@@@";
    assert_eq!(None, wide::find(&mut state, &ninfo, haystack, b"qzx", 16));
    assert_eq!(1, state.skips());
    // The miss credits the whole haystack as skipped.
    assert!(state.is_effective());
    // The scalar prefilter records its memchr probe even on a miss.
    let mut state = PrefilterState::new();
    assert_eq!(None, fallback::find(&mut state, &ninfo, haystack, b"qzx"));
    assert_eq!(1, state.skips());
    let mut state = PrefilterState::new();
    assert_eq!(None, fallback::rfind(&mut state, &NeedleInfo::reverse(b"qzx", false), haystack, b"qzx"));
    assert_eq!(1, state.skips());
    // On a state that is no longer effective, the scalar prefilters hand
    // back the start (forward) or the end (reverse) of the haystack.
    let mut inert = PrefilterState::inert();
    assert_eq!(Some(0), fallback::find(&mut inert, &ninfo, haystack, b"qzx"));
    let mut inert = PrefilterState::inert();
    assert_eq!(
        Some(haystack.len()),
        fallback::rfind(&mut inert, &NeedleInfo::reverse(b"qzx", false), haystack, b"qzx")
    );
}
