//! Permutation tests for the chunked confirming searcher used on short
//! needles, at both chunk widths.

use memchr::memmem::genericsimd::Forward;
use memchr::memmem::prefilter::NeedleInfo;
use memchr::memmem::rabinkarp::NeedleHash;

/// Run the planted-needle permutation suite against the confirming
/// searcher with the given chunk width; `None` width picks 32 when the
/// haystack allows it and 16 otherwise, as the searcher dispatch does.
fn run_searcher_permutations(width: Option<usize>) {
    let seeds: Vec<(u8, u8, u8)> = vec![
        (b'x', b'y', b'z'),
        (b'x', b'x', b'z'),
        (b'x', b'y', b'x'),
        (b'x', b'x', b'x'),
        (b'x', b'y', b'y'),
    ];
    for &(first, rare1, rare2) in seeds.iter() {
        for needle_len in 2..=40usize {
            for rare1i in 1..needle_len {
                for rare2i in rare1i..needle_len {
                    for haystack_len in needle_len..=66usize {
                        run_one(
                            first, rare1, rare2, rare1i, rare2i, haystack_len, needle_len, None,
                            width,
                        );
                        for output in 0..=(haystack_len - needle_len) {
                            run_one(
                                first,
                                rare1,
                                rare2,
                                rare1i,
                                rare2i,
                                haystack_len,
                                needle_len,
                                Some(output),
                                width,
                            );
                        }
                    }
                }
            }
        }
    }
}

fn run_one(
    first: u8,
    rare1: u8,
    rare2: u8,
    rare1i: usize,
    rare2i: usize,
    haystack_len: usize,
    needle_len: usize,
    output: Option<usize>,
    width: Option<usize>,
) {
    let mut haystack = vec![b'@'; haystack_len];
    let mut needle = vec![b'#'; needle_len];
    needle[0] = first;
    needle[rare1i] = rare1;
    needle[rare2i] = rare2;
    if let Some(i) = output {
        haystack[i..i + needle.len()].copy_from_slice(&needle);
    }
    let mut ninfo =
        NeedleInfo { rare1i: rare1i as u8, rare2i: rare2i as u8, nhash: NeedleHash::new(&needle) };
    if let Some(i) = memchr::memchr(rare1, &needle) {
        ninfo.rare1i = i as u8;
    }
    if let Some(i) = memchr::memchr(rare2, &needle) {
        ninfo.rare2i = i as u8;
    }
    // This searcher only works on certain configurations: two distinct
    // rare offsets and a haystack long enough for one whole chunk.
    if ninfo.rare1i == ninfo.rare2i {
        return;
    }
    let hi = if ninfo.rare1i <= ninfo.rare2i {
        ninfo.rare2i as usize
    } else {
        ninfo.rare1i as usize
    };
    if haystack.len() < hi + 16 {
        return;
    }
    let fwd = match Forward::new(&ninfo, &needle) {
        None => return,
        Some(fwd) => fwd,
    };
    let w = match width {
        Some(w) => w,
        None => {
            if haystack.len() >= fwd.min_haystack_len(32) {
                32
            } else {
                16
            }
        },
    };
    if haystack.len() < fwd.min_haystack_len(w) {
        return;
    }
    let got = fwd.find(&haystack, &needle, w);
    assert_eq!(
        output,
        got,
        "rare1i={} rare2i={}, haystack(len={}): {:?}, needle(len={}): {:?}",
        ninfo.rare1i,
        ninfo.rare2i,
        haystack.len(),
        std::str::from_utf8(&haystack).unwrap(),
        needle.len(),
        std::str::from_utf8(&needle).unwrap(),
    );
}

#[test]
fn sse_searcher_permutations() {
    run_searcher_permutations(Some(16));
}

#[test]
fn avx_searcher_permutations() {
    run_searcher_permutations(None);
}
