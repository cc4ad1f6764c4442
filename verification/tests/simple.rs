//! Hand-written substring search cases, run through the top-level
//! forward and reverse search routines.

use memchr::memmem::{memmem, memrmem};

fn case_fwd(needle: &str, haystack: &str, expected: Option<usize>) {
    let (n, h) = (needle.as_bytes(), haystack.as_bytes());
    assert_eq!(
        expected,
        memmem(h, n),
        "memmem: needle: {:?}, haystack: {:?}, expected: {:?}",
        n,
        h,
        expected
    );
}

fn case_rev(needle: &str, haystack: &str, expected: Option<usize>) {
    let (n, h) = (needle.as_bytes(), haystack.as_bytes());
    assert_eq!(
        expected,
        memrmem(h, n),
        "memrmem: needle: {:?}, haystack: {:?}, expected: {:?}",
        n,
        h,
        expected
    );
}

#[test]
fn forward() {
    case_fwd("", "", Some(0));
    case_fwd("", "a", Some(0));
    case_fwd("", "ab", Some(0));
    case_fwd("", "abc", Some(0));
    case_fwd("a", "", None);
    case_fwd("a", "a", Some(0));
    case_fwd("a", "aa", Some(0));
    case_fwd("a", "ba", Some(1));
    case_fwd("a", "bba", Some(2));
    case_fwd("a", "bbba", Some(3));
    case_fwd("a", "bbbab", Some(3));
    case_fwd("a", "bbbabb", Some(3));
    case_fwd("a", "bbbabbb", Some(3));
    case_fwd("a", "bbbbbb", None);
    case_fwd("ab", "", None);
    case_fwd("ab", "a", None);
    case_fwd("ab", "b", None);
    case_fwd("ab", "ab", Some(0));
    case_fwd("ab", "aab", Some(1));
    case_fwd("ab", "aaab", Some(2));
    case_fwd("ab", "abaab", Some(0));
    case_fwd("ab", "baaab", Some(3));
    case_fwd("ab", "acb", None);
    case_fwd("ab", "abba", Some(0));
    case_fwd("abc", "ab", None);
    case_fwd("abc", "abc", Some(0));
    case_fwd("abc", "abcz", Some(0));
    case_fwd("abc", "abczz", Some(0));
    case_fwd("abc", "zabc", Some(1));
    case_fwd("abc", "zzabc", Some(2));
    case_fwd("abc", "azbc", None);
    case_fwd("abc", "abzc", None);
    case_fwd("abczdef", "abczdefzzzzzzzzzzzzzzzzzzzz", Some(0));
    case_fwd("abczdef", "zzzzzzzzzzzzzzzzzzzzabczdef", Some(20));
    case_fwd("xyz", "aaaaaaaaaaaaaaaaaaaaaaaaaaaaaaaaxyz", Some(32));
    case_fwd("\u{0}\u{15}", "\u{0}\u{15}\u{15}\u{0}", Some(0));
    case_fwd("\u{0}\u{1e}", "\u{1e}\u{0}", None);
}

#[test]
fn reverse() {
    case_rev("", "", Some(0));
    case_rev("", "a", Some(1));
    case_rev("", "ab", Some(2));
    case_rev("", "abc", Some(3));
    case_rev("a", "", None);
    case_rev("a", "a", Some(0));
    case_rev("a", "aa", Some(1));
    case_rev("a", "ba", Some(1));
    case_rev("a", "bba", Some(2));
    case_rev("a", "bbba", Some(3));
    case_rev("a", "bbbab", Some(3));
    case_rev("a", "bbbabb", Some(3));
    case_rev("a", "bbbabbb", Some(3));
    case_rev("a", "bbbbbb", None);
    case_rev("ab", "", None);
    case_rev("ab", "a", None);
    case_rev("ab", "b", None);
    case_rev("ab", "ab", Some(0));
    case_rev("ab", "aab", Some(1));
    case_rev("ab", "aaab", Some(2));
    case_rev("ab", "abaab", Some(3));
    case_rev("ab", "baaab", Some(3));
    case_rev("ab", "acb", None);
    case_rev("ab", "abba", Some(0));
    case_rev("abc", "ab", None);
    case_rev("abc", "abc", Some(0));
    case_rev("abc", "abcz", Some(0));
    case_rev("abc", "abczz", Some(0));
    case_rev("abc", "zabc", Some(1));
    case_rev("abc", "zzabc", Some(2));
    case_rev("abc", "azbc", None);
    case_rev("abc", "abzc", None);
    case_rev("abczdef", "abczdefzzzzzzzzzzzzzzzzzzzz", Some(0));
    case_rev("abczdef", "zzzzzzzzzzzzzzzzzzzzabczdef", Some(20));
    case_rev("xyz", "aaaaaaaaaaaaaaaaaaaaaaaaaaaaaaaaxyz", Some(32));
    case_rev("\u{0}\u{15}", "\u{0}\u{15}\u{15}\u{0}", Some(0));
    case_rev("\u{0}\u{1e}", "\u{1e}\u{0}", None);
}
