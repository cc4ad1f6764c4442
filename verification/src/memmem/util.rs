//! Small byte-comparison helpers shared by the searchers.

use vstd::prelude::*;

use crate::memmem::matches_at;

verus! {

/// Returns true if and only if `x` and `y` hold exactly the same bytes.
pub fn memcmp(x: &[u8], y: &[u8]) -> (r: bool)
    ensures
        r <==> x@ == y@,
{
    if x.len() != y.len() {
        assert(x@ != y@);
        return false;
    }
    let mut i: usize = 0;
    while i < x.len()
        invariant
            x@.len() == y@.len(),
            i <= x@.len(),
            forall|j: int| 0 <= j < i ==> x@[j] == y@[j],
        decreases x@.len() - i,
    {
        if x[i] != y[i] {
            assert(x@ != y@);
            return false;
        }
        i += 1;
    }
    proof {
        assert(x@ =~= y@);
    }
    true
}

/// Returns true if and only if `needle` is a prefix of `haystack`, that is,
/// the needle occurs at position 0.
pub fn is_prefix(haystack: &[u8], needle: &[u8]) -> (r: bool)
    ensures
        r <==> matches_at(haystack@, needle@, 0),
{
    if needle.len() > haystack.len() {
        return false;
    }
    let mut i: usize = 0;
    while i < needle.len()
        invariant
            needle@.len() <= haystack@.len(),
            i <= needle@.len(),
            forall|j: int| 0 <= j < i ==> haystack@[j] == needle@[j],
        decreases needle@.len() - i,
    {
        if haystack[i] != needle[i] {
            return false;
        }
        i += 1;
    }
    true
}

/// Returns true if and only if `needle` is a suffix of `haystack`, that is,
/// the needle occurs at position `haystack.len() - needle.len()`.
pub fn is_suffix(haystack: &[u8], needle: &[u8]) -> (r: bool)
    ensures
        r <==> needle@.len() <= haystack@.len() && matches_at(
            haystack@,
            needle@,
            haystack@.len() - needle@.len(),
        ),
{
    if needle.len() > haystack.len() {
        return false;
    }
    let hlen = haystack.len();
    let start = hlen - needle.len();
    let mut i: usize = 0;
    while i < needle.len()
        invariant
            needle@.len() <= haystack@.len(),
            hlen == haystack@.len(),
            start == haystack@.len() - needle@.len(),
            i <= needle@.len(),
            forall|j: int| 0 <= j < i ==> haystack@[start + j] == needle@[j],
        decreases needle@.len() - i,
    {
        assert(start + i < hlen);
        if haystack[start + i] != needle[i] {
            return false;
        }
        i += 1;
    }
    true
}

/// Returns true if and only if the needle occurs in the haystack at
/// position `at`.
pub fn matches_here(haystack: &[u8], needle: &[u8], at: usize) -> (r: bool)
    requires
        at <= haystack@.len(),
    ensures
        r <==> matches_at(haystack@, needle@, at as int),
{
    if needle.len() > haystack.len() - at {
        return false;
    }
    let hlen = haystack.len();
    let mut i: usize = 0;
    while i < needle.len()
        invariant
            hlen == haystack@.len(),
            at + needle@.len() <= haystack@.len(),
            i <= needle@.len(),
            forall|j: int| 0 <= j < i ==> haystack@[at + j] == needle@[j],
        decreases needle@.len() - i,
    {
        assert(at + i < hlen);
        if haystack[at + i] != needle[i] {
            return false;
        }
        i += 1;
    }
    true
}

} // verus!
