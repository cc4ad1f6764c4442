//! Scalar searches for one, two or three byte values, forward and in
//! reverse. Each routine reports the position of the first (or last)
//! haystack byte equal to one of the wanted values.

use vstd::prelude::*;

verus! {

/// Returns the index of the first occurrence of `n1` in `haystack`.
pub fn memchr(n1: u8, haystack: &[u8]) -> (r: Option<usize>)
    ensures
        match r {
            Some(i) => i < haystack@.len() && haystack@[i as int] == n1
                && forall|j: int| 0 <= j < i ==> haystack@[j] != n1,
            None => forall|j: int| 0 <= j < haystack@.len() ==> haystack@[j] != n1,
        },
{
    let mut i: usize = 0;
    while i < haystack.len()
        invariant
            i <= haystack@.len(),
            forall|j: int| 0 <= j < i ==> haystack@[j] != n1,
        decreases haystack@.len() - i,
    {
        if haystack[i] == n1 {
            return Some(i);
        }
        i += 1;
    }
    None
}

/// Returns the index of the first occurrence of `n1` or `n2` in `haystack`.
pub fn memchr2(n1: u8, n2: u8, haystack: &[u8]) -> (r: Option<usize>)
    ensures
        match r {
            Some(i) => i < haystack@.len()
                && (haystack@[i as int] == n1 || haystack@[i as int] == n2)
                && forall|j: int| 0 <= j < i ==> haystack@[j] != n1 && haystack@[j] != n2,
            None => forall|j: int|
                0 <= j < haystack@.len() ==> haystack@[j] != n1 && haystack@[j] != n2,
        },
{
    let mut i: usize = 0;
    while i < haystack.len()
        invariant
            i <= haystack@.len(),
            forall|j: int| 0 <= j < i ==> haystack@[j] != n1 && haystack@[j] != n2,
        decreases haystack@.len() - i,
    {
        let b = haystack[i];
        if b == n1 || b == n2 {
            return Some(i);
        }
        i += 1;
    }
    None
}

/// Returns the index of the first occurrence of `n1`, `n2` or `n3` in
/// `haystack`.
pub fn memchr3(n1: u8, n2: u8, n3: u8, haystack: &[u8]) -> (r: Option<usize>)
    ensures
        match r {
            Some(i) => i < haystack@.len()
                && (haystack@[i as int] == n1 || haystack@[i as int] == n2
                    || haystack@[i as int] == n3)
                && forall|j: int|
                    0 <= j < i ==> haystack@[j] != n1 && haystack@[j] != n2 && haystack@[j] != n3,
            None => forall|j: int|
                0 <= j < haystack@.len()
                    ==> haystack@[j] != n1 && haystack@[j] != n2 && haystack@[j] != n3,
        },
{
    let mut i: usize = 0;
    while i < haystack.len()
        invariant
            i <= haystack@.len(),
            forall|j: int|
                0 <= j < i ==> haystack@[j] != n1 && haystack@[j] != n2 && haystack@[j] != n3,
        decreases haystack@.len() - i,
    {
        let b = haystack[i];
        if b == n1 || b == n2 || b == n3 {
            return Some(i);
        }
        i += 1;
    }
    None
}

/// Returns the index of the last occurrence of `n1` in `haystack`.
pub fn memrchr(n1: u8, haystack: &[u8]) -> (r: Option<usize>)
    ensures
        match r {
            Some(i) => i < haystack@.len() && haystack@[i as int] == n1
                && forall|j: int| i < j < haystack@.len() ==> haystack@[j] != n1,
            None => forall|j: int| 0 <= j < haystack@.len() ==> haystack@[j] != n1,
        },
{
    let mut i: usize = haystack.len();
    while i > 0
        invariant
            i <= haystack@.len(),
            forall|j: int| i <= j < haystack@.len() ==> haystack@[j] != n1,
        decreases i,
    {
        i -= 1;
        if haystack[i] == n1 {
            return Some(i);
        }
    }
    None
}

/// Returns the index of the last occurrence of `n1` or `n2` in `haystack`.
pub fn memrchr2(n1: u8, n2: u8, haystack: &[u8]) -> (r: Option<usize>)
    ensures
        match r {
            Some(i) => i < haystack@.len()
                && (haystack@[i as int] == n1 || haystack@[i as int] == n2)
                && forall|j: int|
                    i < j < haystack@.len() ==> haystack@[j] != n1 && haystack@[j] != n2,
            None => forall|j: int|
                0 <= j < haystack@.len() ==> haystack@[j] != n1 && haystack@[j] != n2,
        },
{
    let mut i: usize = haystack.len();
    while i > 0
        invariant
            i <= haystack@.len(),
            forall|j: int| i <= j < haystack@.len() ==> haystack@[j] != n1 && haystack@[j] != n2,
        decreases i,
    {
        i -= 1;
        let b = haystack[i];
        if b == n1 || b == n2 {
            return Some(i);
        }
    }
    None
}

/// Returns the index of the last occurrence of `n1`, `n2` or `n3` in
/// `haystack`.
pub fn memrchr3(n1: u8, n2: u8, n3: u8, haystack: &[u8]) -> (r: Option<usize>)
    ensures
        match r {
            Some(i) => i < haystack@.len()
                && (haystack@[i as int] == n1 || haystack@[i as int] == n2
                    || haystack@[i as int] == n3)
                && forall|j: int|
                    i < j < haystack@.len()
                        ==> haystack@[j] != n1 && haystack@[j] != n2 && haystack@[j] != n3,
            None => forall|j: int|
                0 <= j < haystack@.len()
                    ==> haystack@[j] != n1 && haystack@[j] != n2 && haystack@[j] != n3,
        },
{
    let mut i: usize = haystack.len();
    while i > 0
        invariant
            i <= haystack@.len(),
            forall|j: int|
                i <= j < haystack@.len()
                    ==> haystack@[j] != n1 && haystack@[j] != n2 && haystack@[j] != n3,
        decreases i,
    {
        i -= 1;
        let b = haystack[i];
        if b == n1 || b == n2 || b == n3 {
            return Some(i);
        }
    }
    None
}

} // verus!
