//! Character-level string helpers with exact contracts.

use vstd::prelude::*;

verus! {

/// Whether `pat` occurs in `s` starting at index `i`.
pub open spec fn occurs_at(s: Seq<char>, pat: Seq<char>, i: int) -> bool {
    0 <= i && i + pat.len() <= s.len() && s.subrange(i, i + pat.len()) == pat
}

/// Whether `pat` occurs anywhere in `s` (the empty pattern occurs everywhere).
pub open spec fn contains_seq(s: Seq<char>, pat: Seq<char>) -> bool {
    exists|i: int| occurs_at(s, pat, i)
}

/// Whether the characters of `a` and `b` are the same.
pub fn str_equals(a: &str, b: &str) -> (r: bool)
    ensures
        r == (a@ == b@),
{
    let n = a.unicode_len();
    let m = b.unicode_len();
    if n != m {
        return false;
    }
    let mut i: usize = 0;
    while i < n
        invariant
            n == a@.len(),
            m == b@.len(),
            n == m,
            i <= n,
            forall|j: int| 0 <= j < i ==> a@[j] == b@[j],
        decreases n - i,
    {
        if a.get_char(i) != b.get_char(i) {
            return false;
        }
        i = i + 1;
    }
    assert(a@ =~= b@);
    true
}

/// Whether `pat` occurs at `start` in `s`.
fn matches_at(s: &str, pat: &str, start: usize, n: usize, m: usize) -> (r: bool)
    requires
        n == s@.len(),
        m == pat@.len(),
        start + m <= n,
    ensures
        r == occurs_at(s@, pat@, start as int),
{
    let mut j: usize = 0;
    while j < m
        invariant
            n == s@.len(),
            m == pat@.len(),
            start + m <= n,
            j <= m,
            forall|k: int| 0 <= k < j ==> s@[start + k] == pat@[k],
        decreases m - j,
    {
        if s.get_char(start + j) != pat.get_char(j) {
            assert(s@.subrange(start as int, start + m)[j as int] != pat@[j as int]);
            return false;
        }
        j = j + 1;
    }
    assert(s@.subrange(start as int, start + m) =~= pat@);
    true
}

/// Whether `pat` occurs as a contiguous run of characters in `s`.
pub fn str_contains(s: &str, pat: &str) -> (r: bool)
    ensures
        r == contains_seq(s@, pat@),
{
    let n = s.unicode_len();
    let m = pat.unicode_len();
    if m > n {
        assert forall|i: int| !occurs_at(s@, pat@, i) by {}
        return false;
    }
    let last = n - m;
    let mut start: usize = 0;
    loop
        invariant_except_break
            n == s@.len(),
            m == pat@.len(),
            last == n - m,
            start <= last,
            forall|i: int| 0 <= i < start ==> !occurs_at(s@, pat@, i),
        ensures
            forall|i: int| 0 <= i <= last ==> !occurs_at(s@, pat@, i),
        decreases last - start,
    {
        if matches_at(s, pat, start, n, m) {
            return true;
        }
        if start == last {
            break;
        }
        start = start + 1;
    }
    assert forall|i: int| !occurs_at(s@, pat@, i) by {
        if 0 <= i <= last {
        }
    }
    false
}

} // verus!
