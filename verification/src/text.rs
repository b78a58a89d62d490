//! Character-level string utilities: substring tests, leftmost search, and
//! suffix tests, each with an exact specification.

use vstd::prelude::*;

verus! {

/// The pattern `pat` occurs in `s` at position `i`.
pub open spec fn occurs_at(s: Seq<char>, pat: Seq<char>, i: int) -> bool {
    &&& 0 <= i
    &&& i + pat.len() <= s.len()
    &&& s.subrange(i, i + pat.len() as int) == pat
}

/// The pattern occurs somewhere in `s` at or after position `from`.
pub open spec fn occurs_from(s: Seq<char>, pat: Seq<char>, from: int) -> bool {
    exists|i: int| i >= from && occurs_at(s, pat, i)
}

/// `s` ends with `pat`.
pub open spec fn ends_with(s: Seq<char>, pat: Seq<char>) -> bool {
    s.len() >= pat.len() && occurs_at(s, pat, s.len() - pat.len())
}

/// Whether the characters of `s` starting at `i` spell out `pat`.
pub fn matches_at(s: &str, i: usize, pat: &str) -> (r: bool)
    requires
        i + pat@.len() <= s@.len(),
    ensures
        r == occurs_at(s@, pat@, i as int),
{
    let n = s.unicode_len();
    let m = pat.unicode_len();
    let mut k: usize = 0;
    while k < m
        invariant
            n == s@.len(),
            m == pat@.len(),
            i + m <= n,
            0 <= k <= m,
            forall|t: int| 0 <= t < k ==> s@[i + t] == pat@[t],
        decreases m - k,
    {
        if s.get_char(i + k) != pat.get_char(k) {
            assert(s@.subrange(i as int, i + pat@.len() as int)[k as int] != pat@[k as int]);
            return false;
        }
        k += 1;
    }
    assert(s@.subrange(i as int, i + pat@.len() as int) =~= pat@);
    true
}

/// Leftmost occurrence of `pat` in `s` at or after `from`, if any.
pub fn find_from(s: &str, from: usize, pat: &str) -> (r: Option<usize>)
    ensures
        match r {
            Some(j) => from <= j && occurs_at(s@, pat@, j as int) && forall|k: int|
                from <= k < j ==> !occurs_at(s@, pat@, k),
            None => !occurs_from(s@, pat@, from as int),
        },
{
    let n = s.unicode_len();
    let m = pat.unicode_len();
    if m > n || from > n - m {
        assert(forall|k: int| k >= from ==> !occurs_at(s@, pat@, k));
        return None;
    }
    let mut j: usize = from;
    loop
        invariant
            n == s@.len(),
            m == pat@.len(),
            m <= n,
            from <= j <= n - m,
            forall|k: int| from <= k < j ==> !occurs_at(s@, pat@, k),
        decreases n - m - j,
    {
        if matches_at(s, j, pat) {
            return Some(j);
        }
        if j == n - m {
            assert(forall|k: int| k >= from ==> !occurs_at(s@, pat@, k));
            return None;
        }
        j += 1;
    }
}

/// Whether `s` ends with the characters of `pat`.
pub fn str_ends_with(s: &str, pat: &str) -> (r: bool)
    ensures
        r == ends_with(s@, pat@),
{
    let n = s.unicode_len();
    let m = pat.unicode_len();
    if m > n {
        return false;
    }
    matches_at(s, n - m, pat)
}

} // verus!
