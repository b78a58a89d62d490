//! The two filters applied to a discovered `<link>` element: the `rel`
//! attribute must name an icon relation, and the `href` must carry an
//! allowed image extension or be an inline image data URI.

use vstd::prelude::*;
use crate::text::ends_with;
use crate::text::occurs_at;
use crate::text::occurs_from;

verus! {

pub open spec fn icon_seq() -> Seq<char> {
    seq!['i', 'c', 'o', 'n']
}

pub open spec fn apple_seq() -> Seq<char> {
    seq!['a', 'p', 'p', 'l', 'e']
}

/// A `rel` value names an icon relation when it ends in `icon`, or mentions
/// `apple` somewhere before a later `icon` (the Apple touch icon naming
/// family).
pub open spec fn rel_icon(rel: Seq<char>) -> bool {
    ||| ends_with(rel, icon_seq())
    ||| exists|i: int, j: int|
        #[trigger] occurs_at(rel, apple_seq(), i) && #[trigger] occurs_at(rel, icon_seq(), j) && j
            >= i + 5
}

/// Decide whether a `rel` attribute names an icon relation.
pub fn rel_is_icon(rel: &str) -> (r: bool)
    ensures
        r == rel_icon(rel@),
{
    proof {
        reveal_strlit("icon");
        reveal_strlit("apple");
        assert("icon"@ =~= icon_seq());
        assert("apple"@ =~= apple_seq());
    }
    if crate::text::str_ends_with(rel, "icon") {
        return true;
    }
    let n = rel.unicode_len();
    match crate::text::find_from(rel, 0, "apple") {
        None => {
            assert forall|i: int, j: int|
                !(occurs_at(rel@, apple_seq(), i) && occurs_at(rel@, icon_seq(), j) && j >= i
                    + 5) by {
                if occurs_at(rel@, apple_seq(), i) {
                    assert(occurs_from(rel@, apple_seq(), 0));
                }
            }
            false
        },
        Some(i) => {
            match crate::text::find_from(rel, i + 5, "icon") {
                Some(j) => {
                    assert(occurs_at(rel@, apple_seq(), i as int) && occurs_at(
                        rel@,
                        icon_seq(),
                        j as int,
                    ) && j >= i + 5);
                    true
                },
                None => {
                    assert forall|a: int, b: int|
                        !(occurs_at(rel@, apple_seq(), a) && occurs_at(rel@, icon_seq(), b) && b
                            >= a + 5) by {
                        if occurs_at(rel@, apple_seq(), a) && occurs_at(rel@, icon_seq(), b) && b
                            >= a + 5 {
                            assert(a >= i);
                            assert(b >= i + 5 && occurs_at(rel@, icon_seq(), b));
                            assert(occurs_from(rel@, icon_seq(), i + 5));
                        }
                    }
                    false
                },
            }
        },
    }
}

/// Case-blind equality of a subject character against a lowercase reference
/// character: ASCII letters match either case, anything else exactly.
pub open spec fn eq_ci(c: char, p: char) -> bool {
    c == p || ('a' <= p && p <= 'z' && c as int + 32 == p as int)
}

/// The pattern `pat` (given in lowercase) occurs case-blind at position `i`.
pub open spec fn occurs_ci_at(s: Seq<char>, pat: Seq<char>, i: int) -> bool {
    &&& 0 <= i
    &&& i + pat.len() <= s.len()
    &&& forall|k: int| 0 <= k < pat.len() ==> eq_ci(s[i + k], #[trigger] pat[k])
}

/// The pattern occurs case-blind somewhere at or after `from`.
pub open spec fn occurs_ci_from(s: Seq<char>, pat: Seq<char>, from: int) -> bool {
    exists|i: int| i >= from && occurs_ci_at(s, pat, i)
}

/// Whether the characters of `s` starting at `i` spell out `pat`, blind to
/// ASCII case.
pub fn matches_ci_at(s: &str, i: usize, pat: &str) -> (r: bool)
    requires
        i + pat@.len() <= s@.len(),
    ensures
        r == occurs_ci_at(s@, pat@, i as int),
{
    let n = s.unicode_len();
    let m = pat.unicode_len();
    let mut k: usize = 0;
    while k < m
        invariant
            n == s@.len(),
            m == pat@.len(),
            i + m <= n,
            0 <= k <= m,
            forall|t: int| 0 <= t < k ==> eq_ci(s@[i + t], #[trigger] pat@[t]),
        decreases m - k,
    {
        let c = s.get_char(i + k);
        let p = pat.get_char(k);
        if !(c == p || ('a' <= p && p <= 'z' && (c as u32) < 0xffff && (c as u32) + 32 == (
        p as u32))) {
            assert(!eq_ci(s@[i + k], pat@[k as int]));
            return false;
        }
        k += 1;
    }
    true
}

/// Leftmost case-blind occurrence of `pat` in `s` at or after `from`.
pub fn find_ci_from(s: &str, from: usize, pat: &str) -> (r: Option<usize>)
    ensures
        match r {
            Some(j) => from <= j && occurs_ci_at(s@, pat@, j as int),
            None => !occurs_ci_from(s@, pat@, from as int),
        },
{
    let n = s.unicode_len();
    let m = pat.unicode_len();
    if m > n || from > n - m {
        assert(forall|k: int| k >= from ==> !occurs_ci_at(s@, pat@, k));
        return None;
    }
    let mut j: usize = from;
    loop
        invariant
            n == s@.len(),
            m == pat@.len(),
            m <= n,
            from <= j <= n - m,
            forall|k: int| from <= k < j ==> !occurs_ci_at(s@, pat@, k),
        decreases n - m - j,
    {
        if matches_ci_at(s, j, pat) {
            return Some(j);
        }
        if j == n - m {
            assert(forall|k: int| k >= from ==> !occurs_ci_at(s@, pat@, k));
            return None;
        }
        j += 1;
    }
}

/// An ASCII name character: letter, digit or underscore.
pub open spec fn word_char(c: char) -> bool {
    ||| ('a' <= c && c <= 'z')
    ||| ('A' <= c && c <= 'Z')
    ||| ('0' <= c && c <= '9')
    ||| c == '_'
}

pub open spec fn data_image_seq() -> Seq<char> {
    seq!['d', 'a', 't', 'a', ':', 'i', 'm', 'a', 'g', 'e']
}

pub open spec fn base64_seq() -> Seq<char> {
    seq!['b', 'a', 's', 'e', '6', '4']
}

/// An inline image data URI: the string opens with `data:image` and later
/// says `base64`.
pub open spec fn data_image_href(s: Seq<char>) -> bool {
    occurs_ci_at(s, data_image_seq(), 0) && occurs_ci_from(s, base64_seq(), 10)
}

/// The extension `ext` ends the name part `s[..q]`, written after a dot that
/// follows at least one name character.
pub open spec fn ext_at(s: Seq<char>, q: int, ext: Seq<char>) -> bool {
    &&& q - ext.len() - 2 >= 0
    &&& occurs_ci_at(s, ext, q - ext.len())
    &&& s[q - ext.len() - 1] == '.'
    &&& word_char(s[q - ext.len() - 2])
}

pub open spec fn jpg_seq() -> Seq<char> {
    seq!['j', 'p', 'g']
}

pub open spec fn jpeg_seq() -> Seq<char> {
    seq!['j', 'p', 'e', 'g']
}

pub open spec fn png_seq() -> Seq<char> {
    seq!['p', 'n', 'g']
}

pub open spec fn ico_seq() -> Seq<char> {
    seq!['i', 'c', 'o']
}

/// One of the allowed image extensions ends the name part `s[..q]`.
pub open spec fn allowed_ext_end(s: Seq<char>, q: int) -> bool {
    ||| ext_at(s, q, jpg_seq())
    ||| ext_at(s, q, jpeg_seq())
    ||| ext_at(s, q, png_seq())
    ||| ext_at(s, q, ico_seq())
}

/// A boundary where the optional query string may start: the end of the
/// string or a question mark.
pub open spec fn query_boundary(s: Seq<char>, q: int) -> bool {
    0 <= q <= s.len() && (q == s.len() || s[q] == '?')
}

/// An `href` is allowed when an allowed extension ends its name part, right
/// before the end or a query string, or when it is an inline image data URI.
/// Matching is blind to ASCII case.
pub open spec fn href_allowed(s: Seq<char>) -> bool {
    ||| data_image_href(s)
    ||| exists|q: int| #[trigger] query_boundary(s, q) && allowed_ext_end(s, q)
}

/// Whether one allowed extension ends `s[..q]`.
fn ext_at_exec(s: &str, q: usize, ext: &str) -> (r: bool)
    requires
        q <= s@.len(),
    ensures
        r == ext_at(s@, q as int, ext@),
{
    let m = ext.unicode_len();
    if q < m || q - m < 2 {
        return false;
    }
    let start = q - m;
    if !matches_ci_at(s, start, ext) {
        return false;
    }
    if s.get_char(start - 1) != '.' {
        return false;
    }
    let c = s.get_char(start - 2);
    ('a' <= c && c <= 'z') || ('A' <= c && c <= 'Z') || ('0' <= c && c <= '9') || c == '_'
}

/// Whether some allowed extension ends `s[..q]`.
fn allowed_ext_end_exec(s: &str, q: usize) -> (r: bool)
    requires
        q <= s@.len(),
    ensures
        r == allowed_ext_end(s@, q as int),
{
    proof {
        reveal_strlit("jpg");
        reveal_strlit("jpeg");
        reveal_strlit("png");
        reveal_strlit("ico");
        assert("jpg"@ =~= jpg_seq());
        assert("jpeg"@ =~= jpeg_seq());
        assert("png"@ =~= png_seq());
        assert("ico"@ =~= ico_seq());
    }
    ext_at_exec(s, q, "jpg") || ext_at_exec(s, q, "jpeg") || ext_at_exec(s, q, "png")
        || ext_at_exec(s, q, "ico")
}

/// Decide whether an `href` value is an acceptable icon source.
pub fn href_is_allowed(href: &str) -> (r: bool)
    ensures
        r == href_allowed(href@),
{
    proof {
        reveal_strlit("data:image");
        reveal_strlit("base64");
        assert("data:image"@ =~= data_image_seq());
        assert("base64"@ =~= base64_seq());
    }
    let n = href.unicode_len();
    if n >= 10 && matches_ci_at(href, 0, "data:image") {
        if find_ci_from(href, 10, "base64").is_some() {
            return true;
        }
    }
    let mut q: usize = 0;
    while q < n
        invariant
            n == href@.len(),
            0 <= q <= n,
            !data_image_href(href@),
            forall|k: int|
                0 <= k < q ==> !(#[trigger] query_boundary(href@, k) && allowed_ext_end(href@, k)),
        decreases n - q,
    {
        if href.get_char(q) == '?' {
            if allowed_ext_end_exec(href, q) {
                assert(query_boundary(href@, q as int) && allowed_ext_end(href@, q as int));
                return true;
            }
        }
        q += 1;
    }
    if allowed_ext_end_exec(href, n) {
        assert(query_boundary(href@, n as int) && allowed_ext_end(href@, n as int));
        return true;
    }
    assert(forall|k: int|
        !(#[trigger] query_boundary(href@, k) && allowed_ext_end(href@, k)));
    false
}

} // verus!
