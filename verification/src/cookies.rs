//! Assembly of the cookie string reused for candidate downloads: each
//! `Set-Cookie` response header contributes its leading `name=value` pair as
//! `name=value; `, and a malformed header contributes nothing.

use vstd::prelude::*;

verus! {

/// The whitespace stripped around a cookie name or value: ASCII blanks.
pub open spec fn is_blank(c: char) -> bool {
    c == ' ' || c == '\t'
}

/// First position at or after `i` holding `c`, or the length if none.
pub open spec fn first_ch(s: Seq<char>, c: char, i: int) -> int
    decreases s.len() - i,
{
    if i < 0 || i >= s.len() {
        s.len() as int
    } else if s[i] == c {
        i
    } else {
        first_ch(s, c, i + 1)
    }
}

/// First non-blank position at or after `i`, or the length if none.
pub open spec fn skip_blanks(s: Seq<char>, i: int) -> int
    decreases s.len() - i,
{
    if i < 0 || i >= s.len() {
        s.len() as int
    } else if is_blank(s[i]) {
        skip_blanks(s, i + 1)
    } else {
        i
    }
}

/// Position after the last non-blank character strictly before `j`, or 0.
pub open spec fn rtrim_to(s: Seq<char>, j: int) -> int
    decreases j,
{
    if j <= 0 {
        0
    } else if 0 < j <= s.len() && is_blank(s[j - 1]) {
        rtrim_to(s, j - 1)
    } else {
        j
    }
}

/// `s` with leading and trailing blanks removed.
pub open spec fn trimmed(s: Seq<char>) -> Seq<char> {
    let a = skip_blanks(s, 0);
    let b = rtrim_to(s, s.len() as int);
    if a < b {
        s.subrange(a, b)
    } else {
        Seq::empty()
    }
}

/// `s` with one pair of surrounding double quotes removed, if present.
pub open spec fn unquoted(s: Seq<char>) -> Seq<char> {
    if s.len() >= 2 && s[0] == '"' && s[s.len() - 1] == '"' {
        s.subrange(1, s.len() - 1)
    } else {
        s
    }
}

/// The leading `name=value` pair of a raw `Set-Cookie` value: everything
/// before the first `;` must hold an `=`; name and value are trimmed, the
/// value may be quoted, and an empty name makes the header malformed.
pub open spec fn cookie_pair(raw: Seq<char>) -> Option<(Seq<char>, Seq<char>)> {
    let head = raw.subrange(0, first_ch(raw, ';', 0));
    let e = first_ch(head, '=', 0);
    if e >= head.len() {
        None
    } else {
        let name = trimmed(head.subrange(0, e));
        let value = unquoted(trimmed(head.subrange(e + 1, head.len() as int)));
        if name.len() == 0 {
            None
        } else {
            Some((name, value))
        }
    }
}

/// What one header contributes to the cookie string.
pub open spec fn cookie_fragment_spec(raw: Seq<char>) -> Seq<char> {
    match cookie_pair(raw) {
        None => Seq::empty(),
        Some(pair) => pair.0 + seq!['='] + pair.1 + seq![';', ' '],
    }
}

/// The whole cookie string: the fragments of all headers, in order.
pub open spec fn cookie_string_spec(headers: Seq<String>) -> Seq<char>
    decreases headers.len(),
{
    if headers.len() == 0 {
        Seq::empty()
    } else {
        cookie_string_spec(headers.drop_last()) + cookie_fragment_spec(headers.last()@)
    }
}

/// Scan for the first occurrence of `c` at or after `from`.
fn scan_ch(s: &str, c: char, from: usize) -> (r: usize)
    requires
        from <= s@.len(),
    ensures
        r == first_ch(s@, c, from as int),
        from <= r <= s@.len(),
{
    let n = s.unicode_len();
    let mut i: usize = from;
    while i < n
        invariant
            n == s@.len(),
            from <= i <= n,
            first_ch(s@, c, from as int) == first_ch(s@, c, i as int),
        decreases n - i,
    {
        if s.get_char(i) == c {
            return i;
        }
        i += 1;
    }
    i
}

/// Scan past leading blanks from `from`.
fn scan_blanks(s: &str, from: usize) -> (r: usize)
    requires
        from <= s@.len(),
    ensures
        r == skip_blanks(s@, from as int),
        from <= r <= s@.len(),
{
    let n = s.unicode_len();
    let mut i: usize = from;
    while i < n
        invariant
            n == s@.len(),
            from <= i <= n,
            skip_blanks(s@, from as int) == skip_blanks(s@, i as int),
        decreases n - i,
    {
        let ch = s.get_char(i);
        if !(ch == ' ' || ch == '\t') {
            return i;
        }
        i += 1;
    }
    i
}

/// Scan back over trailing blanks before `to`.
fn scan_rtrim(s: &str, to: usize) -> (r: usize)
    requires
        to <= s@.len(),
    ensures
        r == rtrim_to(s@, to as int),
        r <= to,
{
    let mut j: usize = to;
    while j > 0
        invariant
            j <= to <= s@.len(),
            rtrim_to(s@, to as int) == rtrim_to(s@, j as int),
        decreases j,
    {
        let ch = s.get_char(j - 1);
        if !(ch == ' ' || ch == '\t') {
            return j;
        }
        j -= 1;
    }
    0
}

/// What one raw `Set-Cookie` header value contributes to the cookie string:
/// `name=value; `, or nothing when the header is malformed.
pub fn cookie_fragment(raw: &str) -> (r: String)
    ensures
        r@ == cookie_fragment_spec(raw@),
{
    let n = raw.unicode_len();
    let fs = scan_ch(raw, ';', 0);
    let head = raw.substring_char(0, fs);
    assert(head@ =~= raw@.subrange(0, first_ch(raw@, ';', 0)));
    let hn = head.unicode_len();
    let e = scan_ch(head, '=', 0);
    if e >= hn {
        assert(cookie_pair(raw@) is None);
        return String::new();
    }
    let name_part = head.substring_char(0, e);
    let value_part = head.substring_char(e + 1, hn);
    assert(name_part@ =~= head@.subrange(0, e as int));
    assert(value_part@ =~= head@.subrange(e + 1, head@.len() as int));
    let na = scan_blanks(name_part, 0);
    let nb = scan_rtrim(name_part, name_part.unicode_len());
    if na >= nb {
        assert(trimmed(name_part@).len() == 0);
        assert(cookie_pair(raw@) is None);
        return String::new();
    }
    assert(trimmed(name_part@) == name_part@.subrange(na as int, nb as int));
    let va = scan_blanks(value_part, 0);
    let vb = scan_rtrim(value_part, value_part.unicode_len());
    let mut qa = va;
    let mut qb = if va < vb {
        vb
    } else {
        va
    };
    if va < vb && vb >= va + 2 && value_part.get_char(va) == '"' && value_part.get_char(vb - 1)
        == '"' {
        qa = va + 1;
        qb = vb - 1;
    }
    proof {
        if va < vb {
            assert(trimmed(value_part@) == value_part@.subrange(va as int, vb as int));
            assert(unquoted(trimmed(value_part@)) =~= value_part@.subrange(qa as int, qb as int));
        } else {
            assert(trimmed(value_part@) =~= Seq::<char>::empty());
            assert(unquoted(trimmed(value_part@)) =~= value_part@.subrange(qa as int, qb as int));
        }
    }
    let mut out = String::new();
    out.append(name_part.substring_char(na, nb));
    out.append("=");
    out.append(value_part.substring_char(qa, qb));
    out.append("; ");
    proof {
        reveal_strlit("=");
        reveal_strlit("; ");
        assert(out@ =~= cookie_fragment_spec(raw@));
    }
    out
}

/// Concatenate the contributions of all `Set-Cookie` headers of a response,
/// in the order they were sent.
pub fn cookie_string(headers: &Vec<String>) -> (r: String)
    ensures
        r@ == cookie_string_spec(headers@),
{
    let mut out = String::new();
    let mut i: usize = 0;
    while i < headers.len()
        invariant
            0 <= i <= headers@.len(),
            out@ == cookie_string_spec(headers@.subrange(0, i as int)),
        decreases headers@.len() - i,
    {
        let frag = cookie_fragment(headers[i].as_str());
        out.append(frag.as_str());
        proof {
            let pre = headers@.subrange(0, i + 1);
            assert(pre.drop_last() =~= headers@.subrange(0, i as int));
            assert(pre.last() == headers@[i as int]);
        }
        i += 1;
    }
    proof {
        assert(headers@.subrange(0, headers@.len() as int) =~= headers@);
    }
    out
}

} // verus!
