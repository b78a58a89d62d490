//! Syntactic validation of the domain string.
//!
//! The validated string is later embedded in a filesystem path and used as a
//! bare host for a network lookup, so this check is the sole defense against
//! path traversal and URL injection through the domain parameter.

use vstd::prelude::*;

verus! {

/// Whether `char::is_alphanumeric` accepts the character; a Unicode property
/// of the character alone.
pub uninterp spec fn char_alphanumeric(c: char) -> bool;

/// Relies on `char::is_alphanumeric` (std): true exactly on Unicode
/// alphabetic and numeric characters, a function of the character alone.
pub assume_specification[ char::is_alphanumeric ](c: char) -> (r: bool)
    ensures
        r == char_alphanumeric(c),
;

/// A character a domain may contain: alphanumeric or one of `_`, `-`, `.`.
pub open spec fn domain_char(c: char) -> bool {
    ||| char_alphanumeric(c)
    ||| c == '_'
    ||| c == '-'
    ||| c == '.'
}

/// A domain is accepted when it is non-empty, at most 255 characters long,
/// contains no `..`, and consists only of allowed characters.
pub open spec fn valid_domain(s: Seq<char>) -> bool {
    &&& s.len() > 0
    &&& s.len() <= 255
    &&& (forall|i: int| 0 <= i < s.len() ==> domain_char(#[trigger] s[i]))
    &&& (forall|i: int| 0 <= i && i + 1 < s.len() ==> !(s[i] == '.' && #[trigger] s[i + 1] == '.'))
}

/// Syntactic gate on an untrusted domain string.
pub fn is_valid_domain(domain: &str) -> (r: bool)
    ensures
        r == valid_domain(domain@),
{
    let n = domain.unicode_len();
    if n == 0 || n > 255 {
        return false;
    }
    let mut i: usize = 0;
    while i < n
        invariant
            n == domain@.len(),
            0 <= i <= n,
            forall|k: int| 0 <= k < i ==> domain_char(#[trigger] domain@[k]),
            forall|k: int| 0 <= k < i && k + 1 < n ==> !(domain@[k] == '.' && #[trigger] domain@[k
                + 1] == '.'),
        decreases n - i,
    {
        let c = domain.get_char(i);
        if !(c.is_alphanumeric() || c == '_' || c == '-' || c == '.') {
            return false;
        }
        if c == '.' && i + 1 < n && domain.get_char(i + 1) == '.' {
            return false;
        }
        i += 1;
    }
    true
}

} // verus!
