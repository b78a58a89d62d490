//! Parsing of a `sizes` attribute and the candidate priority ladder.
//!
//! A declared size is two decimal numbers separated by one or more non-digit
//! characters, as in `32x32` or `x128x128`; a lone number declares nothing.
//! The priority is a score where lower means more preferred.

use vstd::prelude::*;
use crate::text::ends_with;

verus! {

pub open spec fn is_digit(c: char) -> bool {
    '0' <= c && c <= '9'
}

/// Numeric value of a digit character.
pub open spec fn digit_val(c: char) -> int {
    c as int - '0' as int
}

/// Index of the first digit at or after `i`, or the length if none.
pub open spec fn skip_non_digits(s: Seq<char>, i: int) -> int
    decreases s.len() - i,
{
    if i < 0 || i >= s.len() {
        s.len() as int
    } else if is_digit(s[i]) {
        i
    } else {
        skip_non_digits(s, i + 1)
    }
}

/// Index of the first non-digit at or after `i`, or the length if none.
pub open spec fn skip_digits(s: Seq<char>, i: int) -> int
    decreases s.len() - i,
{
    if i < 0 || i >= s.len() {
        s.len() as int
    } else if !is_digit(s[i]) {
        i
    } else {
        skip_digits(s, i + 1)
    }
}

/// Decimal value of the digit run `s[i..j]`.
pub open spec fn digits_value(s: Seq<char>, i: int, j: int) -> int
    decreases j - i,
{
    if j <= i {
        0
    } else {
        digits_value(s, i, j - 1) * 10 + digit_val(s[j - 1])
    }
}

/// A parsed dimension: the numeric value if it fits a `u16`, otherwise 0,
/// mirroring a failed narrow parse being treated as no declared size.
pub open spec fn dimension(s: Seq<char>, i: int, j: int) -> u16 {
    if 0 <= digits_value(s, i, j) <= u16::MAX {
        digits_value(s, i, j) as u16
    } else {
        0
    }
}

/// Width and height declared by a `sizes` string: the first two digit runs,
/// which are necessarily separated by at least one non-digit; `(0, 0)` when
/// there is no second run.
pub open spec fn parsed_sizes(s: Seq<char>) -> (u16, u16) {
    let a = skip_non_digits(s, 0);
    let b = skip_digits(s, a);
    let c = skip_non_digits(s, b);
    if a >= s.len() || c >= s.len() {
        (0, 0)
    } else {
        (dimension(s, a, b), dimension(s, c, skip_digits(s, c)))
    }
}

pub open spec fn parse_sizes_spec(sizes: Option<Seq<char>>) -> (u16, u16) {
    match sizes {
        Some(s) => parsed_sizes(s),
        None => (0u16, 0u16),
    }
}

proof fn lemma_skip_non_digits_bounds(s: Seq<char>, i: int)
    requires
        0 <= i <= s.len(),
    ensures
        i <= skip_non_digits(s, i) <= s.len(),
        forall|k: int| i <= k < skip_non_digits(s, i) ==> !is_digit(s[k]),
        skip_non_digits(s, i) < s.len() ==> is_digit(s[skip_non_digits(s, i)]),
    decreases s.len() - i,
{
    if i < s.len() && !is_digit(s[i]) {
        lemma_skip_non_digits_bounds(s, i + 1);
    }
}

proof fn lemma_skip_digits_bounds(s: Seq<char>, i: int)
    requires
        0 <= i <= s.len(),
    ensures
        i <= skip_digits(s, i) <= s.len(),
        forall|k: int| i <= k < skip_digits(s, i) ==> is_digit(s[k]),
        skip_digits(s, i) < s.len() ==> !is_digit(s[skip_digits(s, i)]),
    decreases s.len() - i,
{
    if i < s.len() && is_digit(s[i]) {
        lemma_skip_digits_bounds(s, i + 1);
    }
}

/// Scan to the first digit at or after `from`.
fn scan_to_digit(s: &str, from: usize) -> (r: usize)
    requires
        from <= s@.len(),
    ensures
        r == skip_non_digits(s@, from as int),
{
    let n = s.unicode_len();
    let mut i: usize = from;
    while i < n
        invariant
            n == s@.len(),
            from <= i <= n,
            skip_non_digits(s@, from as int) == skip_non_digits(s@, i as int),
        decreases n - i,
    {
        let c = s.get_char(i);
        if '0' <= c && c <= '9' {
            return i;
        }
        i += 1;
    }
    i
}

/// Scan to the first non-digit at or after `from`.
fn scan_past_digits(s: &str, from: usize) -> (r: usize)
    requires
        from <= s@.len(),
    ensures
        r == skip_digits(s@, from as int),
{
    let n = s.unicode_len();
    let mut i: usize = from;
    while i < n
        invariant
            n == s@.len(),
            from <= i <= n,
            skip_digits(s@, from as int) == skip_digits(s@, i as int),
        decreases n - i,
    {
        let c = s.get_char(i);
        if !('0' <= c && c <= '9') {
            return i;
        }
        i += 1;
    }
    i
}

proof fn lemma_digits_value_grows(s: Seq<char>, i: int, j: int)
    requires
        i <= j,
        forall|k: int| i <= k < j ==> 0 <= #[trigger] digit_val(s[k]),
    ensures
        digits_value(s, i, j) >= 0,
        forall|j2: int| i <= j2 <= j ==> digits_value(s, i, j2) <= digits_value(s, i, j),
    decreases j - i,
{
    if j > i {
        lemma_digits_value_grows(s, i, j - 1);
    }
}

/// Value of the digit run `s[i..j]` as a `u16`, with 0 standing for a value
/// that does not fit.
fn digit_run_value(s: &str, i: usize, j: usize) -> (r: u16)
    requires
        i <= j <= s@.len(),
        forall|k: int| i <= k < j ==> is_digit(s@[k]),
    ensures
        r == dimension(s@, i as int, j as int),
{
    let mut acc: u32 = 0;
    let mut k: usize = i;
    while k < j
        invariant
            i <= k <= j <= s@.len(),
            forall|t: int| i <= t < j ==> is_digit(s@[t]),
            acc <= 655359,
            digits_value(s@, i as int, k as int) <= u16::MAX ==> acc == digits_value(
                s@,
                i as int,
                k as int,
            ),
            digits_value(s@, i as int, k as int) > u16::MAX ==> acc > u16::MAX,
            acc > u16::MAX ==> digits_value(s@, i as int, k as int) > u16::MAX,
        decreases j - k,
    {
        let c = s.get_char(k);
        let d: u32 = (c as u32) - ('0' as u32);
        proof {
            assert(is_digit(s@[k as int]));
            assert(forall|t: int| i <= t < k + 1 ==> 0 <= #[trigger] digit_val(s@[t]));
            lemma_digits_value_grows(s@, i as int, k + 1);
        }
        if acc <= 65535 {
            acc = acc * 10 + d;
        }
        k += 1;
    }
    if acc <= 65535 {
        acc as u16
    } else {
        0
    }
}

/// Parse a `sizes` attribute into a declared `(width, height)`.
pub fn parse_sizes(sizes: Option<&str>) -> (r: (u16, u16))
    ensures
        r == parse_sizes_spec(match sizes {
            Some(s) => Some(s@),
            None => None,
        }),
{
    match sizes {
        None => (0, 0),
        Some(s) => {
            let n = s.unicode_len();
            let a = scan_to_digit(s, 0);
            proof {
                lemma_skip_non_digits_bounds(s@, 0);
            }
            if a >= n {
                return (0, 0);
            }
            let b = scan_past_digits(s, a);
            proof {
                lemma_skip_digits_bounds(s@, a as int);
            }
            let c = scan_to_digit(s, b);
            proof {
                lemma_skip_non_digits_bounds(s@, b as int);
            }
            if c >= n {
                return (0, 0);
            }
            let d = scan_past_digits(s, c);
            proof {
                lemma_skip_digits_bounds(s@, c as int);
            }
            let w = digit_run_value(s, a, b);
            let h = digit_run_value(s, c, d);
            (w, h)
        },
    }
}

/// Priority of a candidate from its file extension alone: `.png` is best,
/// `.jpg`/`.jpeg` next, anything else (data URIs, `.ico`) last.
pub open spec fn extension_priority(href: Seq<char>) -> u8 {
    if ends_with(href, seq!['.', 'p', 'n', 'g']) {
        10u8
    } else if ends_with(href, seq!['.', 'j', 'p', 'g']) || ends_with(
        href,
        seq!['.', 'j', 'p', 'e', 'g'],
    ) {
        20u8
    } else {
        30u8
    }
}

/// The full priority ladder: square declared sizes rank by how close they are
/// to the preferred icon sizes, non-square sizes are heavily deprioritized,
/// and an undeclared size falls back to the file extension.
pub open spec fn priority_spec(href: Seq<char>, parsed: (u16, u16)) -> u8 {
    if parsed.0 != 0 && parsed.1 != 0 {
        if parsed.0 == parsed.1 {
            if parsed.0 == 32 {
                1u8
            } else if parsed.0 == 64 {
                2u8
            } else if 24 <= parsed.0 && parsed.0 <= 128 {
                3u8
            } else if parsed.0 == 16 {
                4u8
            } else {
                5u8
            }
        } else {
            200u8
        }
    } else {
        extension_priority(href)
    }
}

/// Score a candidate icon from its `href` and declared `sizes`; lower is
/// more preferred.
pub fn get_icon_priority(href: &str, sizes: Option<&str>) -> (r: u8)
    ensures
        r == priority_spec(
            href@,
            parse_sizes_spec(match sizes {
                Some(s) => Some(s@),
                None => None,
            }),
        ),
{
    let (width, height) = parse_sizes(sizes);
    if width != 0 && height != 0 {
        if width == height {
            if width == 32 {
                1
            } else if width == 64 {
                2
            } else if width >= 24 && width <= 128 {
                3
            } else if width == 16 {
                4
            } else {
                5
            }
        } else {
            200
        }
    } else {
        proof {
            reveal_strlit(".png");
            reveal_strlit(".jpg");
            reveal_strlit(".jpeg");
            assert(".png"@ =~= seq!['.', 'p', 'n', 'g']);
            assert(".jpg"@ =~= seq!['.', 'j', 'p', 'g']);
            assert(".jpeg"@ =~= seq!['.', 'j', 'p', 'e', 'g']);
        }
        if crate::text::str_ends_with(href, ".png") {
            10
        } else if crate::text::str_ends_with(href, ".jpg") || crate::text::str_ends_with(
            href,
            ".jpeg",
        ) {
            20
        } else {
            30
        }
    }
}

} // verus!
