//! The value resolver: turns a cascaded property value into a used value
//! (pixel length, color, keyword), applying unit conversion and defaulting.
//!
//! Resolution is best-effort throughout: malformed or absent values fall back
//! to neutral defaults and never raise a hard error, so that one bad style
//! value cannot prevent the rest of the page from painting.

use vstd::prelude::*;

use crate::strutil::chars_eq_str;
use crate::strutil::chars_of;
use crate::strutil::spec_split;
use crate::strutil::split_chars;
use crate::strutil::lemma_spec_split_nonempty;

verus! {

/// Resolved pixel lengths are kept within this magnitude, so that the box
/// arithmetic downstream stays comfortably inside `i64`.
pub const LEN_MAX: i64 = 1_000_000_000_000;

/// Longest digit run accepted by the length parser; twelve digits keep every
/// parsed magnitude below `LEN_MAX`.
pub const MAX_LEN_DIGITS: usize = 12;

pub open spec fn is_ascii_digit(c: char) -> bool {
    '0' <= c && c <= '9'
}

pub open spec fn digit_value(c: char) -> int {
    c as int - '0' as int
}

/// The integer spelled by a sequence of decimal digits, most significant first.
pub open spec fn digits_value(s: Seq<char>) -> int
    decreases s.len(),
{
    if s.len() == 0 {
        0
    } else {
        10 * digits_value(s.drop_last()) + digit_value(s.last())
    }
}

pub open spec fn all_digits(s: Seq<char>) -> bool {
    forall|i: int| 0 <= i < s.len() ==> is_ascii_digit(s[i])
}

/// Length of the run of decimal digits at the front of `s`.
pub open spec fn digit_prefix_len(s: Seq<char>) -> int
    decreases s.len(),
{
    if s.len() == 0 || !is_ascii_digit(s[0]) {
        0
    } else {
        1 + digit_prefix_len(s.drop_first())
    }
}

/// A numeric body accepted by the length parser: an optional minus sign, one
/// to twelve integer digits, optionally followed by a fractional part that is
/// ignored (values are truncated toward zero).
pub open spec fn spec_parse_number(s: Seq<char>) -> Option<int> {
    if s.len() > 0 && s[0] == '-' {
        match spec_parse_magnitude(s.drop_first()) {
            Some(v) => Some(-v),
            None => None,
        }
    } else {
        spec_parse_magnitude(s)
    }
}

pub open spec fn spec_parse_magnitude(s: Seq<char>) -> Option<int> {
    let k = digit_prefix_len(s);
    if 1 <= k <= MAX_LEN_DIGITS && (k == s.len() || (s[k] == '.' && all_digits(
        s.subrange(k + 1, s.len() as int),
    ))) {
        Some(digits_value(s.subrange(0, k)))
    } else {
        None
    }
}

/// A pixel length: a number immediately followed by the suffix `px`.
/// Only the `px` unit has first-class support; any other spelling resolves to
/// a neutral fallback at its call site rather than failing.
pub open spec fn spec_parse_px(s: Seq<char>) -> Option<int> {
    if s.len() >= 2 && s[s.len() - 2] == 'p' && s[s.len() - 1] == 'x' {
        spec_parse_number(s.subrange(0, s.len() - 2))
    } else {
        None
    }
}

proof fn lemma_digit_prefix_len_bounds(s: Seq<char>)
    ensures
        0 <= digit_prefix_len(s) <= s.len(),
        forall|i: int| 0 <= i < digit_prefix_len(s) ==> is_ascii_digit(s[i]),
        digit_prefix_len(s) < s.len() ==> !is_ascii_digit(s[digit_prefix_len(s)]),
    decreases s.len(),
{
    if s.len() == 0 || !is_ascii_digit(s[0]) {
    } else {
        lemma_digit_prefix_len_bounds(s.drop_first());
        assert(forall|i: int|
            0 <= i < digit_prefix_len(s) ==> is_ascii_digit(#[trigger] s[i])) by {
            assert forall|i: int| 0 <= i < digit_prefix_len(s) implies is_ascii_digit(
                #[trigger] s[i],
            ) by {
                if i > 0 {
                    assert(s[i] == s.drop_first()[i - 1]);
                }
            }
        }
        if digit_prefix_len(s) < s.len() {
            assert(s[digit_prefix_len(s)] == s.drop_first()[digit_prefix_len(s) - 1]);
        }
    }
}

/// A run characterised from outside: `k` leading digits and then either the
/// end or a non-digit. That pins `digit_prefix_len` down to exactly `k`.
proof fn lemma_digit_prefix_len_is(s: Seq<char>, k: int)
    requires
        0 <= k <= s.len(),
        forall|i: int| 0 <= i < k ==> is_ascii_digit(s[i]),
        k < s.len() ==> !is_ascii_digit(s[k]),
    ensures
        digit_prefix_len(s) == k,
    decreases s.len(),
{
    if k == 0 {
    } else {
        assert(is_ascii_digit(s[0]));
        assert(forall|i: int| 0 <= i < k - 1 ==> is_ascii_digit(#[trigger] s.drop_first()[i]));
        lemma_digit_prefix_len_is(s.drop_first(), k - 1);
    }
}

proof fn lemma_digits_value_bound(s: Seq<char>, bound: int)
    requires
        all_digits(s),
        s.len() <= bound,
        0 <= bound,
    ensures
        0 <= digits_value(s) < pow10(bound),
    decreases s.len(),
{
    lemma_pow10_monotone(s.len() as int, bound);
    if s.len() == 0 {
        lemma_pow10_positive(bound);
    } else {
        lemma_digits_value_bound(s.drop_last(), bound - 1);
        lemma_pow10_positive(bound - 1);
        assert(digits_value(s) <= 10 * (pow10(bound - 1) - 1) + 9);
    }
}

pub open spec fn pow10(n: int) -> int
    decreases n,
{
    if n <= 0 {
        1
    } else {
        10 * pow10(n - 1)
    }
}

proof fn lemma_pow10_twelve()
    ensures
        pow10(MAX_LEN_DIGITS as int) == LEN_MAX,
{
    reveal_with_fuel(pow10, 13);
}

proof fn lemma_pow10_positive(n: int)
    ensures
        pow10(n) >= 1,
    decreases n,
{
    if n > 0 {
        lemma_pow10_positive(n - 1);
    }
}

proof fn lemma_pow10_monotone(a: int, b: int)
    requires
        a <= b,
    ensures
        pow10(a) <= pow10(b),
    decreases b - a,
{
    if a < b {
        lemma_pow10_monotone(a, b - 1);
        lemma_pow10_positive(b - 1);
    }
}

/// Every parsed magnitude fits below `LEN_MAX`.
proof fn lemma_parse_magnitude_bound(s: Seq<char>)
    ensures
        spec_parse_magnitude(s) matches Some(v) ==> 0 <= v < LEN_MAX,
{
    if spec_parse_magnitude(s) is Some {
        let k = digit_prefix_len(s);
        lemma_digit_prefix_len_bounds(s);
        assert(all_digits(s.subrange(0, k)));
        lemma_digits_value_bound(s.subrange(0, k), MAX_LEN_DIGITS as int);
        lemma_pow10_twelve();
    }
}

/// Bound carried by every parsed number.
pub proof fn lemma_parse_number_bound(s: Seq<char>)
    ensures
        spec_parse_number(s) matches Some(v) ==> -LEN_MAX < v < LEN_MAX,
{
    lemma_parse_magnitude_bound(s);
    if s.len() > 0 && s[0] == '-' {
        lemma_parse_magnitude_bound(s.drop_first());
    }
}

pub proof fn lemma_parse_px_bound(s: Seq<char>)
    ensures
        spec_parse_px(s) matches Some(v) ==> -LEN_MAX < v < LEN_MAX,
{
    if s.len() >= 2 {
        lemma_parse_number_bound(s.subrange(0, s.len() - 2));
    }
}

/// Parses the numeric body `v[lo..hi]` (no unit suffix).
#[verifier::loop_isolation(false)]
fn parse_number_range(v: &Vec<char>, lo: usize, hi: usize) -> (r: Option<i64>)
    requires
        lo <= hi <= v@.len(),
    ensures
        match r {
            Some(n) => spec_parse_number(v@.subrange(lo as int, hi as int)) == Some(n as int),
            None => spec_parse_number(v@.subrange(lo as int, hi as int)) is None,
        },
{
    let ghost body = v@.subrange(lo as int, hi as int);
    let neg = lo < hi && v[lo] == '-';
    let start = if neg {
        lo + 1
    } else {
        lo
    };
    let ghost mag = if neg {
        body.drop_first()
    } else {
        body
    };
    proof {
        assert(mag =~= v@.subrange(start as int, hi as int));
    }
    // Scan the run of digits, accumulating its value.
    let mut i = start;
    let mut acc: i64 = 0;
    while i < hi && '0' <= v[i] && v[i] <= '9'
        invariant
            lo <= start <= i <= hi <= v@.len(),
            i - start <= MAX_LEN_DIGITS,
            mag == v@.subrange(start as int, hi as int),
            forall|j: int| 0 <= j < i - start ==> is_ascii_digit(mag[j]),
            acc == digits_value(mag.subrange(0, i - start)),
            0 <= acc < LEN_MAX,
        decreases hi - i,
    {
        if i - start >= MAX_LEN_DIGITS {
            // A thirteenth digit makes the run too long to accept.
            proof {
                lemma_digit_prefix_len_bounds(mag);
                assert(is_ascii_digit(mag[i - start]));
                if digit_prefix_len(mag) <= MAX_LEN_DIGITS {
                    assert(digit_prefix_len(mag) < mag.len());
                    assert(is_ascii_digit(mag[digit_prefix_len(mag)]));
                }
            }
            return None;
        }
        let d = v[i] as i64 - '0' as i64;
        proof {
            let pre = mag.subrange(0, i - start);
            let ext = mag.subrange(0, i + 1 - start);
            assert(ext.drop_last() =~= pre);
            assert(all_digits(ext));
            lemma_digits_value_bound(ext, MAX_LEN_DIGITS as int);
            lemma_pow10_twelve();
        }
        acc = acc * 10 + d;
        i += 1;
    }
    let k = i - start;
    if k == 0 {
        proof {
            lemma_digit_prefix_len_is(mag, 0);
        }
        return None;
    }
    proof {
        lemma_digit_prefix_len_is(mag, k as int);
    }
    // After the digit run: either the end, or a dot followed by digits only.
    if i < hi {
        if v[i] != '.' {
            return None;
        }
        let mut j = i + 1;
        while j < hi
            invariant
                i < j <= hi <= v@.len(),
                start <= i,
                mag == v@.subrange(start as int, hi as int),
                forall|t: int| i + 1 - start <= t < j - start ==> is_ascii_digit(mag[t]),
            decreases hi - j,
        {
            let c = v[j];
            if !('0' <= c && c <= '9') {
                proof {
                    let rest = mag.subrange(k as int + 1, mag.len() as int);
                    assert(rest[j - start - k - 1] == mag[j - start]);
                    assert(mag[j - start] == v@[j as int]);
                    assert(!is_ascii_digit(rest[j - start - k - 1]));
                }
                return None;
            }
            j += 1;
        }
        proof {
            assert(forall|t: int|
                0 <= t < mag.subrange(k as int + 1, mag.len() as int).len()
                    ==> is_ascii_digit(#[trigger] mag.subrange(k as int + 1, mag.len() as int)[t]));
        }
    }
    if neg {
        Some(-acc)
    } else {
        Some(acc)
    }
}

/// Parses a pixel length such as `"42px"`; anything else is `None`.
pub fn parse_px(v: &Vec<char>) -> (r: Option<i64>)
    ensures
        match r {
            Some(n) => spec_parse_px(v@) == Some(n as int) && -LEN_MAX < n < LEN_MAX,
            None => spec_parse_px(v@) is None,
        },
{
    let n = v.len();
    if n < 2 || v[n - 2] != 'p' || v[n - 1] != 'x' {
        return None;
    }
    proof {
        lemma_parse_px_bound(v@);
    }
    parse_number_range(v, 0, n - 2)
}

// ---------------------------------------------------------------------------
// Colors
// ---------------------------------------------------------------------------

/// A color with 8-bit channels, the paint attribute carried by commands.
#[derive(Clone, Copy, PartialEq, Eq, Structural, Debug)]
pub struct Rgba {
    pub r: u8,
    pub g: u8,
    pub b: u8,
    pub a: u8,
}

pub open spec fn is_hex_digit(c: char) -> bool {
    is_ascii_digit(c) || ('a' <= c && c <= 'f') || ('A' <= c && c <= 'F')
}

pub open spec fn hex_value(c: char) -> int {
    if is_ascii_digit(c) {
        c as int - '0' as int
    } else if 'a' <= c && c <= 'f' {
        c as int - 'a' as int + 10
    } else {
        c as int - 'A' as int + 10
    }
}

pub open spec fn all_hex(s: Seq<char>) -> bool {
    forall|i: int| 0 <= i < s.len() ==> is_hex_digit(s[i])
}

/// Two hex digits as one byte value.
pub open spec fn hex_byte(h: char, l: char) -> int {
    16 * hex_value(h) + hex_value(l)
}

/// Hex color notations: `#rgb`, `#rgba`, `#rrggbb` and `#rrggbbaa`.
/// In the short forms each digit is doubled (`#f00` is `#ff0000`).
pub open spec fn spec_parse_hex_color(s: Seq<char>) -> Option<Rgba> {
    if s.len() > 0 && s[0] == '#' && all_hex(s.subrange(1, s.len() as int)) {
        if s.len() == 4 {
            Some(Rgba {
                r: (17 * hex_value(s[1])) as u8,
                g: (17 * hex_value(s[2])) as u8,
                b: (17 * hex_value(s[3])) as u8,
                a: 255,
            })
        } else if s.len() == 5 {
            Some(Rgba {
                r: (17 * hex_value(s[1])) as u8,
                g: (17 * hex_value(s[2])) as u8,
                b: (17 * hex_value(s[3])) as u8,
                a: (17 * hex_value(s[4])) as u8,
            })
        } else if s.len() == 7 {
            Some(Rgba {
                r: hex_byte(s[1], s[2]) as u8,
                g: hex_byte(s[3], s[4]) as u8,
                b: hex_byte(s[5], s[6]) as u8,
                a: 255,
            })
        } else if s.len() == 9 {
            Some(Rgba {
                r: hex_byte(s[1], s[2]) as u8,
                g: hex_byte(s[3], s[4]) as u8,
                b: hex_byte(s[5], s[6]) as u8,
                a: hex_byte(s[7], s[8]) as u8,
            })
        } else {
            None
        }
    } else {
        None
    }
}

/// The named colors this resolver knows: the sixteen basic CSS colors,
/// `orange`, and `transparent`. Matching is exact (lower case).
pub open spec fn spec_named_color(s: Seq<char>) -> Option<Rgba> {
    if s == "black"@ {
        Some(Rgba { r: 0, g: 0, b: 0, a: 255 })
    } else if s == "silver"@ {
        Some(Rgba { r: 192, g: 192, b: 192, a: 255 })
    } else if s == "gray"@ {
        Some(Rgba { r: 128, g: 128, b: 128, a: 255 })
    } else if s == "white"@ {
        Some(Rgba { r: 255, g: 255, b: 255, a: 255 })
    } else if s == "maroon"@ {
        Some(Rgba { r: 128, g: 0, b: 0, a: 255 })
    } else if s == "red"@ {
        Some(Rgba { r: 255, g: 0, b: 0, a: 255 })
    } else if s == "purple"@ {
        Some(Rgba { r: 128, g: 0, b: 128, a: 255 })
    } else if s == "fuchsia"@ {
        Some(Rgba { r: 255, g: 0, b: 255, a: 255 })
    } else if s == "green"@ {
        Some(Rgba { r: 0, g: 128, b: 0, a: 255 })
    } else if s == "lime"@ {
        Some(Rgba { r: 0, g: 255, b: 0, a: 255 })
    } else if s == "olive"@ {
        Some(Rgba { r: 128, g: 128, b: 0, a: 255 })
    } else if s == "yellow"@ {
        Some(Rgba { r: 255, g: 255, b: 0, a: 255 })
    } else if s == "navy"@ {
        Some(Rgba { r: 0, g: 0, b: 128, a: 255 })
    } else if s == "blue"@ {
        Some(Rgba { r: 0, g: 0, b: 255, a: 255 })
    } else if s == "teal"@ {
        Some(Rgba { r: 0, g: 128, b: 128, a: 255 })
    } else if s == "aqua"@ {
        Some(Rgba { r: 0, g: 255, b: 255, a: 255 })
    } else if s == "orange"@ {
        Some(Rgba { r: 255, g: 165, b: 0, a: 255 })
    } else if s == "transparent"@ {
        Some(Rgba { r: 0, g: 0, b: 0, a: 0 })
    } else {
        None
    }
}

/// A color value: a hex notation or a known color name. Anything else is
/// unparsable and resolves to fully transparent black at the call sites.
pub open spec fn spec_parse_color(s: Seq<char>) -> Option<Rgba> {
    if s.len() > 0 && s[0] == '#' {
        spec_parse_hex_color(s)
    } else {
        spec_named_color(s)
    }
}

fn hex_digit_value(c: char) -> (r: Option<u8>)
    ensures
        match r {
            Some(v) => is_hex_digit(c) && v as int == hex_value(c) && v < 16,
            None => !is_hex_digit(c),
        },
{
    if '0' <= c && c <= '9' {
        Some(c as u8 - '0' as u8)
    } else if 'a' <= c && c <= 'f' {
        Some(c as u8 - 'a' as u8 + 10)
    } else if 'A' <= c && c <= 'F' {
        Some(c as u8 - 'A' as u8 + 10)
    } else {
        None
    }
}

/// One byte out of the hex digits at positions `i` and `i + 1`.
fn hex_byte_at(v: &Vec<char>, i: usize) -> (b: u8)
    requires
        i + 1 < v@.len(),
        is_hex_digit(v@[i as int]),
        is_hex_digit(v@[i + 1]),
    ensures
        b as int == hex_byte(v@[i as int], v@[i + 1]),
{
    let n = v.len();
    let h = match hex_digit_value(v[i]) {
        Some(h) => h,
        None => {
            proof {
                assert(false);
            }
            0
        },
    };
    let l = match hex_digit_value(v[i + 1]) {
        Some(l) => l,
        None => {
            proof {
                assert(false);
            }
            0
        },
    };
    16 * h + l
}

/// One channel out of the single, doubled hex digit at position `i`.
fn hex_short_at(v: &Vec<char>, i: usize) -> (b: u8)
    requires
        i < v@.len(),
        is_hex_digit(v@[i as int]),
    ensures
        b as int == 17 * hex_value(v@[i as int]),
{
    match hex_digit_value(v[i]) {
        Some(h) => 17 * h,
        None => {
            proof {
                assert(false);
            }
            0
        },
    }
}

#[verifier::loop_isolation(false)]
fn parse_hex_color(v: &Vec<char>) -> (r: Option<Rgba>)
    requires
        v@.len() > 0,
        v@[0] == '#',
    ensures
        r == spec_parse_hex_color(v@),
{
    let n = v.len();
    if n != 4 && n != 5 && n != 7 && n != 9 {
        return None;
    }
    let ghost digits = v@.subrange(1, n as int);
    let mut i: usize = 1;
    while i < n
        invariant
            1 <= i <= n,
            forall|j: int| 1 <= j < i ==> is_hex_digit(v@[j]),
        decreases n - i,
    {
        if hex_digit_value(v[i]).is_none() {
            proof {
                assert(!is_hex_digit(digits[i - 1]));
            }
            return None;
        }
        i += 1;
    }
    proof {
        assert forall|j: int| 0 <= j < digits.len() implies is_hex_digit(#[trigger] digits[j]) by {
            assert(digits[j] == v@[j + 1]);
        }
    }
    if n == 4 || n == 5 {
        let r = hex_short_at(v, 1);
        let g = hex_short_at(v, 2);
        let b = hex_short_at(v, 3);
        let a = if n == 5 {
            hex_short_at(v, 4)
        } else {
            255
        };
        Some(Rgba { r, g, b, a })
    } else {
        let r = hex_byte_at(v, 1);
        let g = hex_byte_at(v, 3);
        let b = hex_byte_at(v, 5);
        let a = if n == 9 {
            hex_byte_at(v, 7)
        } else {
            255
        };
        Some(Rgba { r, g, b, a })
    }
}

pub fn parse_color(v: &Vec<char>) -> (r: Option<Rgba>)
    ensures
        r == spec_parse_color(v@),
{
    if v.len() > 0 && v[0] == '#' {
        return parse_hex_color(v);
    }
    if chars_eq_str(v, "black") {
        Some(Rgba { r: 0, g: 0, b: 0, a: 255 })
    } else if chars_eq_str(v, "silver") {
        Some(Rgba { r: 192, g: 192, b: 192, a: 255 })
    } else if chars_eq_str(v, "gray") {
        Some(Rgba { r: 128, g: 128, b: 128, a: 255 })
    } else if chars_eq_str(v, "white") {
        Some(Rgba { r: 255, g: 255, b: 255, a: 255 })
    } else if chars_eq_str(v, "maroon") {
        Some(Rgba { r: 128, g: 0, b: 0, a: 255 })
    } else if chars_eq_str(v, "red") {
        Some(Rgba { r: 255, g: 0, b: 0, a: 255 })
    } else if chars_eq_str(v, "purple") {
        Some(Rgba { r: 128, g: 0, b: 128, a: 255 })
    } else if chars_eq_str(v, "fuchsia") {
        Some(Rgba { r: 255, g: 0, b: 255, a: 255 })
    } else if chars_eq_str(v, "green") {
        Some(Rgba { r: 0, g: 128, b: 0, a: 255 })
    } else if chars_eq_str(v, "lime") {
        Some(Rgba { r: 0, g: 255, b: 0, a: 255 })
    } else if chars_eq_str(v, "olive") {
        Some(Rgba { r: 128, g: 128, b: 0, a: 255 })
    } else if chars_eq_str(v, "yellow") {
        Some(Rgba { r: 255, g: 255, b: 0, a: 255 })
    } else if chars_eq_str(v, "navy") {
        Some(Rgba { r: 0, g: 0, b: 128, a: 255 })
    } else if chars_eq_str(v, "blue") {
        Some(Rgba { r: 0, g: 0, b: 255, a: 255 })
    } else if chars_eq_str(v, "teal") {
        Some(Rgba { r: 0, g: 128, b: 128, a: 255 })
    } else if chars_eq_str(v, "aqua") {
        Some(Rgba { r: 0, g: 255, b: 255, a: 255 })
    } else if chars_eq_str(v, "orange") {
        Some(Rgba { r: 255, g: 165, b: 0, a: 255 })
    } else if chars_eq_str(v, "transparent") {
        Some(Rgba { r: 0, g: 0, b: 0, a: 0 })
    } else {
        None
    }
}


// ---------------------------------------------------------------------------
// Values and properties
// ---------------------------------------------------------------------------

/// The unit of a typed length value. Only `px` has first-class support;
/// every other unit resolves to the neutral fallback `0`.
#[derive(Clone, Copy, PartialEq, Eq, Structural, Debug)]
pub enum Unit {
    Px,
    Percent,
    Other,
}

/// A cascaded property value as authored: a keyword, a typed length or color,
/// or a composite string that still needs parsing (such as a `border-radius`
/// shorthand or a hex color).
#[derive(Debug)]
pub enum CssValue {
    Keyword(String),
    Length(i64, Unit),
    Color(Rgba),
    CompositeString(String),
}

/// A used value: the concrete, typed outcome of resolving a cascaded value.
/// Pixel lengths are always within `LEN_MAX` in magnitude.
#[derive(Debug)]
pub enum UsedValue {
    Px(i64),
    Color(Rgba),
    Keyword(String),
}

/// Clamps a length into the `LEN_MAX` range.
pub open spec fn spec_clamp_len(n: int) -> i64 {
    if n > LEN_MAX {
        LEN_MAX
    } else if n < -LEN_MAX {
        (-LEN_MAX) as i64
    } else {
        n as i64
    }
}

pub fn clamp_len(n: i64) -> (r: i64)
    ensures
        r == spec_clamp_len(n as int),
{
    if n > LEN_MAX {
        LEN_MAX
    } else if n < -LEN_MAX {
        -LEN_MAX
    } else {
        n
    }
}

/// Resolution of a string-encoded value: a parsable pixel length becomes a
/// length, a parsable color becomes a color, and anything else stays a keyword.
pub open spec fn spec_canonical_text(s: String) -> UsedValue {
    match spec_parse_px(s@) {
        Some(n) => UsedValue::Px(spec_clamp_len(n)),
        None => match spec_parse_color(s@) {
            Some(c) => UsedValue::Color(c),
            None => UsedValue::Keyword(s),
        },
    }
}

/// The canonical used value of a cascaded value: typed lengths and colors pass
/// through (lengths clamped, foreign units zeroed), strings are parsed once.
pub open spec fn spec_canonical(v: CssValue) -> UsedValue {
    match v {
        CssValue::Length(n, u) => match u {
            Unit::Px => UsedValue::Px(spec_clamp_len(n as int)),
            _ => UsedValue::Px(0),
        },
        CssValue::Color(c) => UsedValue::Color(c),
        CssValue::Keyword(s) => spec_canonical_text(s),
        CssValue::CompositeString(s) => spec_canonical_text(s),
    }
}

fn canonical_text(s: &String) -> (r: UsedValue)
    ensures
        r == spec_canonical_text(*s),
{
    let cv = chars_of(s.as_str());
    match parse_px(&cv) {
        Some(n) => UsedValue::Px(n),
        None => match parse_color(&cv) {
            Some(c) => UsedValue::Color(c),
            None => UsedValue::Keyword(s.clone()),
        },
    }
}

/// Resolves a cascaded value to its used value.
pub fn canonical(v: &CssValue) -> (r: UsedValue)
    ensures
        r == spec_canonical(*v),
{
    match v {
        CssValue::Length(n, u) => match u {
            Unit::Px => UsedValue::Px(clamp_len(*n)),
            _ => UsedValue::Px(0),
        },
        CssValue::Color(c) => UsedValue::Color(*c),
        CssValue::Keyword(s) => canonical_text(s),
        CssValue::CompositeString(s) => canonical_text(s),
    }
}

/// A property: its name, the value as authored, and the used-value slot that
/// starts empty and is filled at most once. Once computed, the slot always
/// holds the canonical resolution of the specified value, and it is stable
/// for the lifetime of the tree snapshot.
#[derive(Debug)]
pub struct Property {
    pub name: String,
    pub specified: CssValue,
    pub used: Option<UsedValue>,
}

impl Property {
    /// The used value this property resolves to: the cached slot when it has
    /// been filled, the canonical resolution of the specified value otherwise.
    /// The resolver tolerates both states.
    pub open spec fn effective_spec(&self) -> UsedValue {
        match self.used {
            Some(u) => u,
            None => spec_canonical(self.specified),
        }
    }

    pub fn new(name: String, specified: CssValue) -> (p: Property)
        ensures
            p.name == name,
            p.specified == specified,
            p.used is None,
    {
        Property { name, specified, used: None }
    }

    /// Fills the used-value slot. Resolving an already-resolved property is a
    /// no-op that keeps the cached value: resolution is idempotent.
    pub fn compute_value(&mut self)
        ensures
            final(self).name == old(self).name,
            final(self).specified == old(self).specified,
            final(self).used == Some(old(self).effective_spec()),
    {
        if self.used.is_none() {
            self.used = Some(canonical(&self.specified));
        }
    }

    /// The used value, computing it on the fly when the slot is still empty.
    pub fn effective(&self) -> (r: UsedValue)
        ensures
            r == self.effective_spec(),
    {
        match &self.used {
            Some(u) => clone_used(u),
            None => canonical(&self.specified),
        }
    }
}

fn clone_used(u: &UsedValue) -> (r: UsedValue)
    ensures
        r == *u,
{
    match u {
        UsedValue::Px(n) => UsedValue::Px(*n),
        UsedValue::Color(c) => UsedValue::Color(*c),
        UsedValue::Keyword(s) => UsedValue::Keyword(s.clone()),
    }
}

// ---------------------------------------------------------------------------
// Radius shorthand
// ---------------------------------------------------------------------------

/// Per-corner radii, in document order: top-left, top-right, bottom-right,
/// bottom-left.
#[derive(Clone, Copy, PartialEq, Eq, Structural, Debug)]
pub struct Radii {
    pub tl: i64,
    pub tr: i64,
    pub br: i64,
    pub bl: i64,
}

/// A shorthand component: a pixel length, or `0` for anything else.
pub open spec fn spec_px_or_zero(t: Seq<char>) -> i64 {
    match spec_parse_px(t) {
        Some(n) => spec_clamp_len(n),
        None => 0,
    }
}

/// The corners named by a radius shorthand, split on single spaces: missing
/// corners default from previously parsed ones. The top-right and bottom-right
/// corners default from the top-left one, and the bottom-left corner defaults
/// from the top-right one.
pub open spec fn spec_radii_from_shorthand(s: Seq<char>) -> Radii {
    let toks = spec_split(s, ' ');
    let tl = spec_px_or_zero(toks[0]);
    let tr = if toks.len() >= 2 {
        spec_px_or_zero(toks[1])
    } else {
        tl
    };
    let br = if toks.len() >= 3 {
        spec_px_or_zero(toks[2])
    } else {
        tl
    };
    let bl = if toks.len() >= 4 {
        spec_px_or_zero(toks[3])
    } else {
        tr
    };
    Radii { tl, tr, br, bl }
}

fn px_or_zero(t: &Vec<char>) -> (r: i64)
    ensures
        r == spec_px_or_zero(t@),
{
    match parse_px(t) {
        Some(n) => n,
        None => 0,
    }
}

/// Resolves a radius shorthand string such as `"4px 2px"`.
pub fn radii_from_shorthand(v: &Vec<char>) -> (r: Radii)
    ensures
        r == spec_radii_from_shorthand(v@),
{
    let toks = split_chars(v, ' ');
    proof {
        lemma_spec_split_nonempty(v@, ' ');
        assert(toks.deep_view().len() == toks@.len());
        assert(toks.deep_view()[0] == toks@[0].deep_view());
            assert(toks@[0].deep_view() =~= toks@[0]@);
    }
    let tl = px_or_zero(&toks[0]);
    let tr = if toks.len() >= 2 {
        proof {
            assert(toks.deep_view()[1] == toks@[1].deep_view());
            assert(toks@[1].deep_view() =~= toks@[1]@);
        }
        px_or_zero(&toks[1])
    } else {
        tl
    };
    let br = if toks.len() >= 3 {
        proof {
            assert(toks.deep_view()[2] == toks@[2].deep_view());
            assert(toks@[2].deep_view() =~= toks@[2]@);
        }
        px_or_zero(&toks[2])
    } else {
        tl
    };
    let bl = if toks.len() >= 4 {
        proof {
            assert(toks.deep_view()[3] == toks@[3].deep_view());
            assert(toks@[3].deep_view() =~= toks@[3]@);
        }
        px_or_zero(&toks[3])
    } else {
        tr
    };
    Radii { tl, tr, br, bl }
}

} // verus!
