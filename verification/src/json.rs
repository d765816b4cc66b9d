//! A verified codec for the JSON subset the manifests use.
//!
//! The remote manifest and the persisted metadata file are JSON objects of
//! strings, arrays of strings and integers. The parser below accepts
//! standard JSON for those shapes — whitespace anywhere between tokens,
//! the standard string escapes including `\uXXXX` with surrogate pairs,
//! and unknown object members of any JSON type, which are skipped — and
//! each executable function is proved equal to the specification-level
//! parser it mirrors. Recursion into nested values is bounded by a fuel
//! argument; callers pass the input length, which every reachable nesting
//! stays under.

use crate::strnum::{dec_value, digit_value, is_dec_digit};
use vstd::prelude::*;

verus! {

/// The four JSON whitespace characters.
pub open spec fn is_json_ws(c: char) -> bool {
    c == ' ' || c == '\t' || c == '\n' || c == '\r'
}

/// The first index at or after `i` holding no whitespace (or the end).
pub open spec fn sp_ws(s: Seq<char>, i: int) -> int
    decreases s.len() - i,
{
    if 0 <= i < s.len() && is_json_ws(s[i]) {
        sp_ws(s, i + 1)
    } else {
        i
    }
}

/// Whitespace skipping moves forward and never past the end.
pub proof fn lemma_sp_ws_bounds(s: Seq<char>, i: int)
    requires
        0 <= i <= s.len(),
    ensures
        i <= sp_ws(s, i) <= s.len(),
    decreases s.len() - i,
{
    if i < s.len() && is_json_ws(s[i]) {
        lemma_sp_ws_bounds(s, i + 1);
    }
}

/// Advances past whitespace.
pub fn skip_ws(v: &[char], i: usize) -> (r: usize)
    requires
        i <= v@.len(),
    ensures
        r == sp_ws(v@, i as int),
        i <= r <= v@.len(),
    decreases v@.len() - i,
{
    if i < v.len() {
        let c = v[i];
        if c == ' ' || c == '\t' || c == '\n' || c == '\r' {
            return skip_ws(v, i + 1);
        }
    }
    i
}

/// The value of a hexadecimal digit character, or 16 when it is none.
pub open spec fn hex_char_value(c: char) -> int {
    if is_dec_digit(c) {
        c as int - '0' as int
    } else if 'a' <= c && c <= 'f' {
        c as int - 'a' as int + 10
    } else if 'A' <= c && c <= 'F' {
        c as int - 'A' as int + 10
    } else {
        16
    }
}

/// Four hexadecimal digits at `i`, as a value below 0x10000.
pub open spec fn sp_hex4(s: Seq<char>, i: int) -> Option<int> {
    if i + 4 <= s.len() && hex_char_value(s[i]) < 16 && hex_char_value(s[i + 1]) < 16
        && hex_char_value(s[i + 2]) < 16 && hex_char_value(s[i + 3]) < 16 {
        Some(
            ((hex_char_value(s[i]) * 16 + hex_char_value(s[i + 1])) * 16 + hex_char_value(
                s[i + 2],
            )) * 16 + hex_char_value(s[i + 3]),
        )
    } else {
        None
    }
}

/// The hexadecimal value of one character, 16 marking a non-digit.
fn hex_char_val(c: char) -> (r: u32)
    ensures
        r == hex_char_value(c),
        r <= 16,
{
    if '0' <= c && c <= '9' {
        (c as u32) - ('0' as u32)
    } else if 'a' <= c && c <= 'f' {
        (c as u32) - ('a' as u32) + 10
    } else if 'A' <= c && c <= 'F' {
        (c as u32) - ('A' as u32) + 10
    } else {
        16
    }
}

/// Reads four hexadecimal digits at `i`.
fn read_hex4(v: &[char], i: usize) -> (r: Option<u32>)
    requires
        i <= v@.len(),
    ensures
        (r is Some) == (sp_hex4(v@, i as int) is Some),
        r matches Some(x) ==> (Some(x as int) == sp_hex4(v@, i as int) && x < 0x10000),
{
    if v.len() < 4 || i > v.len() - 4 {
        return None;
    }
    let a = hex_char_val(v[i]);
    let b = hex_char_val(v[i + 1]);
    let c = hex_char_val(v[i + 2]);
    let d = hex_char_val(v[i + 3]);
    if a < 16 && b < 16 && c < 16 && d < 16 {
        Some(((a * 16 + b) * 16 + c) * 16 + d)
    } else {
        None
    }
}

/// Relies on char::from_u32: a character for every scalar value outside
/// the surrogate range, nothing otherwise.
#[verifier::external_body]
fn char_from_u32(x: u32) -> (r: Option<char>)
    ensures
        r == (if x < 0xD800 || (0xE000 <= x && x < 0x110000) {
            Some(x as char)
        } else {
            Option::<char>::None
        }),
{
    char::from_u32(x)
}

/// Decodes one string escape; `i` points just after the backslash.
/// Yields the character and the position after the escape. Surrogate
/// pairs in `\uXXXX` form decode to one character; lone surrogates are
/// rejected.
pub open spec fn sp_escape(s: Seq<char>, i: int) -> Option<(char, int)> {
    if i >= s.len() {
        None
    } else {
        let c = s[i];
        if c == '"' {
            Some(('"', i + 1))
        } else if c == '\\' {
            Some(('\\', i + 1))
        } else if c == '/' {
            Some(('/', i + 1))
        } else if c == 'b' {
            Some(('\u{0008}', i + 1))
        } else if c == 'f' {
            Some(('\u{000C}', i + 1))
        } else if c == 'n' {
            Some(('\n', i + 1))
        } else if c == 'r' {
            Some(('\r', i + 1))
        } else if c == 't' {
            Some(('\t', i + 1))
        } else if c == 'u' {
            match sp_hex4(s, i + 1) {
                Option::None => None,
                Option::Some(hi) => {
                    if hi < 0xD800 || hi >= 0xE000 {
                        Some(((hi as u32) as char, i + 5))
                    } else if hi < 0xDC00 {
                        if i + 7 <= s.len() && s[i + 5] == '\\' && s[i + 6] == 'u' {
                            match sp_hex4(s, i + 7) {
                                Option::None => None,
                                Option::Some(lo) => {
                                    if 0xDC00 <= lo && lo < 0xE000 {
                                        Some(
                                            (
                                                ((0x10000 + (hi - 0xD800) * 0x400 + (lo
                                                    - 0xDC00)) as u32) as char,
                                                i + 11,
                                            ),
                                        )
                                    } else {
                                        None
                                    }
                                },
                            }
                        } else {
                            None
                        }
                    } else {
                        None
                    }
                },
            }
        } else {
            None
        }
    }
}

/// A decoded escape always moves forward.
pub proof fn lemma_sp_escape_bounds(s: Seq<char>, i: int)
    requires
        0 <= i,
        sp_escape(s, i) is Some,
    ensures
        ({
            let (c, j) = sp_escape(s, i)->0;
            i < j
        }),
{
}

/// Decodes one escape, mirroring [`sp_escape`].
fn read_escape(v: &[char], i: usize) -> (r: Option<(char, usize)>)
    requires
        i <= v@.len(),
    ensures
        (r is Some) == (sp_escape(v@, i as int) is Some),
        r matches Some((c, j)) ==> (Some((c, j as int)) == sp_escape(v@, i as int) && i < j
            <= v@.len()),
{
    if i >= v.len() {
        return None;
    }
    let c = v[i];
    if c == '"' {
        Some(('"', i + 1))
    } else if c == '\\' {
        Some(('\\', i + 1))
    } else if c == '/' {
        Some(('/', i + 1))
    } else if c == 'b' {
        Some(('\u{0008}', i + 1))
    } else if c == 'f' {
        Some(('\u{000C}', i + 1))
    } else if c == 'n' {
        Some(('\n', i + 1))
    } else if c == 'r' {
        Some(('\r', i + 1))
    } else if c == 't' {
        Some(('\t', i + 1))
    } else if c == 'u' {
        match read_hex4(v, i + 1) {
            Option::None => None,
            Option::Some(hi) => {
                if hi < 0xD800 || hi >= 0xE000 {
                    match char_from_u32(hi) {
                        Option::Some(ch) => Some((ch, i + 5)),
                        Option::None => None,
                    }
                } else if hi < 0xDC00 {
                    if v.len() >= 7 && i <= v.len() - 7 && v[i + 5] == '\\' && v[i + 6] == 'u' {
                        match read_hex4(v, i + 7) {
                            Option::None => None,
                            Option::Some(lo) => {
                                if 0xDC00 <= lo && lo < 0xE000 {
                                    let x: u32 = 0x10000 + (hi - 0xD800) * 0x400 + (lo - 0xDC00);
                                    match char_from_u32(x) {
                                        Option::Some(ch) => Some((ch, i + 11)),
                                        Option::None => None,
                                    }
                                } else {
                                    None
                                }
                            },
                        }
                    } else {
                        None
                    }
                } else {
                    None
                }
            },
        }
    } else {
        None
    }
}

/// Parses a string body from just after the opening quote: the decoded
/// characters and the position after the closing quote. Unterminated
/// strings, raw control characters and bad escapes yield nothing.
pub open spec fn sp_string_body(s: Seq<char>, i: int, fuel: nat) -> Option<(Seq<char>, int)>
    decreases fuel,
{
    if i >= s.len() || fuel == 0 {
        None
    } else {
        let c = s[i];
        if c == '"' {
            Some((Seq::empty(), i + 1))
        } else if c == '\\' {
            match sp_escape(s, i + 1) {
                Option::None => None,
                Option::Some((d, j)) => match sp_string_body(s, j, (fuel - 1) as nat) {
                    Option::None => None,
                    Option::Some((rest, k)) => Some((seq![d] + rest, k)),
                },
            }
        } else if (c as u32) < 0x20 {
            None
        } else {
            match sp_string_body(s, i + 1, (fuel - 1) as nat) {
                Option::None => None,
                Option::Some((rest, k)) => Some((seq![c] + rest, k)),
            }
        }
    }
}

/// A parsed string body ends after where it began, within the input.
pub proof fn lemma_sp_string_body_bounds(s: Seq<char>, i: int, fuel: nat)
    requires
        0 <= i,
        sp_string_body(s, i, fuel) is Some,
    ensures
        ({
            let (t, j) = sp_string_body(s, i, fuel)->0;
            i < j <= s.len()
        }),
    decreases fuel,
{
    let c = s[i];
    if c == '"' {
    } else if c == '\\' {
        let (d, j) = sp_escape(s, i + 1)->0;
        lemma_sp_escape_bounds(s, i + 1);
        lemma_sp_string_body_bounds(s, j, (fuel - 1) as nat);
    } else {
        lemma_sp_string_body_bounds(s, i + 1, (fuel - 1) as nat);
    }
}

/// Parses a string body, mirroring [`sp_string_body`]; the decoded
/// characters are collected into `out`.
pub fn read_string_body(v: &[char], i: usize, fuel: usize) -> (r: Option<(Vec<char>, usize)>)
    requires
        i <= v@.len(),
    ensures
        (r is Some) == (sp_string_body(v@, i as int, fuel as nat) is Some),
        r matches Some((out, j)) ==> (Some((out@, j as int)) == sp_string_body(
            v@,
            i as int,
            fuel as nat,
        ) && i < j <= v@.len()),
    decreases fuel,
{
    if i >= v.len() || fuel == 0 {
        return None;
    }
    let c = v[i];
    if c == '"' {
        let out: Vec<char> = Vec::new();
        assert(out@ =~= Seq::<char>::empty());
        Some((out, i + 1))
    } else if c == '\\' {
        match read_escape(v, i + 1) {
            Option::None => None,
            Option::Some((d, j)) => match read_string_body(v, j, fuel - 1) {
                Option::None => None,
                Option::Some((rest, k)) => {
                    let mut out: Vec<char> = Vec::new();
                    out.push(d);
                    let mut tail = rest;
                    out.append(&mut tail);
                    proof {
                        let (rv, k2) = sp_string_body(v@, j as int, (fuel - 1) as nat)->0;
                        assert(out@ =~= seq![d] + rv);
                    }
                    Some((out, k))
                },
            },
        }
    } else if (c as u32) < 0x20 {
        None
    } else {
        match read_string_body(v, i + 1, fuel - 1) {
            Option::None => None,
            Option::Some((rest, k)) => {
                let mut out: Vec<char> = Vec::new();
                out.push(c);
                let mut tail = rest;
                out.append(&mut tail);
                proof {
                    let (rv, k2) = sp_string_body(v@, i + 1, (fuel - 1) as nat)->0;
                    assert(out@ =~= seq![c] + rv);
                }
                Some((out, k))
            },
        }
    }
}

/// The end of the run of decimal digits starting at `i`.
pub open spec fn sp_digits_end(s: Seq<char>, i: int) -> int
    decreases s.len() - i,
{
    if 0 <= i < s.len() && is_dec_digit(s[i]) {
        sp_digits_end(s, i + 1)
    } else {
        i
    }
}

/// Digit runs stay within the input.
pub proof fn lemma_sp_digits_end_bounds(s: Seq<char>, i: int)
    requires
        0 <= i <= s.len(),
    ensures
        i <= sp_digits_end(s, i) <= s.len(),
    decreases s.len() - i,
{
    if i < s.len() && is_dec_digit(s[i]) {
        lemma_sp_digits_end_bounds(s, i + 1);
    }
}

/// Advances past decimal digits.
fn skip_digits(v: &[char], i: usize) -> (r: usize)
    requires
        i <= v@.len(),
    ensures
        r == sp_digits_end(v@, i as int),
        i <= r <= v@.len(),
    decreases v@.len() - i,
{
    if i < v.len() {
        let c = v[i];
        if '0' <= c && c <= '9' {
            return skip_digits(v, i + 1);
        }
    }
    i
}

/// Parses a JSON integer at `i`: an optional minus sign, then either a
/// single `0` or a nonzero digit followed by digits (JSON forbids leading
/// zeros). Yields its value and end position. Fractions and exponents
/// are not integers and are left to the caller to reject.
pub open spec fn sp_int(s: Seq<char>, i: int) -> Option<(int, int)> {
    let (neg, d0) = if i < s.len() && s[i] == '-' {
        (true, i + 1)
    } else {
        (false, i)
    };
    if d0 < s.len() && is_dec_digit(s[d0]) {
        let e = if s[d0] == '0' {
            d0 + 1
        } else {
            sp_digits_end(s, d0)
        };
        let m = dec_value(s.subrange(d0, e));
        Some((if neg { -m } else { m }, e))
    } else {
        None
    }
}

/// The end of the JSON number starting at `i`: an integer, an optional
/// fraction and an optional exponent, each with at least one digit.
pub open spec fn sp_skip_number(s: Seq<char>, i: int) -> Option<int> {
    match sp_int(s, i) {
        Option::None => None,
        Option::Some((v, e)) => {
            if e < s.len() && s[e] == '.' {
                let f = sp_digits_end(s, e + 1);
                if f == e + 1 {
                    None
                } else {
                    sp_skip_exponent(s, f)
                }
            } else {
                sp_skip_exponent(s, e)
            }
        },
    }
}

/// The end of the optional exponent part starting at `i`.
pub open spec fn sp_skip_exponent(s: Seq<char>, i: int) -> Option<int> {
    if i < s.len() && (s[i] == 'e' || s[i] == 'E') {
        let g = if i + 1 < s.len() && (s[i + 1] == '+' || s[i + 1] == '-') {
            i + 2
        } else {
            i + 1
        };
        let h = sp_digits_end(s, g);
        if h == g {
            None
        } else {
            Some(h)
        }
    } else {
        Some(i)
    }
}

/// The end of the JSON value starting at `i`, whatever its type; `None`
/// for malformed input (or when the fuel, which bounds recursion into
/// nested values, runs out).
pub open spec fn sp_skip_value(s: Seq<char>, i: int, fuel: nat) -> Option<int>
    decreases fuel,
{
    if fuel == 0 || i >= s.len() {
        None
    } else {
        let c = s[i];
        if c == '"' {
            match sp_string_body(s, i + 1, (fuel - 1) as nat) {
                Option::None => None,
                Option::Some((t, j)) => Some(j),
            }
        } else if c == '{' {
            sp_skip_members_first(s, i + 1, (fuel - 1) as nat)
        } else if c == '[' {
            sp_skip_elements_first(s, i + 1, (fuel - 1) as nat)
        } else if c == 't' {
            if s.len() - i >= 4 && s[i + 1] == 'r' && s[i + 2] == 'u' && s[i + 3] == 'e' {
                Some(i + 4)
            } else {
                None
            }
        } else if c == 'f' {
            if s.len() - i >= 5 && s[i + 1] == 'a' && s[i + 2] == 'l' && s[i + 3] == 's' && s[i
                + 4] == 'e' {
                Some(i + 5)
            } else {
                None
            }
        } else if c == 'n' {
            if s.len() - i >= 4 && s[i + 1] == 'u' && s[i + 2] == 'l' && s[i + 3] == 'l' {
                Some(i + 4)
            } else {
                None
            }
        } else {
            sp_skip_number(s, i)
        }
    }
}

/// The end of an object whose `{` was just consumed: either an empty
/// object or its members.
pub open spec fn sp_skip_members_first(s: Seq<char>, i: int, fuel: nat) -> Option<int>
    decreases fuel,
{
    if fuel == 0 {
        None
    } else {
        let k = sp_ws(s, i);
        if k < s.len() && s[k] == '}' {
            Some(k + 1)
        } else {
            sp_skip_members(s, i, (fuel - 1) as nat)
        }
    }
}

/// The end of one or more `"key": value` members followed by `}`.
pub open spec fn sp_skip_members(s: Seq<char>, i: int, fuel: nat) -> Option<int>
    decreases fuel,
{
    if fuel == 0 {
        None
    } else {
        let k = sp_ws(s, i);
        if k >= s.len() || s[k] != '"' {
            None
        } else {
            match sp_string_body(s, k + 1, (fuel - 1) as nat) {
                Option::None => None,
                Option::Some((key, j)) => {
                    let j2 = sp_ws(s, j);
                    if j2 >= s.len() || s[j2] != ':' {
                        None
                    } else {
                        let j3 = sp_ws(s, j2 + 1);
                        match sp_skip_value(s, j3, (fuel - 1) as nat) {
                            Option::None => None,
                            Option::Some(j4) => {
                                let j5 = sp_ws(s, j4);
                                if j5 < s.len() && s[j5] == ',' {
                                    sp_skip_members(s, j5 + 1, (fuel - 1) as nat)
                                } else if j5 < s.len() && s[j5] == '}' {
                                    Some(j5 + 1)
                                } else {
                                    None
                                }
                            },
                        }
                    }
                },
            }
        }
    }
}

/// The end of an array whose `[` was just consumed: either an empty
/// array or its elements.
pub open spec fn sp_skip_elements_first(s: Seq<char>, i: int, fuel: nat) -> Option<int>
    decreases fuel,
{
    if fuel == 0 {
        None
    } else {
        let k = sp_ws(s, i);
        if k < s.len() && s[k] == ']' {
            Some(k + 1)
        } else {
            sp_skip_elements(s, i, (fuel - 1) as nat)
        }
    }
}

/// The end of one or more array elements followed by `]`.
pub open spec fn sp_skip_elements(s: Seq<char>, i: int, fuel: nat) -> Option<int>
    decreases fuel,
{
    if fuel == 0 {
        None
    } else {
        let k = sp_ws(s, i);
        match sp_skip_value(s, k, (fuel - 1) as nat) {
            Option::None => None,
            Option::Some(j) => {
                let j2 = sp_ws(s, j);
                if j2 < s.len() && s[j2] == ',' {
                    sp_skip_elements(s, j2 + 1, (fuel - 1) as nat)
                } else if j2 < s.len() && s[j2] == ']' {
                    Some(j2 + 1)
                } else {
                    None
                }
            },
        }
    }
}

/// A run of digits holds digits: everything before its end is a decimal
/// digit.
pub proof fn lemma_sp_digits_all(s: Seq<char>, i: int)
    requires
        0 <= i <= s.len(),
    ensures
        forall|j: int| i <= j < sp_digits_end(s, i) ==> is_dec_digit(#[trigger] s[j]),
    decreases s.len() - i,
{
    if i < s.len() && is_dec_digit(s[i]) {
        lemma_sp_digits_all(s, i + 1);
    }
}

/// A parsed integer ends after where it began, within the input.
pub proof fn lemma_sp_int_bounds(s: Seq<char>, i: int)
    requires
        0 <= i <= s.len(),
        sp_int(s, i) is Some,
    ensures
        ({
            let (v, e) = sp_int(s, i)->0;
            i < e <= s.len()
        }),
{
    let d0 = if i < s.len() && s[i] == '-' {
        i + 1
    } else {
        i
    };
    lemma_sp_digits_end_bounds(s, d0);
    if d0 < s.len() && is_dec_digit(s[d0]) && s[d0] != '0' {
        assert(sp_digits_end(s, d0) == sp_digits_end(s, d0 + 1));
        lemma_sp_digits_end_bounds(s, d0 + 1);
    }
}

/// A skipped number ends after where it began, within the input.
pub proof fn lemma_sp_skip_number_bounds(s: Seq<char>, i: int)
    requires
        0 <= i <= s.len(),
        sp_skip_number(s, i) is Some,
    ensures
        i < sp_skip_number(s, i)->0 <= s.len(),
{
    lemma_sp_int_bounds(s, i);
    let (v, e) = sp_int(s, i)->0;
    if e < s.len() && s[e] == '.' {
        lemma_sp_digits_end_bounds(s, e + 1);
        let f = sp_digits_end(s, e + 1);
        lemma_sp_skip_exponent_bounds(s, f);
    } else {
        lemma_sp_skip_exponent_bounds(s, e);
    }
}

/// A skipped exponent ends no earlier than where it began, within the
/// input.
pub proof fn lemma_sp_skip_exponent_bounds(s: Seq<char>, i: int)
    requires
        0 <= i <= s.len(),
        sp_skip_exponent(s, i) is Some,
    ensures
        i <= sp_skip_exponent(s, i)->0 <= s.len(),
{
    if i < s.len() && (s[i] == 'e' || s[i] == 'E') {
        let g = if i + 1 < s.len() && (s[i + 1] == '+' || s[i + 1] == '-') {
            i + 2
        } else {
            i + 1
        };
        lemma_sp_digits_end_bounds(s, g);
    }
}

/// A skipped value ends after where it began, within the input.
pub proof fn lemma_sp_skip_value_bounds(s: Seq<char>, i: int, fuel: nat)
    requires
        0 <= i <= s.len(),
        sp_skip_value(s, i, fuel) is Some,
    ensures
        i < sp_skip_value(s, i, fuel)->0 <= s.len(),
    decreases fuel,
{
    let c = s[i];
    if c == '"' {
        lemma_sp_string_body_bounds(s, i + 1, (fuel - 1) as nat);
    } else if c == '{' {
        lemma_sp_skip_members_first_bounds(s, i + 1, (fuel - 1) as nat);
    } else if c == '[' {
        lemma_sp_skip_elements_first_bounds(s, i + 1, (fuel - 1) as nat);
    } else if c == 't' || c == 'f' || c == 'n' {
    } else {
        lemma_sp_skip_number_bounds(s, i);
    }
}

/// A skipped object body ends after where it began, within the input.
pub proof fn lemma_sp_skip_members_first_bounds(s: Seq<char>, i: int, fuel: nat)
    requires
        0 <= i <= s.len(),
        sp_skip_members_first(s, i, fuel) is Some,
    ensures
        i < sp_skip_members_first(s, i, fuel)->0 <= s.len(),
    decreases fuel,
{
    lemma_sp_ws_bounds(s, i);
    let k = sp_ws(s, i);
    if k < s.len() && s[k] == '}' {
    } else {
        lemma_sp_skip_members_bounds(s, i, (fuel - 1) as nat);
    }
}

/// Skipped members end after where they began, within the input.
pub proof fn lemma_sp_skip_members_bounds(s: Seq<char>, i: int, fuel: nat)
    requires
        0 <= i <= s.len(),
        sp_skip_members(s, i, fuel) is Some,
    ensures
        i < sp_skip_members(s, i, fuel)->0 <= s.len(),
    decreases fuel,
{
    lemma_sp_ws_bounds(s, i);
    let k = sp_ws(s, i);
    lemma_sp_string_body_bounds(s, k + 1, (fuel - 1) as nat);
    let (key, j) = sp_string_body(s, k + 1, (fuel - 1) as nat)->0;
    lemma_sp_ws_bounds(s, j);
    let j2 = sp_ws(s, j);
    let j3 = sp_ws(s, j2 + 1);
    lemma_sp_ws_bounds(s, j2 + 1);
    lemma_sp_skip_value_bounds(s, j3, (fuel - 1) as nat);
    let j4 = sp_skip_value(s, j3, (fuel - 1) as nat)->0;
    lemma_sp_ws_bounds(s, j4);
    let j5 = sp_ws(s, j4);
    if j5 < s.len() && s[j5] == ',' {
        lemma_sp_skip_members_bounds(s, j5 + 1, (fuel - 1) as nat);
    }
}

/// A skipped array body ends after where it began, within the input.
pub proof fn lemma_sp_skip_elements_first_bounds(s: Seq<char>, i: int, fuel: nat)
    requires
        0 <= i <= s.len(),
        sp_skip_elements_first(s, i, fuel) is Some,
    ensures
        i < sp_skip_elements_first(s, i, fuel)->0 <= s.len(),
    decreases fuel,
{
    lemma_sp_ws_bounds(s, i);
    let k = sp_ws(s, i);
    if k < s.len() && s[k] == ']' {
    } else {
        lemma_sp_skip_elements_bounds(s, i, (fuel - 1) as nat);
    }
}

/// Skipped array elements end after where they began, within the input.
pub proof fn lemma_sp_skip_elements_bounds(s: Seq<char>, i: int, fuel: nat)
    requires
        0 <= i <= s.len(),
        sp_skip_elements(s, i, fuel) is Some,
    ensures
        i < sp_skip_elements(s, i, fuel)->0 <= s.len(),
    decreases fuel,
{
    lemma_sp_ws_bounds(s, i);
    let k = sp_ws(s, i);
    lemma_sp_skip_value_bounds(s, k, (fuel - 1) as nat);
    let j = sp_skip_value(s, k, (fuel - 1) as nat)->0;
    lemma_sp_ws_bounds(s, j);
    let j2 = sp_ws(s, j);
    if j2 < s.len() && s[j2] == ',' {
        lemma_sp_skip_elements_bounds(s, j2 + 1, (fuel - 1) as nat);
    }
}

/// Parses the integer at `i` as an `i64`: the value and end position,
/// or nothing when no JSON integer stands there or its value does not
/// fit.
pub fn parse_i64_at(v: &[char], i: usize) -> (r: Option<(i64, usize)>)
    requires
        i <= v@.len(),
    ensures
        (r is Some) == (sp_int(v@, i as int) matches Some((x, e)) && i64::MIN <= x <= i64::MAX),
        r matches Some((x, j)) ==> (Some((x as int, j as int)) == sp_int(v@, i as int) && i < j
            <= v@.len()),
{
    let (neg, d0): (bool, usize) = if i < v.len() && v[i] == '-' {
        (true, i + 1)
    } else {
        (false, i)
    };
    if d0 >= v.len() {
        return None;
    }
    let c0 = v[d0];
    if !('0' <= c0 && c0 <= '9') {
        return None;
    }
    let e: usize = if c0 == '0' {
        d0 + 1
    } else {
        skip_digits(v, d0)
    };
    let ghost digits = v@.subrange(d0 as int, e as int);
    proof {
        lemma_sp_digits_all(v@, d0 as int);
        if c0 != '0' {
            assert(sp_digits_end(v@, d0 as int) == sp_digits_end(v@, d0 + 1));
            lemma_sp_digits_end_bounds(v@, d0 + 1);
        }
        assert(forall|j: int| 0 <= j < digits.len() ==> is_dec_digit(#[trigger] digits[j]));
    }
    let mut mag: u64 = 0;
    let mut k: usize = d0;
    while k < e
        invariant
            i <= d0 <= k <= e <= v@.len(),
            neg == (i < v@.len() && v@[i as int] == '-'),
            d0 as int == (if neg {
                i + 1
            } else {
                i as int
            }),
            d0 < v@.len() && is_dec_digit(v@[d0 as int]),
            e as int == (if v@[d0 as int] == '0' {
                d0 + 1
            } else {
                sp_digits_end(v@, d0 as int)
            }),
            digits == v@.subrange(d0 as int, e as int),
            forall|j: int| 0 <= j < digits.len() ==> is_dec_digit(#[trigger] digits[j]),
            mag == dec_value(digits.take(k - d0)),
        decreases e - k,
    {
        let c = v[k];
        proof {
            assert(digits[k - d0] == v@[k as int]);
        }
        let d: u64 = ((c as u32) - ('0' as u32)) as u64;
        if mag > (u64::MAX - d) / 10 {
            // The magnitude exceeds even the unsigned range, so the value
            // cannot fit in an i64 either way.
            proof {
                assert(digits.take(k - d0 + 1).drop_last() =~= digits.take(k - d0));
                assert(dec_value(digits.take(k - d0 + 1)) == mag * 10 + digit_value(
                    digits[k - d0],
                ));
                assert(mag * 10 + d > u64::MAX);
                crate::strnum::lemma_dec_value_monotonic(digits, k - d0 + 1);
                assert(dec_value(digits) > u64::MAX);
            }
            return None;
        }
        proof {
            assert(digits.take(k - d0 + 1).drop_last() =~= digits.take(k - d0));
        }
        mag = mag * 10 + d;
        k = k + 1;
    }
    proof {
        assert(digits.take(e - d0) =~= digits);
    }
    if neg {
        if mag > 9223372036854775808u64 {
            return None;
        }
        let x: i64 = (-(mag as i128)) as i64;
        Some((x, e))
    } else {
        if mag > 9223372036854775807u64 {
            return None;
        }
        Some((mag as i64, e))
    }
}

/// Advances past the JSON integer at `i`, mirroring [`sp_int`].
fn skip_int(v: &[char], i: usize) -> (r: Option<usize>)
    requires
        i <= v@.len(),
    ensures
        (r is Some) == (sp_int(v@, i as int) is Some),
        r matches Some(j) ==> (sp_int(v@, i as int) matches Some((x, e)) && j == e && i < j
            <= v@.len()),
{
    let d0: usize = if i < v.len() && v[i] == '-' {
        i + 1
    } else {
        i
    };
    if d0 >= v.len() {
        return None;
    }
    let c0 = v[d0];
    if !('0' <= c0 && c0 <= '9') {
        return None;
    }
    if c0 == '0' {
        Some(d0 + 1)
    } else {
        let e = skip_digits(v, d0);
        proof {
            assert(sp_digits_end(v@, d0 as int) == sp_digits_end(v@, d0 + 1));
            lemma_sp_digits_end_bounds(v@, d0 + 1);
        }
        Some(e)
    }
}

/// Advances past the JSON number at `i`, mirroring [`sp_skip_number`].
fn skip_number(v: &[char], i: usize) -> (r: Option<usize>)
    requires
        i <= v@.len(),
    ensures
        r == (match sp_skip_number(v@, i as int) {
            Option::None => Option::<usize>::None,
            Option::Some(j) => Some(j as usize),
        }),
        r matches Some(j) ==> i < j <= v@.len(),
{
    proof {
        if sp_skip_number(v@, i as int) is Some {
            lemma_sp_skip_number_bounds(v@, i as int);
        }
    }
    match skip_int(v, i) {
        Option::None => None,
        Option::Some(e) => {
            if e < v.len() && v[e] == '.' {
                let f = skip_digits(v, e + 1);
                if f == e + 1 {
                    None
                } else {
                    skip_exponent(v, f)
                }
            } else {
                skip_exponent(v, e)
            }
        },
    }
}

/// Advances past the optional exponent at `i`, mirroring
/// [`sp_skip_exponent`].
fn skip_exponent(v: &[char], i: usize) -> (r: Option<usize>)
    requires
        i <= v@.len(),
    ensures
        r == (match sp_skip_exponent(v@, i as int) {
            Option::None => Option::<usize>::None,
            Option::Some(j) => Some(j as usize),
        }),
        r matches Some(j) ==> i <= j <= v@.len(),
{
    if i < v.len() && (v[i] == 'e' || v[i] == 'E') {
        let g: usize = if i + 1 < v.len() && (v[i + 1] == '+' || v[i + 1] == '-') {
            i + 2
        } else {
            i + 1
        };
        let h = skip_digits(v, g);
        if h == g {
            None
        } else {
            Some(h)
        }
    } else {
        Some(i)
    }
}

/// Advances past the JSON value at `i`, mirroring [`sp_skip_value`].
pub fn skip_value(v: &[char], i: usize, fuel: usize) -> (r: Option<usize>)
    requires
        i <= v@.len(),
    ensures
        r == (match sp_skip_value(v@, i as int, fuel as nat) {
            Option::None => Option::<usize>::None,
            Option::Some(j) => Some(j as usize),
        }),
        r matches Some(j) ==> i < j <= v@.len(),
    decreases fuel,
{
    proof {
        if sp_skip_value(v@, i as int, fuel as nat) is Some {
            lemma_sp_skip_value_bounds(v@, i as int, fuel as nat);
        }
    }
    if fuel == 0 || i >= v.len() {
        return None;
    }
    let c = v[i];
    if c == '"' {
        match read_string_body(v, i + 1, fuel - 1) {
            Option::None => None,
            Option::Some((t, j)) => Some(j),
        }
    } else if c == '{' {
        skip_members_first(v, i + 1, fuel - 1)
    } else if c == '[' {
        skip_elements_first(v, i + 1, fuel - 1)
    } else if c == 't' {
        if v.len() - i >= 4 && v[i + 1] == 'r' && v[i + 2] == 'u' && v[i + 3] == 'e' {
            Some(i + 4)
        } else {
            None
        }
    } else if c == 'f' {
        if v.len() - i >= 5 && v[i + 1] == 'a' && v[i + 2] == 'l' && v[i + 3] == 's' && v[i + 4]
            == 'e' {
            Some(i + 5)
        } else {
            None
        }
    } else if c == 'n' {
        if v.len() - i >= 4 && v[i + 1] == 'u' && v[i + 2] == 'l' && v[i + 3] == 'l' {
            Some(i + 4)
        } else {
            None
        }
    } else {
        skip_number(v, i)
    }
}

/// Advances past an object body, mirroring [`sp_skip_members_first`].
fn skip_members_first(v: &[char], i: usize, fuel: usize) -> (r: Option<usize>)
    requires
        i <= v@.len(),
    ensures
        r == (match sp_skip_members_first(v@, i as int, fuel as nat) {
            Option::None => Option::<usize>::None,
            Option::Some(j) => Some(j as usize),
        }),
        r matches Some(j) ==> i < j <= v@.len(),
    decreases fuel,
{
    proof {
        if sp_skip_members_first(v@, i as int, fuel as nat) is Some {
            lemma_sp_skip_members_first_bounds(v@, i as int, fuel as nat);
        }
    }
    if fuel == 0 {
        return None;
    }
    let k = skip_ws(v, i);
    if k < v.len() && v[k] == '}' {
        Some(k + 1)
    } else {
        skip_members(v, i, fuel - 1)
    }
}

/// Advances past object members, mirroring [`sp_skip_members`].
fn skip_members(v: &[char], i: usize, fuel: usize) -> (r: Option<usize>)
    requires
        i <= v@.len(),
    ensures
        r == (match sp_skip_members(v@, i as int, fuel as nat) {
            Option::None => Option::<usize>::None,
            Option::Some(j) => Some(j as usize),
        }),
        r matches Some(j) ==> i < j <= v@.len(),
    decreases fuel,
{
    proof {
        if sp_skip_members(v@, i as int, fuel as nat) is Some {
            lemma_sp_skip_members_bounds(v@, i as int, fuel as nat);
        }
    }
    if fuel == 0 {
        return None;
    }
    let k = skip_ws(v, i);
    if k >= v.len() || v[k] != '"' {
        return None;
    }
    match read_string_body(v, k + 1, fuel - 1) {
        Option::None => None,
        Option::Some((key, j)) => {
            let j2 = skip_ws(v, j);
            if j2 >= v.len() || v[j2] != ':' {
                return None;
            }
            let j3 = skip_ws(v, j2 + 1);
            match skip_value(v, j3, fuel - 1) {
                Option::None => None,
                Option::Some(j4) => {
                    proof {
                        lemma_sp_skip_value_bounds(v@, j3 as int, (fuel - 1) as nat);
                    }
                    let j5 = skip_ws(v, j4);
                    if j5 < v.len() && v[j5] == ',' {
                        skip_members(v, j5 + 1, fuel - 1)
                    } else if j5 < v.len() && v[j5] == '}' {
                        Some(j5 + 1)
                    } else {
                        None
                    }
                },
            }
        },
    }
}

/// Advances past an array body, mirroring [`sp_skip_elements_first`].
fn skip_elements_first(v: &[char], i: usize, fuel: usize) -> (r: Option<usize>)
    requires
        i <= v@.len(),
    ensures
        r == (match sp_skip_elements_first(v@, i as int, fuel as nat) {
            Option::None => Option::<usize>::None,
            Option::Some(j) => Some(j as usize),
        }),
        r matches Some(j) ==> i < j <= v@.len(),
    decreases fuel,
{
    proof {
        if sp_skip_elements_first(v@, i as int, fuel as nat) is Some {
            lemma_sp_skip_elements_first_bounds(v@, i as int, fuel as nat);
        }
    }
    if fuel == 0 {
        return None;
    }
    let k = skip_ws(v, i);
    if k < v.len() && v[k] == ']' {
        Some(k + 1)
    } else {
        skip_elements(v, i, fuel - 1)
    }
}

/// Advances past array elements, mirroring [`sp_skip_elements`].
fn skip_elements(v: &[char], i: usize, fuel: usize) -> (r: Option<usize>)
    requires
        i <= v@.len(),
    ensures
        r == (match sp_skip_elements(v@, i as int, fuel as nat) {
            Option::None => Option::<usize>::None,
            Option::Some(j) => Some(j as usize),
        }),
        r matches Some(j) ==> i < j <= v@.len(),
    decreases fuel,
{
    proof {
        if sp_skip_elements(v@, i as int, fuel as nat) is Some {
            lemma_sp_skip_elements_bounds(v@, i as int, fuel as nat);
        }
    }
    if fuel == 0 {
        return None;
    }
    let k = skip_ws(v, i);
    match skip_value(v, k, fuel - 1) {
        Option::None => None,
        Option::Some(j) => {
            proof {
                lemma_sp_skip_value_bounds(v@, k as int, (fuel - 1) as nat);
            }
            let j2 = skip_ws(v, j);
            if j2 < v.len() && v[j2] == ',' {
                skip_elements(v, j2 + 1, fuel - 1)
            } else if j2 < v.len() && v[j2] == ']' {
                Some(j2 + 1)
            } else {
                None
            }
        },
    }
}

} // verus!
