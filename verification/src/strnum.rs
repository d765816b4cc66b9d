//! String and numeral helpers: decimal and hexadecimal rendering, digit
//! parsing, and verified character-level string utilities.
//!
//! Paths, URLs and manifests are all built and read through these, so each
//! carries an exact contract over the character sequences involved.

use vstd::prelude::*;

verus! {

/// The decimal digit character for a value in 0..=9 (and '0' otherwise).
pub open spec fn dec_digit(d: int) -> char {
    if d == 1 {
        '1'
    } else if d == 2 {
        '2'
    } else if d == 3 {
        '3'
    } else if d == 4 {
        '4'
    } else if d == 5 {
        '5'
    } else if d == 6 {
        '6'
    } else if d == 7 {
        '7'
    } else if d == 8 {
        '8'
    } else if d == 9 {
        '9'
    } else {
        '0'
    }
}

/// The usual decimal rendering of a non-negative integer, most significant
/// digit first, with no leading zeros (and "0" for zero).
pub open spec fn dec_digits(n: int) -> Seq<char>
    decreases n,
{
    if n < 10 {
        seq![dec_digit(n)]
    } else {
        dec_digits(n / 10).push(dec_digit(n % 10))
    }
}

/// The decimal rendering of a signed integer: a '-' sign before the digits
/// of the magnitude when negative.
pub open spec fn dec_digits_signed(n: int) -> Seq<char> {
    if n < 0 {
        seq!['-'] + dec_digits(-n)
    } else {
        dec_digits(n)
    }
}

/// The digit character for `d`, for `d < 10`.
pub fn dec_digit_char(d: u64) -> (c: char)
    requires
        d < 10,
    ensures
        c == dec_digit(d as int),
{
    if d == 1 {
        '1'
    } else if d == 2 {
        '2'
    } else if d == 3 {
        '3'
    } else if d == 4 {
        '4'
    } else if d == 5 {
        '5'
    } else if d == 6 {
        '6'
    } else if d == 7 {
        '7'
    } else if d == 8 {
        '8'
    } else if d == 9 {
        '9'
    } else {
        '0'
    }
}

/// Relies on String::push: appends exactly one character at the end.
#[verifier::external_body]
pub fn push_char(s: &mut String, c: char)
    ensures
        final(s)@ == old(s)@.push(c),
{
    s.push(c);
}

/// Appends the decimal digits of `n` to `out`.
pub fn push_dec_u64(out: &mut String, n: u64)
    ensures
        final(out)@ == old(out)@ + dec_digits(n as int),
    decreases n,
{
    if n >= 10 {
        push_dec_u64(out, n / 10);
    }
    push_char(out, dec_digit_char(n % 10));
    assert(out@ =~= old(out)@ + dec_digits(n as int));
}

/// The decimal rendering of `n` as a fresh string.
pub fn u64_to_dec_string(n: u64) -> (r: String)
    ensures
        r@ == dec_digits(n as int),
{
    let mut out = String::new();
    push_dec_u64(&mut out, n);
    assert(out@ =~= dec_digits(n as int));
    out
}

/// Appends the signed decimal rendering of `n` to `out`.
pub fn push_dec_i64(out: &mut String, n: i64)
    ensures
        final(out)@ == old(out)@ + dec_digits_signed(n as int),
{
    if n < 0 {
        push_char(out, '-');
        let mag: u64 = (-(n as i128)) as u64;
        assert(mag == -(n as int));
        push_dec_u64(out, mag);
        assert(out@ =~= old(out)@ + dec_digits_signed(n as int));
    } else {
        push_dec_u64(out, n as u64);
    }
}

/// Whether `c` is a decimal digit character.
pub open spec fn is_dec_digit(c: char) -> bool {
    '0' <= c && c <= '9'
}

/// The numeric value of a digit character (0 when `c` is no digit).
pub open spec fn digit_value(c: char) -> int {
    if is_dec_digit(c) {
        c as int - '0' as int
    } else {
        0
    }
}

/// Whether every character of `s` is a decimal digit.
pub open spec fn all_dec_digits(s: Seq<char>) -> bool {
    forall|i: int| 0 <= i < s.len() ==> is_dec_digit(#[trigger] s[i])
}

/// The value of a digit string read most significant digit first.
pub open spec fn dec_value(s: Seq<char>) -> int
    decreases s.len(),
{
    if s.len() == 0 {
        0
    } else {
        dec_value(s.drop_last()) * 10 + digit_value(s.last())
    }
}

/// A string that `u32` parsing accepts: an optional leading '+', then at
/// least one digit, with a value in range.
pub open spec fn is_u32_numeral(s: Seq<char>) -> bool {
    let t = if s.len() > 0 && s[0] == '+' {
        s.skip(1)
    } else {
        s
    };
    &&& t.len() > 0
    &&& all_dec_digits(t)
    &&& dec_value(t) <= u32::MAX
}

/// The value of a `u32` numeral (digits after an optional '+').
pub open spec fn u32_numeral_value(s: Seq<char>) -> int {
    if s.len() > 0 && s[0] == '+' {
        dec_value(s.skip(1))
    } else {
        dec_value(s)
    }
}

/// Parses `s` as a `u32` numeral, as the standard integer parser would:
/// an optional '+' sign, then decimal digits, rejecting overflow.
pub fn parse_u32(s: &[char]) -> (r: Option<u32>)
    ensures
        r is Some <==> is_u32_numeral(s@),
        r is Some ==> r->0 == u32_numeral_value(s@),
{
    let start: usize = if s.len() > 0 && s[0] == '+' {
        1
    } else {
        0
    };
    let ghost t = if start == 1 {
        s@.skip(1)
    } else {
        s@
    };
    if s.len() == start {
        return None;
    }
    let mut acc: u32 = 0;
    let mut i: usize = start;
    while i < s.len()
        invariant
            start <= i <= s.len(),
            s.len() > start,
            start == 1 <==> (s@.len() > 0 && s@[0] == '+'),
            t == (if start == 1 {
                s@.skip(1)
            } else {
                s@
            }),
            t.len() == s.len() - start,
            forall|j: int| 0 <= j < i - start ==> is_dec_digit(#[trigger] t[j]),
            acc == dec_value(t.take(i - start)),
        decreases s.len() - i,
    {
        let c = s[i];
        proof {
            assert(t[i - start] == s@[i as int]);
        }
        if !('0' <= c && c <= '9') {
            assert(!all_dec_digits(t));
            return None;
        }
        let d: u32 = (c as u32) - ('0' as u32);
        if acc > (u32::MAX - d) / 10 {
            // The running value already exceeds the range; the whole numeral
            // is then out of range as well.
            proof {
                assert(t.take(i - start + 1).drop_last() =~= t.take(i - start));
                assert(dec_value(t.take(i - start + 1)) == acc * 10 + digit_value(t[i - start]));
                assert(acc * 10 + d > u32::MAX);
                lemma_dec_value_monotonic(t, i - start + 1);
            }
            return None;
        }
        proof {
            assert(t.take(i - start + 1).drop_last() =~= t.take(i - start));
        }
        acc = acc * 10 + d;
        i = i + 1;
    }
    proof {
        assert(t.take(i - start) =~= t);
    }
    Some(acc)
}

/// A digit string's value only grows as more characters are read: the
/// value of a prefix bounds the value of the whole from below.
pub proof fn lemma_dec_value_monotonic(s: Seq<char>, k: int)
    requires
        0 <= k <= s.len(),
    ensures
        dec_value(s.take(k)) <= dec_value(s),
        dec_value(s) >= 0,
    decreases s.len(),
{
    if s.len() == 0 {
    } else {
        lemma_dec_value_monotonic(s.drop_last(), if k < s.len() {
            k
        } else {
            k - 1
        });
        if k < s.len() {
            assert(s.take(k) =~= s.drop_last().take(k));
        } else {
            assert(s.take(k) =~= s);
        }
    }
}

/// The hexadecimal digit character for a value in 0..=15 (and '0'
/// otherwise), lower case.
pub open spec fn hex_digit(d: int) -> char {
    if d < 10 {
        dec_digit(d)
    } else if d == 10 {
        'a'
    } else if d == 11 {
        'b'
    } else if d == 12 {
        'c'
    } else if d == 13 {
        'd'
    } else if d == 14 {
        'e'
    } else {
        'f'
    }
}

/// The two lower-case hexadecimal digits of one byte.
pub open spec fn hex_pair(b: u8) -> Seq<char> {
    seq![hex_digit(b as int / 16), hex_digit(b as int % 16)]
}

/// The lower-case hexadecimal rendering of a byte string, two digits per
/// byte, in order.
pub open spec fn hex_of(bytes: Seq<u8>) -> Seq<char>
    decreases bytes.len(),
{
    if bytes.len() == 0 {
        Seq::empty()
    } else {
        hex_of(bytes.drop_last()) + hex_pair(bytes.last())
    }
}

/// The hexadecimal digit character for `d < 16`, lower case.
pub fn hex_digit_char(d: u8) -> (c: char)
    requires
        d < 16,
    ensures
        c == hex_digit(d as int),
{
    if d < 10 {
        dec_digit_char(d as u64)
    } else if d == 10 {
        'a'
    } else if d == 11 {
        'b'
    } else if d == 12 {
        'c'
    } else if d == 13 {
        'd'
    } else if d == 14 {
        'e'
    } else {
        'f'
    }
}

/// Renders a byte string as lower-case hexadecimal, two digits per byte.
pub fn to_hex_lower(bytes: &[u8]) -> (r: String)
    ensures
        r@ == hex_of(bytes@),
{
    let mut out = String::new();
    let mut i: usize = 0;
    while i < bytes.len()
        invariant
            i <= bytes.len(),
            out@ == hex_of(bytes@.take(i as int)),
        decreases bytes.len() - i,
    {
        let b = bytes[i];
        proof {
            assert(bytes@.take(i + 1).drop_last() =~= bytes@.take(i as int));
        }
        push_char(&mut out, hex_digit_char(b / 16));
        push_char(&mut out, hex_digit_char(b % 16));
        assert(out@ =~= hex_of(bytes@.take(i + 1)));
        i = i + 1;
    }
    proof {
        assert(bytes@.take(bytes@.len() as int) =~= bytes@);
    }
    out
}

/// The characters of `s` as a vector, in order.
pub fn str_chars(s: &str) -> (r: Vec<char>)
    ensures
        r@ == s@,
{
    let len = s.unicode_len();
    let mut out: Vec<char> = Vec::new();
    let mut i: usize = 0;
    while i < len
        invariant
            i <= len,
            len == s@.len(),
            out@ == s@.take(i as int),
        decreases len - i,
    {
        out.push(s.get_char(i));
        assert(out@ =~= s@.take(i + 1));
        i = i + 1;
    }
    proof {
        assert(s@.take(s@.len() as int) =~= s@);
    }
    out
}

/// A string holding exactly the characters of `v`, in order.
pub fn chars_to_string(v: &[char]) -> (r: String)
    ensures
        r@ == v@,
{
    let mut out = String::new();
    let mut i: usize = 0;
    while i < v.len()
        invariant
            i <= v.len(),
            out@ == v@.take(i as int),
        decreases v.len() - i,
    {
        push_char(&mut out, v[i]);
        assert(out@ =~= v@.take(i + 1));
        i = i + 1;
    }
    proof {
        assert(v@.take(v@.len() as int) =~= v@);
    }
    out
}

/// Compares two strings character by character.
pub fn str_eq(a: &str, b: &str) -> (r: bool)
    ensures
        r == (a@ == b@),
{
    let alen = a.unicode_len();
    let blen = b.unicode_len();
    if alen != blen {
        return false;
    }
    let mut i: usize = 0;
    while i < alen
        invariant
            i <= alen,
            alen == a@.len() == b@.len(),
            forall|j: int| 0 <= j < i ==> a@[j] == b@[j],
        decreases alen - i,
    {
        if a.get_char(i) != b.get_char(i) {
            return false;
        }
        i = i + 1;
    }
    proof {
        assert(a@ =~= b@);
    }
    true
}

/// Compares a character vector against a string.
pub fn chars_eq_str(cs: &[char], s: &str) -> (r: bool)
    ensures
        r == (cs@ == s@),
{
    let len = s.unicode_len();
    if cs.len() != len {
        return false;
    }
    let mut i: usize = 0;
    while i < len
        invariant
            i <= len,
            len == s@.len() == cs@.len(),
            forall|j: int| 0 <= j < i ==> cs@[j] == s@[j],
        decreases len - i,
    {
        if cs[i] != s.get_char(i) {
            return false;
        }
        i = i + 1;
    }
    proof {
        assert(cs@ =~= s@);
    }
    true
}

/// Whether some character of `s` is `c`.
pub open spec fn contains_char(s: Seq<char>, c: char) -> bool {
    exists|i: int| 0 <= i < s.len() && s[i] == c
}

/// Scans `s` for the character `c`.
pub fn str_contains_char(s: &str, c: char) -> (r: bool)
    ensures
        r == contains_char(s@, c),
{
    let len = s.unicode_len();
    let mut i: usize = 0;
    while i < len
        invariant
            i <= len,
            len == s@.len(),
            forall|j: int| 0 <= j < i ==> s@[j] != c,
        decreases len - i,
    {
        if s.get_char(i) == c {
            return true;
        }
        i = i + 1;
    }
    false
}

/// Whether `s` ends with `suffix`.
pub open spec fn ends_with(s: Seq<char>, suffix: Seq<char>) -> bool {
    &&& s.len() >= suffix.len()
    &&& s.skip(s.len() - suffix.len()) == suffix
}

/// Tests whether `s` ends with `suffix`, character by character.
pub fn str_ends_with(s: &str, suffix: &str) -> (r: bool)
    ensures
        r == ends_with(s@, suffix@),
{
    let slen = s.unicode_len();
    let xlen = suffix.unicode_len();
    if slen < xlen {
        assert(!ends_with(s@, suffix@));
        return false;
    }
    let off = slen - xlen;
    let mut i: usize = 0;
    while i < xlen
        invariant
            i <= xlen,
            off == slen - xlen,
            slen == s@.len(),
            xlen == suffix@.len(),
            slen >= xlen,
            forall|j: int| 0 <= j < i ==> s@[off + j] == suffix@[j],
        decreases xlen - i,
    {
        if s.get_char(off + i) != suffix.get_char(i) {
            assert(s@.skip(s@.len() - suffix@.len())[i as int] != suffix@[i as int]);
            return false;
        }
        i = i + 1;
    }
    proof {
        assert(s@.skip(s@.len() - suffix@.len()) =~= suffix@);
    }
    true
}

/// `s` with every leading and trailing quote character removed, as the
/// standard trim of a matching character would leave it.
pub open spec fn trim_quotes(s: Seq<char>) -> Seq<char>
    decreases s.len(),
{
    if s.len() > 0 && s[0] == '"' {
        trim_quotes(s.skip(1))
    } else if s.len() > 0 && s.last() == '"' {
        trim_quotes(s.drop_last())
    } else {
        s
    }
}

/// Removes every leading and trailing '"' from `s`.
pub fn str_trim_quotes(s: &str) -> (r: String)
    ensures
        r@ == trim_quotes(s@),
{
    let len = s.unicode_len();
    let mut lo: usize = 0;
    let mut hi: usize = len;
    proof {
        assert(s@.subrange(0, s@.len() as int) =~= s@);
    }
    while lo < hi && s.get_char(lo) == '"'
        invariant
            0 <= lo <= hi <= len,
            len == s@.len(),
            trim_quotes(s@) == trim_quotes(s@.subrange(lo as int, hi as int)),
        decreases hi - lo,
    {
        proof {
            assert(s@.subrange(lo as int, hi as int).skip(1) =~= s@.subrange(
                lo + 1,
                hi as int,
            ));
        }
        lo = lo + 1;
    }
    while lo < hi && s.get_char(hi - 1) == '"'
        invariant
            0 <= lo <= hi <= len,
            len == s@.len(),
            trim_quotes(s@) == trim_quotes(s@.subrange(lo as int, hi as int)),
            lo < hi ==> s@[lo as int] != '"',
        decreases hi - lo,
    {
        proof {
            assert(s@.subrange(lo as int, hi as int).drop_last() =~= s@.subrange(
                lo as int,
                hi - 1,
            ));
        }
        hi = hi - 1;
    }
    let mut out = String::new();
    let mut i: usize = lo;
    while i < hi
        invariant
            lo <= i <= hi <= len,
            len == s@.len(),
            out@ == s@.subrange(lo as int, i as int),
        decreases hi - i,
    {
        push_char(&mut out, s.get_char(i));
        assert(out@ =~= s@.subrange(lo as int, i + 1));
        i = i + 1;
    }
    proof {
        assert(trim_quotes(s@.subrange(lo as int, hi as int)) == s@.subrange(
            lo as int,
            hi as int,
        ));
    }
    out
}

} // verus!
