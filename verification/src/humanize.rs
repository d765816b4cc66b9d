//! Rendering byte counts in a human-readable form.

use crate::strnum::{dec_digit, dec_digits, push_char, push_dec_u64};
use vstd::prelude::*;

verus! {

/// The unit index for a byte count: 0 for bytes, 1 for KB, up to 4 for TB.
pub open spec fn unit_index(bytes: u64) -> int {
    if bytes >= 0x10000000000 {
        4
    } else if bytes >= 0x40000000 {
        3
    } else if bytes >= 0x100000 {
        2
    } else if bytes >= 0x400 {
        1
    } else {
        0
    }
}

/// The divisor belonging to a unit index: 1024 to the index'th power.
pub open spec fn unit_divisor(k: int) -> int {
    if k == 4 {
        0x10000000000
    } else if k == 3 {
        0x40000000
    } else if k == 2 {
        0x100000
    } else if k == 1 {
        0x400
    } else {
        1
    }
}

/// The unit suffix, with its leading space.
pub open spec fn unit_suffix(k: int) -> Seq<char> {
    if k == 4 {
        " TB"@
    } else if k == 3 {
        " GB"@
    } else if k == 2 {
        " MB"@
    } else if k == 1 {
        " KB"@
    } else {
        " B"@
    }
}

/// The scaled value shown before the unit: the byte count over the unit's
/// divisor, times 100 and rounded to the nearest, so that it carries two
/// decimal places.
pub open spec fn scaled_centi(bytes: u64, k: int) -> int {
    (bytes * 200 + unit_divisor(k)) / (2 * unit_divisor(k))
}

/// The rendering: the plain count for small values, and a value with two
/// decimal places for scaled units.
pub open spec fn humanize_spec(bytes: u64) -> Seq<char> {
    let k = unit_index(bytes);
    if k == 0 {
        dec_digits(bytes as int) + unit_suffix(0)
    } else {
        let c = scaled_centi(bytes, k);
        dec_digits(c / 100) + seq!['.', dec_digit(c / 10 % 10), dec_digit(c % 10)] + unit_suffix(k)
    }
}

/// Formats a byte count in a human-readable form, scaling by 1024 into the
/// unit the count falls in and showing two decimal places for scaled
/// units, as in `512 B`, `1.50 KB` or `2.37 GB`.
pub fn humanize_bytes(bytes: u64) -> (r: String)
    ensures
        r@ == humanize_spec(bytes),
{
    let mut out = String::new();
    let (divisor, suffix): (u64, &str) = if bytes >= 0x10000000000 {
        (0x10000000000, " TB")
    } else if bytes >= 0x40000000 {
        (0x40000000, " GB")
    } else if bytes >= 0x100000 {
        (0x100000, " MB")
    } else if bytes >= 0x400 {
        (0x400, " KB")
    } else {
        (1, " B")
    };
    if divisor == 1 {
        push_dec_u64(&mut out, bytes);
        out.append(suffix);
        assert(out@ =~= humanize_spec(bytes));
        return out;
    }
    let wide: u128 = ((bytes as u128) * 200 + (divisor as u128)) / (2 * (divisor as u128));
    proof {
        let num = bytes * 200 + divisor;
        vstd::arithmetic::div_mod::lemma_div_is_ordered_by_denominator(
            num as int,
            2048,
            2 * divisor,
        );
        assert(num / 2048 < 0x10000000000000000);
        assert(wide == scaled_centi(bytes, unit_index(bytes)));
    }
    let scaled: u64 = wide as u64;
    push_dec_u64(&mut out, scaled / 100);
    push_char(&mut out, '.');
    push_char(&mut out, crate::strnum::dec_digit_char(scaled / 10 % 10));
    push_char(&mut out, crate::strnum::dec_digit_char(scaled % 10));
    out.append(suffix);
    assert(out@ =~= humanize_spec(bytes));
    out
}

} // verus!
