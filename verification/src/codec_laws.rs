//! Inverse laws of the manifest codec: parsing a rendered document yields
//! exactly the rendered content back.
//!
//! These are the guarantees behind staged re-entry: the metadata file a
//! run persists is read back verbatim by a later run, with every shard's
//! chunk list in its original order.

use crate::json::{hex_char_value, sp_digits_end, sp_int, sp_string_body, sp_ws};
use crate::metadata::{
    json_escape_char, json_escaped, json_quoted, render_chunk_items, render_manifest_view,
    render_map_items, render_map_view, sp_manifest, sp_manifest_after_member,
    sp_manifest_members, sp_manifest_obj, sp_map_members, sp_metadata_map, sp_string_array,
    sp_string_items, ManifestView,
};
use crate::strnum::{
    dec_digit, dec_digits, dec_digits_signed, dec_value, digit_value, hex_digit, is_dec_digit,
};
use vstd::prelude::*;

verus! {

/// Every character of a decimal rendering is a digit.
proof fn lemma_dec_digits_are_digits(n: int)
    requires
        n >= 0,
    ensures
        forall|j: int| 0 <= j < dec_digits(n).len() ==> is_dec_digit(#[trigger] dec_digits(n)[j]),
        dec_digits(n).len() >= 1,
    decreases n,
{
    if n < 10 {
    } else {
        lemma_dec_digits_are_digits(n / 10);
    }
}

/// A digit character reads back as its digit.
proof fn lemma_digit_value_of_dec_digit(d: int)
    requires
        0 <= d < 10,
    ensures
        digit_value(dec_digit(d)) == d,
        is_dec_digit(dec_digit(d)),
{
}

/// Reading a decimal rendering back gives the number.
proof fn lemma_dec_value_of_dec_digits(n: int)
    requires
        n >= 0,
    ensures
        dec_value(dec_digits(n)) == n,
    decreases n,
{
    if n < 10 {
        lemma_digit_value_of_dec_digit(n);
        assert(dec_digits(n).drop_last() =~= Seq::<char>::empty());
        assert(dec_digits(n).last() == dec_digit(n));
        assert(dec_value(Seq::<char>::empty()) == 0);
    } else {
        lemma_dec_value_of_dec_digits(n / 10);
        lemma_digit_value_of_dec_digit(n % 10);
        assert(dec_digits(n).drop_last() =~= dec_digits(n / 10));
        assert(dec_digits(n).last() == dec_digit(n % 10));
    }
}

/// A positive number's rendering never starts with a zero digit.
proof fn lemma_dec_digits_no_leading_zero(n: int)
    requires
        n >= 1,
    ensures
        dec_digits(n)[0] != '0',
    decreases n,
{
    if n < 10 {
    } else {
        lemma_dec_digits_no_leading_zero(n / 10);
        assert(dec_digits(n)[0] == dec_digits(n / 10)[0]);
    }
}

/// A digit run's end is wherever the digits visibly stop.
proof fn lemma_sp_digits_end_at(s: Seq<char>, i: int, e: int)
    requires
        0 <= i <= e <= s.len(),
        forall|j: int| i <= j < e ==> is_dec_digit(#[trigger] s[j]),
        e < s.len() ==> !is_dec_digit(s[e]),
    ensures
        sp_digits_end(s, i) == e,
    decreases e - i,
{
    if i < e {
        lemma_sp_digits_end_at(s, i + 1, e);
    }
}

/// Whitespace skipping stands still on anything but whitespace.
proof fn lemma_sp_ws_still(s: Seq<char>, i: int)
    requires
        0 <= i,
        i < s.len() ==> !crate::json::is_json_ws(s[i]),
    ensures
        sp_ws(s, i) == i,
{
}

/// Parsing an integer out of a rendered signed decimal followed by a
/// non-digit yields the number and stops right after its digits.
proof fn lemma_sp_int_round(s: Seq<char>, i: int, n: int)
    requires
        0 <= i,
        i + dec_digits_signed(n).len() <= s.len(),
        s.subrange(i, i + dec_digits_signed(n).len() as int) == dec_digits_signed(n),
        i + dec_digits_signed(n).len() < s.len() ==> !is_dec_digit(
            s[i + dec_digits_signed(n).len()],
        ),
    ensures
        sp_int(s, i) == Some((n, i + dec_digits_signed(n).len() as int)),
{
    let t = dec_digits_signed(n);
    let l = t.len() as int;
    let mag = if n < 0 {
        -n
    } else {
        n
    };
    let d0 = if n < 0 {
        i + 1
    } else {
        i
    };
    lemma_dec_digits_are_digits(mag);
    assert forall|j: int| 0 <= j < l implies s[i + j] == t[j] by {
        assert(s.subrange(i, i + l)[j] == s[i + j]);
    }
    if n < 0 {
        assert(t =~= seq!['-'] + dec_digits(mag));
        assert(t[0] == '-');
        assert(s[i + 0] == t[0]);
        assert(s[i] == '-');
    } else {
        assert(t =~= dec_digits(mag));
    }
    assert forall|j: int| d0 <= j < i + l implies is_dec_digit(#[trigger] s[j]) by {
        assert(s[i + (j - i)] == t[j - i]);
        assert(t[j - i] == dec_digits(mag)[j - d0]);
    }
    lemma_sp_digits_end_at(s, d0, i + l);
    lemma_dec_value_of_dec_digits(mag);
    assert forall|j: int| 0 <= j < dec_digits(mag).len() implies s.subrange(d0, i + l)[j]
        == dec_digits(mag)[j] by {
        assert(s[i + (d0 + j - i)] == t[d0 + j - i]);
        assert(t[d0 + j - i] == dec_digits(mag)[j]);
    }
    assert(s.subrange(d0, i + l) =~= dec_digits(mag));
    assert(s[d0] == s.subrange(d0, i + l)[0]);
    assert(s[d0] == dec_digits(mag)[0]);
    // The digit run is never misread as starting with a zero, except for
    // zero itself, whose run is that one digit.
    if mag == 0 {
        assert(s[d0] == '0');
        assert(sp_digits_end(s, d0) == d0 + 1);
    } else {
        lemma_dec_digits_no_leading_zero(mag);
        assert(s[d0] != '0');
    }
    assert(is_dec_digit(s[d0]));
    assert(d0 < s.len());
}

/// A hexadecimal digit character reads back as its value.
proof fn lemma_hex_value_of_hex_digit(d: int)
    requires
        0 <= d < 16,
    ensures
        hex_char_value(hex_digit(d)) == d,
{
    if d < 10 {
        lemma_digit_value_of_dec_digit(d);
    } else if d == 10 {
    } else if d == 11 {
    } else if d == 12 {
    } else if d == 13 {
    } else if d == 14 {
    } else {
    }
}

/// The escaped rendering, decomposed at the front instead of the back.
proof fn lemma_json_escaped_front(t: Seq<char>)
    requires
        t.len() > 0,
    ensures
        json_escaped(t) == json_escape_char(t[0]) + json_escaped(t.skip(1)),
    decreases t.len(),
{
    if t.len() == 1 {
        assert(t.drop_last() =~= Seq::<char>::empty());
        assert(t.skip(1) =~= Seq::<char>::empty());
        assert(json_escaped(Seq::<char>::empty()) =~= Seq::<char>::empty());
        assert(json_escaped(t) =~= json_escape_char(t[0]) + json_escaped(t.skip(1)));
    } else {
        lemma_json_escaped_front(t.drop_last());
        assert(t.drop_last()[0] == t[0]);
        assert(t.skip(1).drop_last() =~= t.drop_last().skip(1));
        assert(t.skip(1).last() == t.last());
        assert(json_escaped(t) =~= json_escape_char(t[0]) + json_escaped(t.skip(1)));
    }
}

/// Parsing a string body out of a rendered, escaped string followed by
/// its closing quote yields the original characters and stops right
/// after the quote.
proof fn lemma_string_body_round(s: Seq<char>, i: int, t: Seq<char>, fuel: nat)
    requires
        0 <= i,
        i + json_escaped(t).len() + 1 <= s.len(),
        s.subrange(i, i + json_escaped(t).len() + 1) == json_escaped(t) + seq!['"'],
        fuel >= json_escaped(t).len() + 1,
    ensures
        sp_string_body(s, i, fuel) == Some((t, i + json_escaped(t).len() + 1)),
    decreases t.len(),
{
    let et = json_escaped(t);
    let l = et.len() as int;
    assert forall|j: int| 0 <= j <= l implies s[i + j] == (et + seq!['"'])[j] by {
        assert(s.subrange(i, i + l + 1)[j] == s[i + j]);
    }
    if t.len() == 0 {
        assert(et =~= Seq::<char>::empty());
        assert(et + seq!['"'] =~= seq!['"']);
        assert(s.subrange(i, i + l + 1)[0] == s[i + 0]);
        assert(s[i + 0] == '"');
    } else {
        lemma_json_escaped_front(t);
        let c = t[0];
        let ec = json_escape_char(c);
        let k = ec.len() as int;
        let rest = t.skip(1);
        let erest = json_escaped(rest);
        assert(et =~= ec + erest);
        assert forall|j: int| 0 <= j < k implies s[i + j] == ec[j] by {
            assert((et + seq!['"'])[j] == et[j]);
            assert(et[j] == ec[j]);
        }
        assert forall|j: int| 0 <= j <= erest.len() implies s.subrange(i + k, i + l + 1)[j] == (
        erest + seq!['"'])[j] by {
            assert(s.subrange(i + k, i + l + 1)[j] == s[i + (k + j)]);
            assert(s[i + (k + j)] == (et + seq!['"'])[k + j]);
            if k + j < l {
                assert((et + seq!['"'])[k + j] == et[k + j]);
                assert(et[k + j] == erest[j]);
            }
        }
        assert(s.subrange(i + k, i + l + 1) =~= erest + seq!['"']);
        lemma_string_body_round(s, i + k, rest, (fuel - 1) as nat);
        assert(seq![c] + rest =~= t);
        if c == '"' {
            assert(s[i + 0] == '\\');
            assert(s[i + 1] == '"');
        } else if c == '\\' {
            assert(s[i + 0] == '\\');
            assert(s[i + 1] == '\\');
        } else if (c as u32) < 0x20 {
            let cv = (c as u32) as int;
            assert(s[i + 0] == '\\');
            assert(s[i + 1] == 'u');
            assert(s[i + 2] == '0');
            assert(s[i + 3] == '0');
            assert(s[i + 4] == hex_digit(cv / 16));
            assert(s[i + 5] == hex_digit(cv % 16));
            lemma_hex_value_of_hex_digit(cv / 16);
            lemma_hex_value_of_hex_digit(cv % 16);
            assert(hex_char_value('0') == 0);
            let hi = ((hex_char_value(s[i + 2]) * 16 + hex_char_value(s[i + 3])) * 16
                + hex_char_value(s[i + 4])) * 16 + hex_char_value(s[i + 5]);
            assert(hi == cv);
            assert(hi as u32 == c as u32);
            vstd::utf8::char_u32_cast(c, c as u32);
            assert((hi as u32) as char == c);
        } else {
            assert(s[i + 0] == c);
        }
    }
}

/// Parsing at a quoted rendering: the opening quote stands at `i`, and
/// the body parse yields the original string, ending after the closing
/// quote.
proof fn lemma_quoted_round(s: Seq<char>, i: int, t: Seq<char>, fuel: nat)
    requires
        0 <= i,
        i + json_quoted(t).len() <= s.len(),
        s.subrange(i, i + json_quoted(t).len() as int) == json_quoted(t),
        fuel >= json_escaped(t).len() + 1,
    ensures
        s[i] == '"',
        sp_string_body(s, i + 1, fuel) == Some((t, i + json_quoted(t).len() as int)),
{
    let q = json_quoted(t);
    let l = q.len() as int;
    let et = json_escaped(t);
    assert forall|j: int| 0 <= j < l implies s[i + j] == q[j] by {
        assert(s.subrange(i, i + l)[j] == s[i + j]);
    }
    assert(q =~= seq!['"'] + (et + seq!['"']));
    assert(q[0] == '"');
    assert(s[i + 0] == q[0]);
    assert forall|j: int| 0 <= j <= et.len() implies s.subrange(i + 1, i + l)[j] == (et
        + seq!['"'])[j] by {
        assert(s.subrange(i + 1, i + l)[j] == s[(i + 1) + j]);
        assert(s[i + (1 + j)] == q[1 + j]);
        assert(q[1 + j] == (et + seq!['"'])[j]);
    }
    assert(s.subrange(i + 1, i + l) =~= et + seq!['"']);
    lemma_string_body_round(s, i + 1, t, fuel);
}

/// The rendered chunk items, decomposed at the front.
proof fn lemma_render_chunk_items_front(cs: Seq<Seq<char>>)
    requires
        cs.len() >= 2,
    ensures
        render_chunk_items(cs) == json_quoted(cs[0]) + seq![','] + render_chunk_items(cs.skip(1)),
    decreases cs.len(),
{
    if cs.len() == 2 {
        assert(cs.drop_last() =~= seq![cs[0]]);
        assert(cs.skip(1) =~= seq![cs[1]]);
        assert(render_chunk_items(seq![cs[0]]) == json_quoted(cs[0]));
        assert(render_chunk_items(seq![cs[1]]) == json_quoted(cs[1]));
        assert(cs.last() == cs[1]);
        assert(render_chunk_items(cs) =~= json_quoted(cs[0]) + seq![','] + render_chunk_items(
            cs.skip(1),
        ));
    } else {
        lemma_render_chunk_items_front(cs.drop_last());
        assert(cs.drop_last()[0] == cs[0]);
        assert(cs.skip(1).drop_last() =~= cs.drop_last().skip(1));
        assert(cs.skip(1).last() == cs.last());
        assert(render_chunk_items(cs) =~= json_quoted(cs[0]) + seq![','] + render_chunk_items(
            cs.skip(1),
        ));
    }
}

/// Parsing the elements of a rendered, non-empty string array yields the
/// strings back, ending after the closing bracket.
proof fn lemma_string_items_round(s: Seq<char>, i: int, cs: Seq<Seq<char>>, fuel: nat)
    requires
        0 <= i,
        cs.len() >= 1,
        i + render_chunk_items(cs).len() + 1 <= s.len(),
        s.subrange(i, i + render_chunk_items(cs).len() + 1) == render_chunk_items(cs)
            + seq![']'],
        fuel >= render_chunk_items(cs).len() + 2,
    ensures
        sp_string_items(s, i, fuel) == Some((cs, i + render_chunk_items(cs).len() + 1)),
    decreases cs.len(),
{
    let items = render_chunk_items(cs);
    let l = items.len() as int;
    let q0 = json_quoted(cs[0]);
    assert forall|j: int| 0 <= j <= l implies s[i + j] == (items + seq![']'])[j] by {
        assert(s.subrange(i, i + l + 1)[j] == s[i + j]);
    }
    if cs.len() == 1 {
        assert(items =~= q0);
    } else {
        lemma_render_chunk_items_front(cs);
    }
    // The leading quoted string.
    assert forall|j: int| 0 <= j < q0.len() implies s.subrange(i, i + q0.len() as int)[j]
        == q0[j] by {
        assert(s.subrange(i, i + q0.len() as int)[j] == s[i + j]);
        assert((items + seq![']'])[j] == items[j]);
        if cs.len() == 1 {
        } else {
            assert(items[j] == (json_quoted(cs[0]) + seq![','] + render_chunk_items(
                cs.skip(1),
            ))[j]);
        }
    }
    assert(s.subrange(i, i + q0.len() as int) =~= q0);
    lemma_quoted_round(s, i, cs[0], (fuel - 1) as nat);
    let pos = i + q0.len() as int;
    assert(s[i] == '"');
    assert(!crate::json::is_json_ws('"'));
    lemma_sp_ws_still(s, i);
    if cs.len() == 1 {
        assert(s[i + q0.len() as int] == (items + seq![']'])[l]);
        assert(s[pos] == ']');
        lemma_sp_ws_still(s, pos);
        assert(seq![cs[0]] =~= cs);
    } else {
        assert(s[i + q0.len() as int] == (items + seq![']'])[q0.len() as int]);
        assert((items + seq![']'])[q0.len() as int] == items[q0.len() as int]);
        assert(items[q0.len() as int] == ',');
        assert(s[pos] == ',');
        lemma_sp_ws_still(s, pos);
        let rest = cs.skip(1);
        let ritems = render_chunk_items(rest);
        assert forall|j: int| 0 <= j <= ritems.len() implies s.subrange(pos + 1, i + l + 1)[j]
            == (ritems + seq![']'])[j] by {
            assert(s.subrange(pos + 1, i + l + 1)[j] == s[(pos + 1) + j]);
            assert(s[i + (q0.len() + 1 + j)] == (items + seq![']'])[q0.len() + 1 + j]);
            if q0.len() + 1 + j < l {
                assert((items + seq![']'])[q0.len() + 1 + j] == items[q0.len() + 1 + j]);
                assert(items[q0.len() + 1 + j] == ritems[j]);
            }
        }
        assert(s.subrange(pos + 1, i + l + 1) =~= ritems + seq![']']);
        lemma_string_items_round(s, pos + 1, rest, (fuel - 1) as nat);
        assert(seq![cs[0]] + rest =~= cs);
    }
}

/// A string of ordinary characters renders as itself.
proof fn lemma_escaped_plain(t: Seq<char>)
    requires
        forall|j: int|
            0 <= j < t.len() ==> ((#[trigger] t[j]) != '"' && t[j] != '\\' && (t[j] as u32)
                >= 0x20),
    ensures
        json_escaped(t) == t,
    decreases t.len(),
{
    if t.len() == 0 {
        assert(json_escaped(t) =~= t);
    } else {
        lemma_escaped_plain(t.drop_last());
        assert(json_escaped(t) =~= t);
    }
}

/// The characters of a rendered manifest object, segment by segment:
/// the member names, separators and value segments stand at fixed
/// offsets from the object's start.
#[verifier::rlimit(100)]
proof fn lemma_manifest_chars(s: Seq<char>, i: int, m: ManifestView)
    requires
        0 <= i,
        i + render_manifest_view(m).len() <= s.len(),
        s.subrange(i, i + render_manifest_view(m).len() as int) == render_manifest_view(m),
    ensures
        ({
            let qkb = json_quoted(m.key_base);
            let items = render_chunk_items(m.chunks);
            let tsd = dec_digits_signed(m.timestamp);
            let p2 = i + 12 + qkb.len() as int;
            let p3 = p2 + 11;
            let p4 = p3 + items.len() as int;
            let p5 = p4 + 14;
            let p6 = p5 + tsd.len() as int;
            &&& render_manifest_view(m).len() == 38 + qkb.len() + items.len() + tsd.len()
            &&& s[i] == '{'
            &&& s[i + 1] == '"'
            &&& s.subrange(i + 2, i + 11) == "key_base"@ + seq!['"']
            &&& s[i + 11] == ':'
            &&& s.subrange(i + 12, p2) == qkb
            &&& s[i + 12] == '"'
            &&& s[p2] == ','
            &&& s[p2 + 1] == '"'
            &&& s.subrange(p2 + 2, p2 + 9) == "chunks"@ + seq!['"']
            &&& s[p2 + 9] == ':'
            &&& s[p2 + 10] == '['
            &&& (m.chunks.len() == 0 ==> s[p3] == ']')
            &&& (m.chunks.len() > 0 ==> (s.subrange(p3, p4 + 1) == items + seq![']'] && s[p3]
                == '"'))
            &&& s[p4 + 1] == ','
            &&& s[p4 + 2] == '"'
            &&& s.subrange(p4 + 3, p4 + 13) == "timestamp"@ + seq!['"']
            &&& s[p4 + 13] == ':'
            &&& s.subrange(p5, p6) == tsd
            &&& s[p6] == '}'
        }),
{
    let qkb = json_quoted(m.key_base);
    let items = render_chunk_items(m.chunks);
    let tsd = dec_digits_signed(m.timestamp);
    let la = "{\"key_base\":"@;
    let lb = ",\"chunks\":["@;
    let lc = "],\"timestamp\":"@;
    let r1 = la + qkb;
    let r2 = r1 + lb;
    let r3 = r2 + items;
    let r4 = r3 + lc;
    let r5 = r4 + tsd;
    let rr = r5 + seq!['}'];
    assert(render_manifest_view(m) == rr);
    let l = rr.len() as int;
    reveal_strlit("{\"key_base\":");
    reveal_strlit(",\"chunks\":[");
    reveal_strlit("],\"timestamp\":");
    reveal_strlit("key_base");
    reveal_strlit("chunks");
    reveal_strlit("timestamp");
    assert(la.len() == 12);
    assert(lb.len() == 11);
    assert(lc.len() == 14);
    let p1 = i + 12;
    let p2 = p1 + qkb.len() as int;
    let p3 = p2 + 11;
    let p4 = p3 + items.len() as int;
    let p5 = p4 + 14;
    let p6 = p5 + tsd.len() as int;
    assert(p6 + 1 == i + l);
    assert forall|j: int| 0 <= j < l implies s[i + j] == rr[j] by {
        assert(s.subrange(i, i + l)[j] == s[i + j]);
    }
    assert forall|j: int| 0 <= j < 12 implies s[i + j] == la[j] by {
        assert(rr[j] == r5[j]);
        assert(r5[j] == r4[j]);
        assert(r4[j] == r3[j]);
        assert(r3[j] == r2[j]);
        assert(r2[j] == r1[j]);
        assert(r1[j] == la[j]);
    }
    assert forall|j: int| 0 <= j < qkb.len() implies s[p1 + j] == qkb[j] by {
        assert(s[i + (12 + j)] == rr[12 + j]);
        assert(rr[12 + j] == r5[12 + j]);
        assert(r5[12 + j] == r4[12 + j]);
        assert(r4[12 + j] == r3[12 + j]);
        assert(r3[12 + j] == r2[12 + j]);
        assert(r2[12 + j] == r1[12 + j]);
        assert(r1[12 + j] == qkb[j]);
    }
    assert forall|j: int| 0 <= j < 11 implies s[p2 + j] == lb[j] by {
        assert(s[i + (p2 - i + j)] == rr[p2 - i + j]);
        assert(rr[p2 - i + j] == r5[p2 - i + j]);
        assert(r5[p2 - i + j] == r4[p2 - i + j]);
        assert(r4[p2 - i + j] == r3[p2 - i + j]);
        assert(r3[p2 - i + j] == r2[p2 - i + j]);
        assert(r2[p2 - i + j] == lb[j]);
    }
    assert forall|j: int| 0 <= j < items.len() implies s[p3 + j] == items[j] by {
        assert(s[i + (p3 - i + j)] == rr[p3 - i + j]);
        assert(rr[p3 - i + j] == r5[p3 - i + j]);
        assert(r5[p3 - i + j] == r4[p3 - i + j]);
        assert(r4[p3 - i + j] == r3[p3 - i + j]);
        assert(r3[p3 - i + j] == items[j]);
    }
    assert forall|j: int| 0 <= j < 14 implies s[p4 + j] == lc[j] by {
        assert(s[i + (p4 - i + j)] == rr[p4 - i + j]);
        assert(rr[p4 - i + j] == r5[p4 - i + j]);
        assert(r5[p4 - i + j] == r4[p4 - i + j]);
        assert(r4[p4 - i + j] == lc[j]);
    }
    assert forall|j: int| 0 <= j < tsd.len() implies s[p5 + j] == tsd[j] by {
        assert(s[i + (p5 - i + j)] == rr[p5 - i + j]);
        assert(rr[p5 - i + j] == r5[p5 - i + j]);
        assert(r5[p5 - i + j] == tsd[j]);
    }
    assert(s[i + (l - 1)] == rr[l - 1]);
    assert(rr[l - 1] == seq!['}'][0]);
    assert(s[p6] == '}');
    assert(s[i + 0] == la[0] && la[0] == '{');
    assert(s[i + 1] == la[1] && la[1] == '"');
    assert forall|j: int| 0 <= j < 9 implies s.subrange(i + 2, i + 11)[j] == ("key_base"@
        + seq!['"'])[j] by {
        assert(s.subrange(i + 2, i + 11)[j] == s[i + (2 + j)]);
        assert(s[i + (2 + j)] == la[2 + j]);
        if j < 8 {
            assert(la[2 + j] == "key_base"@[j]);
        } else {
            assert(la[10] == '"');
        }
    }
    assert(s.subrange(i + 2, i + 11) =~= "key_base"@ + seq!['"']);
    assert(s[i + 11] == la[11] && la[11] == ':');
    assert forall|j: int| 0 <= j < qkb.len() implies s.subrange(p1, p2)[j] == qkb[j] by {
        assert(s.subrange(p1, p2)[j] == s[p1 + j]);
    }
    assert(s.subrange(p1, p2) =~= qkb);
    assert(s[p1 + 0] == qkb[0]);
    assert(qkb =~= seq!['"'] + (json_escaped(m.key_base) + seq!['"']));
    assert(qkb[0] == '"');
    assert(s[p2 + 0] == lb[0] && lb[0] == ',');
    assert(s[p2 + 1] == lb[1] && lb[1] == '"');
    assert forall|j: int| 0 <= j < 7 implies s.subrange(p2 + 2, p2 + 9)[j] == ("chunks"@
        + seq!['"'])[j] by {
        assert(s.subrange(p2 + 2, p2 + 9)[j] == s[p2 + (2 + j)]);
        assert(s[p2 + (2 + j)] == lb[2 + j]);
        if j < 6 {
            assert(lb[2 + j] == "chunks"@[j]);
        } else {
            assert(lb[8] == '"');
        }
    }
    assert(s.subrange(p2 + 2, p2 + 9) =~= "chunks"@ + seq!['"']);
    assert(s[p2 + 9] == lb[9] && lb[9] == ':');
    assert(s[p2 + 10] == lb[10] && lb[10] == '[');
    if m.chunks.len() == 0 {
        assert(items =~= Seq::<char>::empty());
        assert(s[p4 + 0] == lc[0] && lc[0] == ']');
    } else {
        assert(s[p3 + 0] == items[0]);
        assert(items[0] == '"') by {
            if m.chunks.len() == 1 {
            } else {
                lemma_render_chunk_items_front(m.chunks);
            }
            assert(items[0] == json_quoted(m.chunks[0])[0]);
            assert(json_quoted(m.chunks[0]) =~= seq!['"'] + (json_escaped(m.chunks[0])
                + seq!['"']));
        }
        assert forall|j: int| 0 <= j <= items.len() implies s.subrange(p3, p4 + 1)[j] == (items
            + seq![']'])[j] by {
            assert(s.subrange(p3, p4 + 1)[j] == s[p3 + j]);
            if j < items.len() {
            } else {
                assert(s[p4 + 0] == lc[0] && lc[0] == ']');
            }
        }
        assert(s.subrange(p3, p4 + 1) =~= items + seq![']']);
    }
    assert(s[p4 + 1] == lc[1] && lc[1] == ',');
    assert(s[p4 + 2] == lc[2] && lc[2] == '"');
    assert forall|j: int| 0 <= j < 10 implies s.subrange(p4 + 3, p4 + 13)[j] == ("timestamp"@
        + seq!['"'])[j] by {
        assert(s.subrange(p4 + 3, p4 + 13)[j] == s[p4 + (3 + j)]);
        assert(s[p4 + (3 + j)] == lc[3 + j]);
        if j < 9 {
            assert(lc[3 + j] == "timestamp"@[j]);
        } else {
            assert(lc[12] == '"');
        }
    }
    assert(s.subrange(p4 + 3, p4 + 13) =~= "timestamp"@ + seq!['"']);
    assert(s[p4 + 13] == lc[13] && lc[13] == ':');
    assert forall|j: int| 0 <= j < tsd.len() implies s.subrange(p5, p6)[j] == tsd[j] by {
        assert(s.subrange(p5, p6)[j] == s[p5 + j]);
    }
    assert(s.subrange(p5, p6) =~= tsd);
}

/// The parser's path through a manifest object whose pieces are already
/// parsed: given where each member and value was recognized, the object
/// parse assembles the manifest.
#[verifier::rlimit(100)]
proof fn lemma_manifest_walk(s: Seq<char>, i: int, m: ManifestView, fuel: nat)
    requires
        0 <= i,
        i64::MIN <= m.timestamp <= i64::MAX,
        i + render_manifest_view(m).len() <= s.len(),
        render_manifest_view(m).len() == 38 + json_quoted(m.key_base).len()
            + render_chunk_items(m.chunks).len() + dec_digits_signed(m.timestamp).len(),
        fuel >= render_manifest_view(m).len(),
        ({
            let qkb = json_quoted(m.key_base);
            let items = render_chunk_items(m.chunks);
            let tsd = dec_digits_signed(m.timestamp);
            let p2 = i + 12 + qkb.len() as int;
            let p4 = p2 + 11 + items.len() as int;
            let p5 = p4 + 14;
            let p6 = p5 + tsd.len() as int;
            let f1 = (fuel - 1) as nat;
            &&& s[i] == '{'
            &&& sp_ws(s, i + 1) == i + 1 && s[i + 1] == '"'
            &&& sp_string_body(s, i + 2, (f1 - 1) as nat) == Some(("key_base"@, i + 11))
            &&& sp_ws(s, i + 11) == i + 11 && s[i + 11] == ':'
            &&& sp_ws(s, i + 12) == i + 12 && s[i + 12] == '"'
            &&& sp_string_body(s, i + 13, (f1 - 1) as nat) == Some((m.key_base, p2))
            &&& sp_ws(s, p2) == p2 && s[p2] == ','
            &&& sp_ws(s, p2 + 1) == p2 + 1 && s[p2 + 1] == '"'
            &&& sp_string_body(s, p2 + 2, (f1 - 3) as nat) == Some(("chunks"@, p2 + 9))
            &&& sp_ws(s, p2 + 9) == p2 + 9 && s[p2 + 9] == ':'
            &&& sp_ws(s, p2 + 10) == p2 + 10 && s[p2 + 10] == '['
            &&& sp_string_array(s, p2 + 10, (f1 - 3) as nat) == Some((m.chunks, p4 + 1))
            &&& sp_ws(s, p4 + 1) == p4 + 1 && s[p4 + 1] == ','
            &&& sp_ws(s, p4 + 2) == p4 + 2 && s[p4 + 2] == '"'
            &&& sp_string_body(s, p4 + 3, (f1 - 5) as nat) == Some(("timestamp"@, p4 + 13))
            &&& sp_ws(s, p4 + 13) == p4 + 13 && s[p4 + 13] == ':'
            &&& sp_ws(s, p5) == p5
            &&& sp_int(s, p5) == Some((m.timestamp, p6))
            &&& sp_ws(s, p6) == p6 && s[p6] == '}'
            &&& "chunks"@ != "key_base"@
            &&& "timestamp"@ != "key_base"@
            &&& "timestamp"@ != "chunks"@
        }),
    ensures
        sp_manifest_obj(s, i, fuel) == Some((m, i + render_manifest_view(m).len() as int)),
{
    let qkb = json_quoted(m.key_base);
    let items = render_chunk_items(m.chunks);
    let tsd = dec_digits_signed(m.timestamp);
    let l = render_manifest_view(m).len() as int;
    let p2 = i + 12 + qkb.len() as int;
    let p4 = p2 + 11 + items.len() as int;
    let p5 = p4 + 14;
    let p6 = p5 + tsd.len() as int;
    let f1 = (fuel - 1) as nat;
    assert(f1 >= 9);
    assert(ManifestView { key_base: m.key_base, chunks: m.chunks, timestamp: m.timestamp }
        == m);
    let kb: Option<Seq<char>> = Some(m.key_base);
    let ch: Option<Seq<Seq<char>>> = Some(m.chunks);
    let no_s: Option<Seq<char>> = Option::None;
    let no_c: Option<Seq<Seq<char>>> = Option::None;
    let no_t: Option<int> = Option::None;
    assert(sp_manifest_members(s, i + 1, no_s, no_c, no_t, f1) == sp_manifest_after_member(
        s,
        p2,
        kb,
        no_c,
        no_t,
        (f1 - 1) as nat,
    ));
    assert(sp_manifest_after_member(s, p2, kb, no_c, no_t, (f1 - 1) as nat)
        == sp_manifest_members(s, p2 + 1, kb, no_c, no_t, (f1 - 2) as nat));
    assert(sp_manifest_members(s, p2 + 1, kb, no_c, no_t, (f1 - 2) as nat)
        == sp_manifest_after_member(s, p4 + 1, kb, ch, no_t, (f1 - 3) as nat));
    assert(sp_manifest_after_member(s, p4 + 1, kb, ch, no_t, (f1 - 3) as nat)
        == sp_manifest_members(s, p4 + 2, kb, ch, no_t, (f1 - 4) as nat));
    assert(sp_manifest_members(s, p4 + 2, kb, ch, no_t, (f1 - 4) as nat)
        == sp_manifest_after_member(s, p6, kb, ch, Some(m.timestamp), (f1 - 5) as nat));
    assert(sp_manifest_after_member(s, p6, kb, ch, Some(m.timestamp), (f1 - 5) as nat) == Some(
        (m, p6 + 1),
    ));
    assert(sp_manifest_obj(s, i, fuel) == Some((m, i + l)));
}

/// Parsing a rendered manifest object yields its content back, ending
/// right after the closing brace.
#[verifier::rlimit(100)]
proof fn lemma_manifest_obj_round(s: Seq<char>, i: int, m: ManifestView, fuel: nat)
    requires
        0 <= i,
        i64::MIN <= m.timestamp <= i64::MAX,
        i + render_manifest_view(m).len() <= s.len(),
        s.subrange(i, i + render_manifest_view(m).len() as int) == render_manifest_view(m),
        fuel >= render_manifest_view(m).len(),
    ensures
        sp_manifest_obj(s, i, fuel) == Some((m, i + render_manifest_view(m).len() as int)),
{
    lemma_manifest_chars(s, i, m);
    let qkb = json_quoted(m.key_base);
    let items = render_chunk_items(m.chunks);
    let tsd = dec_digits_signed(m.timestamp);
    let p1 = i + 12;
    let p2 = p1 + qkb.len() as int;
    let p3 = p2 + 11;
    let p4 = p3 + items.len() as int;
    let p5 = p4 + 14;
    let p6 = p5 + tsd.len() as int;
    reveal_strlit("key_base");
    reveal_strlit("chunks");
    reveal_strlit("timestamp");
    let f1 = (fuel - 1) as nat;
    assert(f1 >= 9);
    // The first member: "key_base", with the quoted key base as value.
    lemma_sp_ws_still(s, i + 1);
    lemma_escaped_plain("key_base"@);
    lemma_string_body_round(s, i + 2, "key_base"@, (f1 - 1) as nat);
    lemma_sp_ws_still(s, i + 11);
    lemma_sp_ws_still(s, i + 12);
    lemma_quoted_round(s, p1, m.key_base, (f1 - 1) as nat);
    // The second member: "chunks", with the chunk array as value.
    lemma_sp_ws_still(s, p2);
    lemma_sp_ws_still(s, p2 + 1);
    lemma_escaped_plain("chunks"@);
    lemma_string_body_round(s, p2 + 2, "chunks"@, (f1 - 3) as nat);
    lemma_sp_ws_still(s, p2 + 9);
    lemma_sp_ws_still(s, p2 + 10);
    assert("chunks"@ != "key_base"@);
    if m.chunks.len() == 0 {
        lemma_sp_ws_still(s, p3);
        assert(m.chunks =~= Seq::<Seq<char>>::empty());
        assert(sp_string_array(s, p2 + 10, (f1 - 3) as nat) == Some((m.chunks, p4 + 1)));
    } else {
        lemma_sp_ws_still(s, p3);
        lemma_string_items_round(s, p3, m.chunks, (f1 - 4) as nat);
        assert(sp_string_array(s, p2 + 10, (f1 - 3) as nat) == Some((m.chunks, p4 + 1)));
    }
    // The third member: "timestamp", with the integer as value.
    lemma_sp_ws_still(s, p4 + 1);
    lemma_sp_ws_still(s, p4 + 2);
    lemma_escaped_plain("timestamp"@);
    lemma_string_body_round(s, p4 + 3, "timestamp"@, (f1 - 5) as nat);
    lemma_sp_ws_still(s, p4 + 13);
    assert(s[p5 + 0] == s.subrange(p5, p6)[0]);
    if m.timestamp < 0 {
        assert(tsd =~= seq!['-'] + dec_digits(-m.timestamp));
        assert(tsd[0] == '-');
    } else {
        assert(tsd =~= dec_digits(m.timestamp));
        lemma_dec_digits_are_digits(m.timestamp);
        assert(is_dec_digit(tsd[0]));
    }
    assert(!crate::json::is_json_ws(s[p5]));
    lemma_sp_ws_still(s, p5);
    assert("timestamp"@ != "key_base"@);
    assert("timestamp"@ != "chunks"@);
    assert(!is_dec_digit('}'));
    lemma_sp_int_round(s, p5, m.timestamp);
    lemma_sp_ws_still(s, p6);
    lemma_manifest_walk(s, i, m, fuel);
}

/// Rendering a manifest and parsing the document back yields the
/// manifest: the codec is its own inverse on everything it writes.
pub proof fn lemma_manifest_round_trip(m: ManifestView)
    requires
        i64::MIN <= m.timestamp <= i64::MAX,
    ensures
        sp_manifest(render_manifest_view(m)) == Some(m),
{
    let s = render_manifest_view(m);
    assert(s.subrange(0, s.len() as int) =~= s);
    lemma_manifest_chars(s, 0, m);
    assert(s[0] == '{');
    lemma_sp_ws_still(s, 0);
    lemma_manifest_obj_round(s, 0, m, s.len() as nat);
}

/// Whether a key is among the entries, after adding one at the end.
proof fn lemma_has_key_push(
    es: Seq<(Seq<char>, ManifestView)>,
    p: (Seq<char>, ManifestView),
    k: Seq<char>,
)
    ensures
        crate::metadata::sp_map_has_key(es.push(p), k) == (crate::metadata::sp_map_has_key(
            es,
            k,
        ) || p.0 == k),
{
    if crate::metadata::sp_map_has_key(es.push(p), k) {
        let j = choose|j: int| 0 <= j < es.push(p).len() && es.push(p)[j].0 == k;
        if j < es.len() {
            assert(es[j].0 == k);
        } else {
            assert(es.push(p)[j] == p);
        }
    }
    if crate::metadata::sp_map_has_key(es, k) {
        let j = choose|j: int| 0 <= j < es.len() && es[j].0 == k;
        assert(es.push(p)[j].0 == k);
    }
    if p.0 == k {
        assert(es.push(p)[es.len() as int].0 == k);
    }
}

/// The rendered map entries, decomposed at the front.
proof fn lemma_render_map_items_front(es: Seq<(Seq<char>, ManifestView)>)
    requires
        es.len() >= 2,
    ensures
        render_map_items(es) == json_quoted(es[0].0) + seq![':'] + render_manifest_view(
            es[0].1,
        ) + seq![','] + render_map_items(es.skip(1)),
    decreases es.len(),
{
    if es.len() == 2 {
        assert(es.drop_last() =~= seq![es[0]]);
        assert(es.skip(1) =~= seq![es[1]]);
        assert(render_map_items(seq![es[0]]) == json_quoted(es[0].0) + seq![':']
            + render_manifest_view(es[0].1));
        assert(render_map_items(seq![es[1]]) == json_quoted(es[1].0) + seq![':']
            + render_manifest_view(es[1].1));
        assert(es.last() == es[1]);
        assert(render_map_items(es) =~= json_quoted(es[0].0) + seq![':']
            + render_manifest_view(es[0].1) + seq![','] + render_map_items(es.skip(1)));
    } else {
        lemma_render_map_items_front(es.drop_last());
        assert(es.drop_last()[0] == es[0]);
        assert(es.skip(1).drop_last() =~= es.drop_last().skip(1));
        assert(es.skip(1).last() == es.last());
        assert(render_map_items(es) =~= json_quoted(es[0].0) + seq![':']
            + render_manifest_view(es[0].1) + seq![','] + render_map_items(es.skip(1)));
    }
}

/// Parsing rendered map entries followed by the closing brace collects
/// exactly those entries after the ones already seen.
#[verifier::rlimit(100)]
proof fn lemma_map_members_round(
    s: Seq<char>,
    i: int,
    es: Seq<(Seq<char>, ManifestView)>,
    acc: Seq<(Seq<char>, ManifestView)>,
    fuel: nat,
)
    requires
        0 <= i,
        es.len() >= 1,
        forall|a: int, b: int| 0 <= a < b < es.len() ==> es[a].0 != es[b].0,
        forall|k: int|
            0 <= k < es.len() ==> !crate::metadata::sp_map_has_key(acc, #[trigger] es[k].0),
        forall|k: int|
            0 <= k < es.len() ==> (i64::MIN <= (#[trigger] es[k].1).timestamp <= i64::MAX),
        i + render_map_items(es).len() + 1 <= s.len(),
        s.subrange(i, i + render_map_items(es).len() + 1) == render_map_items(es) + seq!['}'],
        fuel >= render_map_items(es).len() + 2,
    ensures
        sp_map_members(s, i, acc, fuel) == Some((acc + es, i + render_map_items(es).len() + 1)),
    decreases es.len(),
{
    let items = render_map_items(es);
    let l = items.len() as int;
    let e0 = es[0];
    let q0 = json_quoted(e0.0);
    let mv = render_manifest_view(e0.1);
    assert forall|j: int| 0 <= j <= l implies s[i + j] == (items + seq!['}'])[j] by {
        assert(s.subrange(i, i + l + 1)[j] == s[i + j]);
    }
    if es.len() == 1 {
        assert(items =~= (q0 + seq![':']) + mv);
    } else {
        lemma_render_map_items_front(es);
        assert(items =~= q0 + seq![':'] + mv + seq![','] + render_map_items(es.skip(1)));
    }
    assert forall|j: int| 0 <= j < q0.len() + 1 + mv.len() implies items[j] == ((q0 + seq![':'])
        + mv)[j] by {
        if es.len() == 1 {
        } else {
            assert(items[j] == (q0 + seq![':'] + mv + seq![','] + render_map_items(
                es.skip(1),
            ))[j]);
        }
    }
    // The quoted shard key.
    assert forall|j: int| 0 <= j < q0.len() implies s.subrange(i, i + q0.len() as int)[j]
        == q0[j] by {
        assert(s.subrange(i, i + q0.len() as int)[j] == s[i + j]);
        assert((items + seq!['}'])[j] == items[j]);
        assert(items[j] == ((q0 + seq![':']) + mv)[j]);
    }
    assert(s.subrange(i, i + q0.len() as int) =~= q0);
    lemma_quoted_round(s, i, e0.0, (fuel - 1) as nat);
    lemma_sp_ws_still(s, i);
    let pc = i + q0.len() as int;
    assert(s[pc + 0] == (items + seq!['}'])[q0.len() as int]);
    assert(items[q0.len() as int] == ((q0 + seq![':']) + mv)[q0.len() as int]);
    assert(((q0 + seq![':']) + mv)[q0.len() as int] == ':');
    assert(s[pc] == ':');
    lemma_sp_ws_still(s, pc);
    // The manifest value.
    let pm = pc + 1;
    assert forall|j: int| 0 <= j < mv.len() implies s.subrange(pm, pm + mv.len() as int)[j]
        == mv[j] by {
        assert(s.subrange(pm, pm + mv.len() as int)[j] == s[pm + j]);
        assert(s[i + (q0.len() + 1 + j)] == (items + seq!['}'])[q0.len() + 1 + j]);
        assert((items + seq!['}'])[q0.len() + 1 + j] == items[q0.len() + 1 + j]);
        assert(items[q0.len() + 1 + j] == ((q0 + seq![':']) + mv)[q0.len() + 1 + j]);
    }
    assert(s.subrange(pm, pm + mv.len() as int) =~= mv);
    lemma_manifest_chars(s, pm, e0.1);
    assert(s[pm] == '{');
    lemma_sp_ws_still(s, pm);
    lemma_manifest_obj_round(s, pm, e0.1, (fuel - 1) as nat);
    let pe = pm + mv.len() as int;
    // The separator or the closing brace, and the rest of the entries.
    assert(!crate::metadata::sp_map_has_key(acc, e0.0));
    if es.len() == 1 {
        assert(pe == i + l);
        assert((items + seq!['}'])[l] == seq!['}'][0]);
        assert(s[i + l] == '}');
        assert(s[pe] == '}');
        lemma_sp_ws_still(s, pe);
        assert(acc.push(e0) =~= acc + es);
    } else {
        assert(s[i + (pe - i)] == (items + seq!['}'])[pe - i]);
        assert((items + seq!['}'])[pe - i] == items[pe - i]);
        assert(items[pe - i] == (q0 + seq![':'] + mv + seq![','] + render_map_items(
            es.skip(1),
        ))[pe - i]);
        assert(s[pe] == ',');
        lemma_sp_ws_still(s, pe);
        let rest = es.skip(1);
        let ritems = render_map_items(rest);
        assert forall|j: int| 0 <= j <= ritems.len() implies s.subrange(pe + 1, i + l + 1)[j]
            == (ritems + seq!['}'])[j] by {
            assert(s.subrange(pe + 1, i + l + 1)[j] == s[(pe + 1) + j]);
            assert(s[i + (pe + 1 - i + j)] == (items + seq!['}'])[pe + 1 - i + j]);
            if pe + 1 - i + j < l {
                assert((items + seq!['}'])[pe + 1 - i + j] == items[pe + 1 - i + j]);
                assert(items[pe + 1 - i + j] == (q0 + seq![':'] + mv + seq![',']
                    + render_map_items(es.skip(1)))[pe + 1 - i + j]);
            }
        }
        assert(s.subrange(pe + 1, i + l + 1) =~= ritems + seq!['}']);
        let acc2 = acc.push(e0);
        assert forall|a: int, b: int| 0 <= a < b < rest.len() implies rest[a].0 != rest[b].0 by {
            assert(rest[a] == es[a + 1]);
            assert(rest[b] == es[b + 1]);
        }
        assert forall|k: int|
            0 <= k < rest.len() implies !crate::metadata::sp_map_has_key(
            acc2,
            #[trigger] rest[k].0,
        ) by {
            assert(rest[k] == es[k + 1]);
            lemma_has_key_push(acc, e0, es[k + 1].0);
            assert(es[0].0 != es[k + 1].0);
        }
        assert forall|k: int|
            0 <= k < rest.len() implies (i64::MIN <= (#[trigger] rest[k].1).timestamp
            <= i64::MAX) by {
            assert(rest[k] == es[k + 1]);
        }
        lemma_map_members_round(s, pe + 1, rest, acc2, (fuel - 1) as nat);
        assert(acc.push(e0) + rest =~= acc + es);
    }
}

/// Rendering the metadata map and parsing the document back yields the
/// entries verbatim, in their original order: what a run persists, a
/// staged re-entry reads back unchanged, shard by shard and chunk by
/// chunk.
pub proof fn lemma_metadata_map_round_trip(es: Seq<(Seq<char>, ManifestView)>)
    requires
        forall|a: int, b: int| 0 <= a < b < es.len() ==> es[a].0 != es[b].0,
        forall|k: int|
            0 <= k < es.len() ==> (i64::MIN <= (#[trigger] es[k].1).timestamp <= i64::MAX),
    ensures
        sp_metadata_map(render_map_view(es)) == Some(es),
{
    let items = render_map_items(es);
    let s = render_map_view(es);
    let l = items.len() as int;
    assert(s =~= (seq!['{'] + items) + seq!['}']);
    assert(s.len() == l + 2);
    assert(s[0] == '{');
    lemma_sp_ws_still(s, 0);
    if es.len() == 0 {
        assert(items =~= Seq::<char>::empty());
        assert(s[1] == '}');
        lemma_sp_ws_still(s, 1);
        assert(sp_ws(s, 2) == 2);
        assert(es =~= Seq::<(Seq<char>, ManifestView)>::empty());
    } else {
        assert forall|j: int| 0 <= j <= l implies s.subrange(1, l + 2)[j] == (items
            + seq!['}'])[j] by {
            assert(s.subrange(1, l + 2)[j] == s[1 + j]);
            if j < l {
                assert(s[1 + j] == items[j]);
            } else {
                assert(s[1 + j] == '}');
            }
        }
        assert(s.subrange(1, l + 2) =~= items + seq!['}']);
        let q0 = json_quoted(es[0].0);
        assert(items[0] == q0[0]) by {
            if es.len() == 1 {
                assert(items =~= (q0 + seq![':']) + render_manifest_view(es[0].1));
            } else {
                lemma_render_map_items_front(es);
            }
        }
        assert(q0 =~= seq!['"'] + (json_escaped(es[0].0) + seq!['"']));
        assert(s[1] == items[0] && items[0] == '"');
        lemma_sp_ws_still(s, 1);
        lemma_map_members_round(
            s,
            1,
            es,
            Seq::<(Seq<char>, ManifestView)>::empty(),
            (s.len() as nat),
        );
        assert(sp_ws(s, l + 2) == l + 2);
        assert(Seq::<(Seq<char>, ManifestView)>::empty() + es =~= es);
    }
}

} // verus!
