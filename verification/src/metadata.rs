//! The manifest codec and the snapshot metadata service's decisions.
//!
//! A manifest is a JSON object `{"key_base": string, "chunks": [string,
//! ...], "timestamp": integer}`; the persisted metadata file maps shard-id
//! strings to manifests. Both are parsed and rendered here by verified
//! code over the machinery of [`crate::json`]: unknown members are
//! skipped, members may come in any order, and a duplicate member is
//! rejected.

use crate::error::SnapshotError;
use crate::json::{
    read_string_body, skip_value, skip_ws, sp_int, sp_skip_value, sp_string_body, sp_ws,
    parse_i64_at,
};
use crate::strnum::{chars_eq_str, chars_to_string, dec_digits_signed, hex_digit, push_char, push_dec_i64, push_dec_u64};
use crate::types::SnapshotMetadata;
use vstd::prelude::*;

verus! {

/// The mathematical content of one manifest.
pub struct ManifestView {
    /// The remote path prefix.
    pub key_base: Seq<char>,
    /// The ordered chunk object names.
    pub chunks: Seq<Seq<char>>,
    /// The creation time.
    pub timestamp: int,
}

/// The character sequences of a vector of strings, in order.
pub open spec fn strings_view(v: Seq<String>) -> Seq<Seq<char>> {
    Seq::new(v.len(), |i: int| v[i]@)
}

impl View for SnapshotMetadata {
    type V = ManifestView;

    open spec fn view(&self) -> ManifestView {
        ManifestView {
            key_base: self.key_base@,
            chunks: strings_view(self.chunks@),
            timestamp: self.timestamp as int,
        }
    }
}

/// Parses the elements of a non-empty string array; `i` stands before
/// the first element. Yields the strings and the position after `]`.
pub open spec fn sp_string_items(s: Seq<char>, i: int, fuel: nat) -> Option<(Seq<Seq<char>>, int)>
    decreases fuel,
{
    if fuel == 0 {
        None
    } else {
        let k = sp_ws(s, i);
        if k >= s.len() || s[k] != '"' {
            None
        } else {
            match sp_string_body(s, k + 1, (fuel - 1) as nat) {
                Option::None => None,
                Option::Some((t, j)) => {
                    let j2 = sp_ws(s, j);
                    if j2 < s.len() && s[j2] == ',' {
                        match sp_string_items(s, j2 + 1, (fuel - 1) as nat) {
                            Option::None => None,
                            Option::Some((rest, e)) => Some((seq![t] + rest, e)),
                        }
                    } else if j2 < s.len() && s[j2] == ']' {
                        Some((seq![t], j2 + 1))
                    } else {
                        None
                    }
                },
            }
        }
    }
}

/// Parses a string array whose `[` stands at `i` (the empty array
/// included).
pub open spec fn sp_string_array(s: Seq<char>, i: int, fuel: nat) -> Option<(Seq<Seq<char>>, int)>
    decreases fuel,
{
    if fuel == 0 || i >= s.len() || s[i] != '[' {
        None
    } else {
        let k = sp_ws(s, i + 1);
        if k < s.len() && s[k] == ']' {
            Some((Seq::empty(), k + 1))
        } else {
            sp_string_items(s, i + 1, (fuel - 1) as nat)
        }
    }
}

/// Parsed string items end after where they began, within the input.
pub proof fn lemma_sp_string_items_bounds(s: Seq<char>, i: int, fuel: nat)
    requires
        0 <= i <= s.len(),
        sp_string_items(s, i, fuel) is Some,
    ensures
        ({
            let (t, e) = sp_string_items(s, i, fuel)->0;
            i < e <= s.len()
        }),
    decreases fuel,
{
    crate::json::lemma_sp_ws_bounds(s, i);
    let k = sp_ws(s, i);
    crate::json::lemma_sp_string_body_bounds(s, k + 1, (fuel - 1) as nat);
    let (t, j) = sp_string_body(s, k + 1, (fuel - 1) as nat)->0;
    crate::json::lemma_sp_ws_bounds(s, j);
    let j2 = sp_ws(s, j);
    if j2 < s.len() && s[j2] == ',' {
        lemma_sp_string_items_bounds(s, j2 + 1, (fuel - 1) as nat);
    }
}

/// A parsed string array ends after where it began, within the input.
pub proof fn lemma_sp_string_array_bounds(s: Seq<char>, i: int, fuel: nat)
    requires
        0 <= i <= s.len(),
        sp_string_array(s, i, fuel) is Some,
    ensures
        ({
            let (t, e) = sp_string_array(s, i, fuel)->0;
            i < e <= s.len()
        }),
{
    crate::json::lemma_sp_ws_bounds(s, i + 1);
    let k = sp_ws(s, i + 1);
    if k < s.len() && s[k] == ']' {
    } else {
        lemma_sp_string_items_bounds(s, i + 1, (fuel - 1) as nat);
    }
}

/// Parses the elements of a non-empty string array, mirroring
/// [`sp_string_items`].
fn read_string_items(v: &[char], i: usize, fuel: usize) -> (r: Option<(Vec<String>, usize)>)
    requires
        i <= v@.len(),
    ensures
        (r is Some) == (sp_string_items(v@, i as int, fuel as nat) is Some),
        r matches Some((out, e)) ==> (sp_string_items(v@, i as int, fuel as nat) == Some(
            (strings_view(out@), e as int),
        ) && i < e <= v@.len()),
    decreases fuel,
{
    if fuel == 0 {
        return None;
    }
    let k = skip_ws(v, i);
    if k >= v.len() || v[k] != '"' {
        return None;
    }
    match read_string_body(v, k + 1, fuel - 1) {
        Option::None => None,
        Option::Some((t, j)) => {
            let item = chars_to_string(t.as_slice());
            let j2 = skip_ws(v, j);
            if j2 < v.len() && v[j2] == ',' {
                match read_string_items(v, j2 + 1, fuel - 1) {
                    Option::None => None,
                    Option::Some((rest, e)) => {
                        let mut out = rest;
                        out.insert(0, item);
                        proof {
                            let (st, se) = sp_string_items(v@, j2 + 1, (fuel - 1) as nat)->0;
                            assert(strings_view(out@) =~= seq![t@] + st);
                        }
                        Some((out, e))
                    },
                }
            } else if j2 < v.len() && v[j2] == ']' {
                let mut out: Vec<String> = Vec::new();
                out.push(item);
                proof {
                    assert(strings_view(out@) =~= seq![t@]);
                }
                Some((out, j2 + 1))
            } else {
                None
            }
        },
    }
}

/// Parses a string array whose `[` stands at `i`, mirroring
/// [`sp_string_array`].
fn read_string_array(v: &[char], i: usize, fuel: usize) -> (r: Option<(Vec<String>, usize)>)
    requires
        i <= v@.len(),
    ensures
        (r is Some) == (sp_string_array(v@, i as int, fuel as nat) is Some),
        r matches Some((out, e)) ==> (sp_string_array(v@, i as int, fuel as nat) == Some(
            (strings_view(out@), e as int),
        ) && i < e <= v@.len()),
{
    if fuel == 0 || i >= v.len() || v[i] != '[' {
        return None;
    }
    let k = skip_ws(v, i + 1);
    if k < v.len() && v[k] == ']' {
        let out: Vec<String> = Vec::new();
        proof {
            assert(strings_view(out@) =~= Seq::<Seq<char>>::empty());
        }
        Some((out, k + 1))
    } else {
        read_string_items(v, i + 1, fuel - 1)
    }
}

/// The view of an optional string.
pub open spec fn opt_string_view(x: Option<String>) -> Option<Seq<char>> {
    match x {
        Option::None => Option::None,
        Option::Some(t) => Option::Some(t@),
    }
}

/// The view of an optional string vector.
pub open spec fn opt_strings_view(x: Option<Vec<String>>) -> Option<Seq<Seq<char>>> {
    match x {
        Option::None => Option::None,
        Option::Some(t) => Option::Some(strings_view(t@)),
    }
}

/// The view of an optional machine integer.
pub open spec fn opt_i64_view(x: Option<i64>) -> Option<int> {
    match x {
        Option::None => Option::None,
        Option::Some(t) => Option::Some(t as int),
    }
}

/// Parses manifest members from `i` (just after `{` or a `,`), with the
/// members seen so far in `kb`, `ch` and `ts`. A member may come in any
/// order; a repeated member or a missing one at the closing `}` fails;
/// unknown members are skipped. Yields the manifest and the position
/// after `}`.
pub open spec fn sp_manifest_members(
    s: Seq<char>,
    i: int,
    kb: Option<Seq<char>>,
    ch: Option<Seq<Seq<char>>>,
    ts: Option<int>,
    fuel: nat,
) -> Option<(ManifestView, int)>
    decreases fuel,
{
    if fuel == 0 {
        None
    } else {
        let k = sp_ws(s, i);
        if k >= s.len() || s[k] != '"' {
            None
        } else {
            match sp_string_body(s, k + 1, (fuel - 1) as nat) {
                Option::None => None,
                Option::Some((key, j)) => {
                    let j2 = sp_ws(s, j);
                    if j2 >= s.len() || s[j2] != ':' {
                        None
                    } else {
                        let j3 = sp_ws(s, j2 + 1);
                        if key == "key_base"@ {
                            if kb is Some || j3 >= s.len() || s[j3] != '"' {
                                None
                            } else {
                                match sp_string_body(s, j3 + 1, (fuel - 1) as nat) {
                                    Option::None => None,
                                    Option::Some((val, j4)) => sp_manifest_after_member(
                                        s,
                                        j4,
                                        Some(val),
                                        ch,
                                        ts,
                                        (fuel - 1) as nat,
                                    ),
                                }
                            }
                        } else if key == "chunks"@ {
                            if ch is Some {
                                None
                            } else {
                                match sp_string_array(s, j3, (fuel - 1) as nat) {
                                    Option::None => None,
                                    Option::Some((val, j4)) => sp_manifest_after_member(
                                        s,
                                        j4,
                                        kb,
                                        Some(val),
                                        ts,
                                        (fuel - 1) as nat,
                                    ),
                                }
                            }
                        } else if key == "timestamp"@ {
                            if ts is Some {
                                None
                            } else {
                                match sp_int(s, j3) {
                                    Option::None => None,
                                    Option::Some((val, j4)) => {
                                        if i64::MIN <= val <= i64::MAX {
                                            sp_manifest_after_member(
                                                s,
                                                j4,
                                                kb,
                                                ch,
                                                Some(val),
                                                (fuel - 1) as nat,
                                            )
                                        } else {
                                            None
                                        }
                                    },
                                }
                            }
                        } else {
                            match sp_skip_value(s, j3, (fuel - 1) as nat) {
                                Option::None => None,
                                Option::Some(j4) => sp_manifest_after_member(
                                    s,
                                    j4,
                                    kb,
                                    ch,
                                    ts,
                                    (fuel - 1) as nat,
                                ),
                            }
                        }
                    }
                },
            }
        }
    }
}

/// After one member's value ending at `i`: a `,` continues with the next
/// member, a `}` closes the manifest, which is complete only when all
/// three members were seen.
pub open spec fn sp_manifest_after_member(
    s: Seq<char>,
    i: int,
    kb: Option<Seq<char>>,
    ch: Option<Seq<Seq<char>>>,
    ts: Option<int>,
    fuel: nat,
) -> Option<(ManifestView, int)>
    decreases fuel,
{
    if fuel == 0 {
        None
    } else {
        let j5 = sp_ws(s, i);
        if j5 < s.len() && s[j5] == ',' {
            sp_manifest_members(s, j5 + 1, kb, ch, ts, (fuel - 1) as nat)
        } else if j5 < s.len() && s[j5] == '}' {
            match (kb, ch, ts) {
                (Option::Some(k), Option::Some(c), Option::Some(t)) => Some(
                    (ManifestView { key_base: k, chunks: c, timestamp: t }, j5 + 1),
                ),
                _ => None,
            }
        } else {
            None
        }
    }
}

/// Parses a whole manifest object starting at `i` (at its `{`).
pub open spec fn sp_manifest_obj(s: Seq<char>, i: int, fuel: nat) -> Option<(ManifestView, int)>
    decreases fuel,
{
    if fuel == 0 || i >= s.len() || s[i] != '{' {
        None
    } else {
        sp_manifest_members(s, i + 1, Option::None, Option::None, Option::None, (fuel - 1) as nat)
    }
}

/// Parses a manifest document: one manifest object with nothing but
/// whitespace around it.
pub open spec fn sp_manifest(s: Seq<char>) -> Option<ManifestView> {
    let i0 = sp_ws(s, 0);
    match sp_manifest_obj(s, i0, s.len() as nat) {
        Option::None => None,
        Option::Some((m, e)) => {
            if sp_ws(s, e) == s.len() {
                Some(m)
            } else {
                None
            }
        },
    }
}

/// Parsed manifest members end after where they began, within the input.
pub proof fn lemma_sp_manifest_members_bounds(
    s: Seq<char>,
    i: int,
    kb: Option<Seq<char>>,
    ch: Option<Seq<Seq<char>>>,
    ts: Option<int>,
    fuel: nat,
)
    requires
        0 <= i <= s.len(),
        sp_manifest_members(s, i, kb, ch, ts, fuel) is Some,
    ensures
        ({
            let (m, e) = sp_manifest_members(s, i, kb, ch, ts, fuel)->0;
            i < e <= s.len()
        }),
    decreases fuel,
{
    crate::json::lemma_sp_ws_bounds(s, i);
    let k = sp_ws(s, i);
    crate::json::lemma_sp_string_body_bounds(s, k + 1, (fuel - 1) as nat);
    let (key, j) = sp_string_body(s, k + 1, (fuel - 1) as nat)->0;
    crate::json::lemma_sp_ws_bounds(s, j);
    let j2 = sp_ws(s, j);
    let j3 = sp_ws(s, j2 + 1);
    crate::json::lemma_sp_ws_bounds(s, j2 + 1);
    if key == "key_base"@ {
        crate::json::lemma_sp_string_body_bounds(s, j3 + 1, (fuel - 1) as nat);
        let (val, j4) = sp_string_body(s, j3 + 1, (fuel - 1) as nat)->0;
        lemma_sp_manifest_after_member_bounds(s, j4, Some(val), ch, ts, (fuel - 1) as nat);
    } else if key == "chunks"@ {
        lemma_sp_string_array_bounds(s, j3, (fuel - 1) as nat);
        let (val, j4) = sp_string_array(s, j3, (fuel - 1) as nat)->0;
        lemma_sp_manifest_after_member_bounds(s, j4, kb, Some(val), ts, (fuel - 1) as nat);
    } else if key == "timestamp"@ {
        crate::json::lemma_sp_int_bounds(s, j3);
        let (val, j4) = sp_int(s, j3)->0;
        lemma_sp_manifest_after_member_bounds(s, j4, kb, ch, Some(val), (fuel - 1) as nat);
    } else {
        crate::json::lemma_sp_skip_value_bounds(s, j3, (fuel - 1) as nat);
        let j4 = sp_skip_value(s, j3, (fuel - 1) as nat)->0;
        lemma_sp_manifest_after_member_bounds(s, j4, kb, ch, ts, (fuel - 1) as nat);
    }
}

/// The continuation after a member ends after where it began, within the
/// input.
pub proof fn lemma_sp_manifest_after_member_bounds(
    s: Seq<char>,
    i: int,
    kb: Option<Seq<char>>,
    ch: Option<Seq<Seq<char>>>,
    ts: Option<int>,
    fuel: nat,
)
    requires
        0 <= i <= s.len(),
        sp_manifest_after_member(s, i, kb, ch, ts, fuel) is Some,
    ensures
        ({
            let (m, e) = sp_manifest_after_member(s, i, kb, ch, ts, fuel)->0;
            i < e <= s.len()
        }),
    decreases fuel,
{
    crate::json::lemma_sp_ws_bounds(s, i);
    let j5 = sp_ws(s, i);
    if j5 < s.len() && s[j5] == ',' {
        lemma_sp_manifest_members_bounds(s, j5 + 1, kb, ch, ts, (fuel - 1) as nat);
    }
}

/// Parses manifest members, mirroring [`sp_manifest_members`].
fn read_manifest_members(
    v: &[char],
    i: usize,
    kb: Option<String>,
    ch: Option<Vec<String>>,
    ts: Option<i64>,
    fuel: usize,
) -> (r: Option<(SnapshotMetadata, usize)>)
    requires
        i <= v@.len(),
    ensures
        (r is Some) == (sp_manifest_members(
            v@,
            i as int,
            opt_string_view(kb),
            opt_strings_view(ch),
            opt_i64_view(ts),
            fuel as nat,
        ) is Some),
        r matches Some((m, e)) ==> (sp_manifest_members(
            v@,
            i as int,
            opt_string_view(kb),
            opt_strings_view(ch),
            opt_i64_view(ts),
            fuel as nat,
        ) == Some((m@, e as int)) && i < e <= v@.len()),
    decreases fuel,
{
    proof {
        if sp_manifest_members(
            v@,
            i as int,
            opt_string_view(kb),
            opt_strings_view(ch),
            opt_i64_view(ts),
            fuel as nat,
        ) is Some {
            lemma_sp_manifest_members_bounds(
                v@,
                i as int,
                opt_string_view(kb),
                opt_strings_view(ch),
                opt_i64_view(ts),
                fuel as nat,
            );
        }
    }
    if fuel == 0 {
        return None;
    }
    let k = skip_ws(v, i);
    if k >= v.len() || v[k] != '"' {
        return None;
    }
    match read_string_body(v, k + 1, fuel - 1) {
        Option::None => None,
        Option::Some((key, j)) => {
            let j2 = skip_ws(v, j);
            if j2 >= v.len() || v[j2] != ':' {
                return None;
            }
            let j3 = skip_ws(v, j2 + 1);
            if chars_eq_str(key.as_slice(), "key_base") {
                if kb.is_some() || j3 >= v.len() || v[j3] != '"' {
                    return None;
                }
                match read_string_body(v, j3 + 1, fuel - 1) {
                    Option::None => None,
                    Option::Some((val, j4)) => {
                        let vs = chars_to_string(val.as_slice());
                        read_manifest_after_member(v, j4, Some(vs), ch, ts, fuel - 1)
                    },
                }
            } else if chars_eq_str(key.as_slice(), "chunks") {
                if ch.is_some() {
                    return None;
                }
                match read_string_array(v, j3, fuel - 1) {
                    Option::None => None,
                    Option::Some((val, j4)) => read_manifest_after_member(
                        v,
                        j4,
                        kb,
                        Some(val),
                        ts,
                        fuel - 1,
                    ),
                }
            } else if chars_eq_str(key.as_slice(), "timestamp") {
                if ts.is_some() {
                    return None;
                }
                match parse_i64_at(v, j3) {
                    Option::None => None,
                    Option::Some((val, j4)) => read_manifest_after_member(
                        v,
                        j4,
                        kb,
                        ch,
                        Some(val),
                        fuel - 1,
                    ),
                }
            } else {
                match skip_value(v, j3, fuel - 1) {
                    Option::None => None,
                    Option::Some(j4) => {
                        proof {
                            crate::json::lemma_sp_skip_value_bounds(
                                v@,
                                j3 as int,
                                (fuel - 1) as nat,
                            );
                        }
                        read_manifest_after_member(v, j4, kb, ch, ts, fuel - 1)
                    },
                }
            }
        },
    }
}

/// The continuation after one member, mirroring
/// [`sp_manifest_after_member`].
fn read_manifest_after_member(
    v: &[char],
    i: usize,
    kb: Option<String>,
    ch: Option<Vec<String>>,
    ts: Option<i64>,
    fuel: usize,
) -> (r: Option<(SnapshotMetadata, usize)>)
    requires
        i <= v@.len(),
    ensures
        (r is Some) == (sp_manifest_after_member(
            v@,
            i as int,
            opt_string_view(kb),
            opt_strings_view(ch),
            opt_i64_view(ts),
            fuel as nat,
        ) is Some),
        r matches Some((m, e)) ==> (sp_manifest_after_member(
            v@,
            i as int,
            opt_string_view(kb),
            opt_strings_view(ch),
            opt_i64_view(ts),
            fuel as nat,
        ) == Some((m@, e as int)) && i < e <= v@.len()),
    decreases fuel,
{
    proof {
        if sp_manifest_after_member(
            v@,
            i as int,
            opt_string_view(kb),
            opt_strings_view(ch),
            opt_i64_view(ts),
            fuel as nat,
        ) is Some {
            lemma_sp_manifest_after_member_bounds(
                v@,
                i as int,
                opt_string_view(kb),
                opt_strings_view(ch),
                opt_i64_view(ts),
                fuel as nat,
            );
        }
    }
    if fuel == 0 {
        return None;
    }
    let j5 = skip_ws(v, i);
    if j5 < v.len() && v[j5] == ',' {
        read_manifest_members(v, j5 + 1, kb, ch, ts, fuel - 1)
    } else if j5 < v.len() && v[j5] == '}' {
        match (kb, ch, ts) {
            (Option::Some(k), Option::Some(c), Option::Some(t)) => {
                let m = SnapshotMetadata { key_base: k, chunks: c, timestamp: t };
                Some((m, j5 + 1))
            },
            _ => None,
        }
    } else {
        None
    }
}

/// Parses a whole manifest object starting at `i`, mirroring
/// [`sp_manifest_obj`].
fn read_manifest_obj(v: &[char], i: usize, fuel: usize) -> (r: Option<(SnapshotMetadata, usize)>)
    requires
        i <= v@.len(),
    ensures
        (r is Some) == (sp_manifest_obj(v@, i as int, fuel as nat) is Some),
        r matches Some((m, e)) ==> (sp_manifest_obj(v@, i as int, fuel as nat) == Some(
            (m@, e as int),
        ) && i < e <= v@.len()),
{
    if fuel == 0 || i >= v.len() || v[i] != '{' {
        return None;
    }
    read_manifest_members(v, i + 1, None, None, None, fuel - 1)
}

/// Parses a manifest document, mirroring [`sp_manifest`].
pub fn parse_manifest(body: &str) -> (r: Option<SnapshotMetadata>)
    ensures
        (r is Some) == (sp_manifest(body@) is Some),
        r matches Some(m) ==> Some(m@) == sp_manifest(body@),
{
    let v = crate::strnum::str_chars(body);
    proof {
        assert(v@ == body@);
    }
    let i0 = skip_ws(v.as_slice(), 0);
    match read_manifest_obj(v.as_slice(), i0, v.len()) {
        Option::None => None,
        Option::Some((m, e)) => {
            let e2 = skip_ws(v.as_slice(), e);
            if e2 == v.len() {
                Some(m)
            } else {
                None
            }
        },
    }
}

/// Whether some entry carries the given key.
pub open spec fn sp_map_has_key(entries: Seq<(Seq<char>, ManifestView)>, key: Seq<char>) -> bool {
    exists|i: int| 0 <= i < entries.len() && entries[i].0 == key
}

/// The manifest of the first entry carrying the given key.
pub open spec fn sp_map_get(entries: Seq<(Seq<char>, ManifestView)>, key: Seq<char>) -> Option<
    ManifestView,
>
    decreases entries.len(),
{
    if entries.len() == 0 {
        None
    } else if entries[0].0 == key {
        Some(entries[0].1)
    } else {
        sp_map_get(entries.skip(1), key)
    }
}

/// Every entry's manifest satisfies the manifest invariant: a non-empty
/// chunk list.
pub open spec fn map_entries_wf(es: Seq<(Seq<char>, ManifestView)>) -> bool {
    forall|i: int| 0 <= i < es.len() ==> (#[trigger] es[i].1).chunks.len() > 0
}

/// Every listed shard has an entry under its decimal key.
pub open spec fn map_covers(es: Seq<(Seq<char>, ManifestView)>, shard_ids: Seq<u32>) -> bool {
    forall|i: int|
        0 <= i < shard_ids.len() ==> sp_map_get(
            es,
            crate::strnum::dec_digits(#[trigger] shard_ids[i] as int),
        ) is Some
}

/// A found key is a present key and the other way round.
pub proof fn lemma_sp_map_get_has_key(entries: Seq<(Seq<char>, ManifestView)>, key: Seq<char>)
    ensures
        (sp_map_get(entries, key) is Some) == sp_map_has_key(entries, key),
    decreases entries.len(),
{
    if entries.len() == 0 {
    } else if entries[0].0 == key {
    } else {
        lemma_sp_map_get_has_key(entries.skip(1), key);
        if sp_map_has_key(entries, key) {
            let i = choose|i: int| 0 <= i < entries.len() && entries[i].0 == key;
            assert(entries.skip(1)[i - 1].0 == key);
        }
        if sp_map_has_key(entries.skip(1), key) {
            let i = choose|i: int| 0 <= i < entries.skip(1).len() && entries.skip(1)[i].0 == key;
            assert(entries[i + 1].0 == key);
        }
    }
}

/// Parses the members of a non-empty metadata map from `i` (just after
/// `{` or a `,`), with the entries already parsed in `acc`. A repeated
/// shard key fails. Yields all entries in file order and the position
/// after `}`.
pub open spec fn sp_map_members(
    s: Seq<char>,
    i: int,
    acc: Seq<(Seq<char>, ManifestView)>,
    fuel: nat,
) -> Option<(Seq<(Seq<char>, ManifestView)>, int)>
    decreases fuel,
{
    if fuel == 0 {
        None
    } else {
        let k = sp_ws(s, i);
        if k >= s.len() || s[k] != '"' {
            None
        } else {
            match sp_string_body(s, k + 1, (fuel - 1) as nat) {
                Option::None => None,
                Option::Some((key, j)) => {
                    if sp_map_has_key(acc, key) {
                        None
                    } else {
                        let j2 = sp_ws(s, j);
                        if j2 >= s.len() || s[j2] != ':' {
                            None
                        } else {
                            let j3 = sp_ws(s, j2 + 1);
                            match sp_manifest_obj(s, j3, (fuel - 1) as nat) {
                                Option::None => None,
                                Option::Some((m, j4)) => {
                                    let j5 = sp_ws(s, j4);
                                    if j5 < s.len() && s[j5] == ',' {
                                        sp_map_members(
                                            s,
                                            j5 + 1,
                                            acc.push((key, m)),
                                            (fuel - 1) as nat,
                                        )
                                    } else if j5 < s.len() && s[j5] == '}' {
                                        Some((acc.push((key, m)), j5 + 1))
                                    } else {
                                        None
                                    }
                                },
                            }
                        }
                    }
                },
            }
        }
    }
}

/// A parsed manifest object ends after where it began, within the input.
pub proof fn lemma_sp_manifest_obj_bounds(s: Seq<char>, i: int, fuel: nat)
    requires
        0 <= i <= s.len(),
        sp_manifest_obj(s, i, fuel) is Some,
    ensures
        ({
            let (m, e) = sp_manifest_obj(s, i, fuel)->0;
            i < e <= s.len()
        }),
{
    lemma_sp_manifest_members_bounds(
        s,
        i + 1,
        Option::None,
        Option::None,
        Option::None,
        (fuel - 1) as nat,
    );
}

/// Parsed map members end after where they began, within the input.
pub proof fn lemma_sp_map_members_bounds(
    s: Seq<char>,
    i: int,
    acc: Seq<(Seq<char>, ManifestView)>,
    fuel: nat,
)
    requires
        0 <= i <= s.len(),
        sp_map_members(s, i, acc, fuel) is Some,
    ensures
        ({
            let (es, e) = sp_map_members(s, i, acc, fuel)->0;
            i < e <= s.len()
        }),
    decreases fuel,
{
    crate::json::lemma_sp_ws_bounds(s, i);
    let k = sp_ws(s, i);
    crate::json::lemma_sp_string_body_bounds(s, k + 1, (fuel - 1) as nat);
    let (key, j) = sp_string_body(s, k + 1, (fuel - 1) as nat)->0;
    crate::json::lemma_sp_ws_bounds(s, j);
    let j2 = sp_ws(s, j);
    let j3 = sp_ws(s, j2 + 1);
    crate::json::lemma_sp_ws_bounds(s, j2 + 1);
    lemma_sp_manifest_obj_bounds(s, j3, (fuel - 1) as nat);
    let (m, j4) = sp_manifest_obj(s, j3, (fuel - 1) as nat)->0;
    crate::json::lemma_sp_ws_bounds(s, j4);
    let j5 = sp_ws(s, j4);
    if j5 < s.len() && s[j5] == ',' {
        lemma_sp_map_members_bounds(s, j5 + 1, acc.push((key, m)), (fuel - 1) as nat);
    }
}

/// Parses a metadata map document: one JSON object from shard-id strings
/// to manifests, with nothing but whitespace around it.
pub open spec fn sp_metadata_map(s: Seq<char>) -> Option<Seq<(Seq<char>, ManifestView)>> {
    let i0 = sp_ws(s, 0);
    if i0 >= s.len() || s[i0] != '{' {
        None
    } else {
        let k = sp_ws(s, i0 + 1);
        if k < s.len() && s[k] == '}' {
            if sp_ws(s, k + 1) == s.len() {
                Some(Seq::empty())
            } else {
                None
            }
        } else {
            match sp_map_members(s, i0 + 1, Seq::empty(), s.len() as nat) {
                Option::None => None,
                Option::Some((es, e)) => {
                    if sp_ws(s, e) == s.len() {
                        Some(es)
                    } else {
                        None
                    }
                },
            }
        }
    }
}

/// The persisted set of per-shard manifests, keyed by shard-id string,
/// in insertion order.
#[derive(Debug, Clone)]
pub struct MetadataMap {
    /// The `(shard id, manifest)` pairs, each key at most once.
    pub entries: Vec<(String, SnapshotMetadata)>,
}

impl View for MetadataMap {
    type V = Seq<(Seq<char>, ManifestView)>;

    open spec fn view(&self) -> Seq<(Seq<char>, ManifestView)> {
        Seq::new(self.entries@.len(), |i: int| (self.entries@[i].0@, self.entries@[i].1@))
    }
}

impl MetadataMap {
    /// An empty map.
    pub fn new() -> (r: MetadataMap)
        ensures
            r@ == Seq::<(Seq<char>, ManifestView)>::empty(),
    {
        let r = MetadataMap { entries: Vec::new() };
        proof {
            assert(r@ =~= Seq::<(Seq<char>, ManifestView)>::empty());
        }
        r
    }

    /// How many shards the map holds.
    pub fn len(&self) -> (r: usize)
        ensures
            r == self@.len(),
    {
        self.entries.len()
    }

    /// Whether some entry carries the key.
    pub fn contains_key(&self, key: &str) -> (r: bool)
        ensures
            r == sp_map_has_key(self@, key@),
    {
        let mut i: usize = 0;
        while i < self.entries.len()
            invariant
                i <= self.entries@.len(),
                forall|j: int| 0 <= j < i ==> self@[j].0 != key@,
            decreases self.entries@.len() - i,
        {
            if crate::strnum::str_eq(self.entries[i].0.as_str(), key) {
                assert(self@[i as int].0 == key@);
                return true;
            }
            i = i + 1;
        }
        false
    }

    /// The manifest stored under the key, if any (the first match).
    pub fn get(&self, key: &str) -> (r: Option<&SnapshotMetadata>)
        ensures
            (r is Some) == (sp_map_get(self@, key@) is Some),
            r matches Some(m) ==> sp_map_get(self@, key@) == Some(m@),
    {
        let ghost whole = self@;
        let mut i: usize = 0;
        proof {
            assert(self@.skip(0) =~= self@);
        }
        while i < self.entries.len()
            invariant
                i <= self.entries@.len(),
                whole == self@,
                sp_map_get(whole, key@) == sp_map_get(self@.skip(i as int), key@),
            decreases self.entries@.len() - i,
        {
            proof {
                assert(self@.skip(i as int)[0] == self@[i as int]);
                assert(self@.skip(i as int).skip(1) =~= self@.skip(i + 1));
            }
            if crate::strnum::str_eq(self.entries[i].0.as_str(), key) {
                return Some(&self.entries[i].1);
            }
            i = i + 1;
        }
        proof {
            assert(self@.skip(i as int).len() == 0);
        }
        None
    }

    /// The manifest stored for a shard id.
    pub fn get_shard(&self, shard_id: u32) -> (r: Option<&SnapshotMetadata>)
        ensures
            (r is Some) == (sp_map_get(self@, crate::strnum::dec_digits(shard_id as int))
                is Some),
            r matches Some(m) ==> sp_map_get(self@, crate::strnum::dec_digits(shard_id as int))
                == Some(m@),
    {
        let key = crate::strnum::u64_to_dec_string(shard_id as u64);
        self.get(key.as_str())
    }

    /// Adds a shard's manifest at the end; the caller keeps keys unique.
    pub fn insert(&mut self, key: String, m: SnapshotMetadata)
        ensures
            final(self)@ == old(self)@.push((key@, m@)),
    {
        self.entries.push((key, m));
        proof {
            assert(self@ =~= old(self)@.push((key@, m@)));
        }
    }

    /// Whether every listed shard has a manifest here.
    pub fn has_all_shards(&self, shard_ids: &Vec<u32>) -> (r: bool)
        ensures
            r == map_covers(self@, shard_ids@),
    {
        let mut i: usize = 0;
        while i < shard_ids.len()
            invariant
                i <= shard_ids@.len(),
                forall|j: int|
                    0 <= j < i ==> sp_map_get(
                        self@,
                        crate::strnum::dec_digits(#[trigger] shard_ids@[j] as int),
                    ) is Some,
            decreases shard_ids@.len() - i,
        {
            if self.get_shard(shard_ids[i]).is_none() {
                return false;
            }
            i = i + 1;
        }
        true
    }

    /// Whether every manifest held satisfies the manifest invariant (a
    /// non-empty chunk list).
    pub fn all_wf(&self) -> (r: bool)
        ensures
            r == map_entries_wf(self@),
    {
        let mut i: usize = 0;
        while i < self.entries.len()
            invariant
                i <= self.entries@.len(),
                forall|j: int| 0 <= j < i ==> (#[trigger] self@[j].1).chunks.len() > 0,
            decreases self.entries@.len() - i,
        {
            if self.entries[i].1.chunks.len() == 0 {
                assert(self@[i as int].1.chunks.len() == 0);
                return false;
            }
            assert(self@[i as int].1.chunks.len() > 0);
            i = i + 1;
        }
        true
    }
}

/// Parses map members, mirroring [`sp_map_members`].
fn read_map_members(v: &[char], i: usize, acc: MetadataMap, fuel: usize) -> (r: Option<(
    MetadataMap,
    usize,
)>)
    requires
        i <= v@.len(),
    ensures
        (r is Some) == (sp_map_members(v@, i as int, acc@, fuel as nat) is Some),
        r matches Some((out, e)) ==> (sp_map_members(v@, i as int, acc@, fuel as nat) == Some(
            (out@, e as int),
        ) && i < e <= v@.len()),
    decreases fuel,
{
    proof {
        if sp_map_members(v@, i as int, acc@, fuel as nat) is Some {
            lemma_sp_map_members_bounds(v@, i as int, acc@, fuel as nat);
        }
    }
    if fuel == 0 {
        return None;
    }
    let k = skip_ws(v, i);
    if k >= v.len() || v[k] != '"' {
        return None;
    }
    match read_string_body(v, k + 1, fuel - 1) {
        Option::None => None,
        Option::Some((keychars, j)) => {
            let key = chars_to_string(keychars.as_slice());
            let mut acc = acc;
            if acc.contains_key(key.as_str()) {
                return None;
            }
            let j2 = skip_ws(v, j);
            if j2 >= v.len() || v[j2] != ':' {
                return None;
            }
            let j3 = skip_ws(v, j2 + 1);
            match read_manifest_obj(v, j3, fuel - 1) {
                Option::None => None,
                Option::Some((m, j4)) => {
                    let j5 = skip_ws(v, j4);
                    acc.insert(key, m);
                    if j5 < v.len() && v[j5] == ',' {
                        read_map_members(v, j5 + 1, acc, fuel - 1)
                    } else if j5 < v.len() && v[j5] == '}' {
                        Some((acc, j5 + 1))
                    } else {
                        None
                    }
                },
            }
        },
    }
}

/// Parses a metadata map document, mirroring [`sp_metadata_map`].
pub fn parse_metadata_map(body: &str) -> (r: Option<MetadataMap>)
    ensures
        (r is Some) == (sp_metadata_map(body@) is Some),
        r matches Some(mm) ==> Some(mm@) == sp_metadata_map(body@),
{
    let v = crate::strnum::str_chars(body);
    proof {
        assert(v@ == body@);
    }
    let i0 = skip_ws(v.as_slice(), 0);
    if i0 >= v.len() || v[i0] != '{' {
        return None;
    }
    let k = skip_ws(v.as_slice(), i0 + 1);
    if k < v.len() && v[k] == '}' {
        let e2 = skip_ws(v.as_slice(), k + 1);
        if e2 == v.len() {
            Some(MetadataMap::new())
        } else {
            None
        }
    } else {
        match read_map_members(v.as_slice(), i0 + 1, MetadataMap::new(), v.len()) {
            Option::None => None,
            Option::Some((mm, e)) => {
                let e2 = skip_ws(v.as_slice(), e);
                if e2 == v.len() {
                    Some(mm)
                } else {
                    None
                }
            },
        }
    }
}

/// The JSON rendering of one character inside a string: quote and
/// backslash escaped, control characters in `\u00XX` form, everything
/// else itself.
pub open spec fn json_escape_char(c: char) -> Seq<char> {
    if c == '"' {
        seq!['\\', '"']
    } else if c == '\\' {
        seq!['\\', '\\']
    } else if (c as u32) < 0x20 {
        seq![
            '\\',
            'u',
            '0',
            '0',
            hex_digit(((c as u32) / 16) as int),
            hex_digit(((c as u32) % 16) as int),
        ]
    } else {
        seq![c]
    }
}

/// The JSON rendering of a string's characters, in order.
pub open spec fn json_escaped(t: Seq<char>) -> Seq<char>
    decreases t.len(),
{
    if t.len() == 0 {
        Seq::empty()
    } else {
        json_escaped(t.drop_last()) + json_escape_char(t.last())
    }
}

/// A JSON string literal: the escaped characters between quotes.
pub open spec fn json_quoted(t: Seq<char>) -> Seq<char> {
    seq!['"'] + json_escaped(t) + seq!['"']
}

/// The comma-joined renderings of the chunk names.
pub open spec fn render_chunk_items(cs: Seq<Seq<char>>) -> Seq<char>
    decreases cs.len(),
{
    if cs.len() == 0 {
        Seq::empty()
    } else if cs.len() == 1 {
        json_quoted(cs[0])
    } else {
        render_chunk_items(cs.drop_last()) + seq![','] + json_quoted(cs.last())
    }
}

/// The canonical rendering of one manifest: its three members in a fixed
/// order, compact.
pub open spec fn render_manifest_view(m: ManifestView) -> Seq<char> {
    "{\"key_base\":"@ + json_quoted(m.key_base) + ",\"chunks\":["@ + render_chunk_items(
        m.chunks,
    ) + "],\"timestamp\":"@ + dec_digits_signed(m.timestamp) + seq!['}']
}

/// The comma-joined renderings of the map entries.
pub open spec fn render_map_items(es: Seq<(Seq<char>, ManifestView)>) -> Seq<char>
    decreases es.len(),
{
    if es.len() == 0 {
        Seq::empty()
    } else if es.len() == 1 {
        json_quoted(es[0].0) + seq![':'] + render_manifest_view(es[0].1)
    } else {
        render_map_items(es.drop_last()) + seq![','] + json_quoted(es.last().0) + seq![':']
            + render_manifest_view(es.last().1)
    }
}

/// The canonical rendering of the whole metadata map.
pub open spec fn render_map_view(es: Seq<(Seq<char>, ManifestView)>) -> Seq<char> {
    seq!['{'] + render_map_items(es) + seq!['}']
}

/// Appends the JSON rendering of `t`'s characters to `out`.
fn push_json_escaped(out: &mut String, t: &str)
    ensures
        final(out)@ == old(out)@ + json_escaped(t@),
{
    let len = t.unicode_len();
    let mut i: usize = 0;
    while i < len
        invariant
            i <= len,
            len == t@.len(),
            out@ == old(out)@ + json_escaped(t@.take(i as int)),
        decreases len - i,
    {
        let c = t.get_char(i);
        proof {
            assert(t@.take(i + 1).drop_last() =~= t@.take(i as int));
            assert(t@.take(i + 1).last() == t@[i as int]);
        }
        if c == '"' {
            push_char(out, '\\');
            push_char(out, '"');
        } else if c == '\\' {
            push_char(out, '\\');
            push_char(out, '\\');
        } else if (c as u32) < 0x20 {
            push_char(out, '\\');
            push_char(out, 'u');
            push_char(out, '0');
            push_char(out, '0');
            push_char(out, crate::strnum::hex_digit_char(((c as u32) / 16) as u8));
            push_char(out, crate::strnum::hex_digit_char(((c as u32) % 16) as u8));
        } else {
            push_char(out, c);
        }
        assert(out@ =~= old(out)@ + json_escaped(t@.take(i + 1)));
        i = i + 1;
    }
    proof {
        assert(t@.take(t@.len() as int) =~= t@);
    }
}

/// Appends the JSON string literal for `t` to `out`.
fn push_json_quoted(out: &mut String, t: &str)
    ensures
        final(out)@ == old(out)@ + json_quoted(t@),
{
    push_char(out, '"');
    push_json_escaped(out, t);
    push_char(out, '"');
    assert(out@ =~= old(out)@ + json_quoted(t@));
}

/// Renders one manifest in the canonical form.
pub fn render_manifest(m: &SnapshotMetadata) -> (r: String)
    ensures
        r@ == render_manifest_view(m@),
{
    let mut out = String::new();
    push_manifest(&mut out, m);
    assert(out@ =~= render_manifest_view(m@));
    out
}

/// Appends the canonical rendering of one manifest to `out`.
fn push_manifest(out: &mut String, m: &SnapshotMetadata)
    ensures
        final(out)@ == old(out)@ + render_manifest_view(m@),
{
    out.append("{\"key_base\":");
    push_json_quoted(out, m.key_base.as_str());
    out.append(",\"chunks\":[");
    let ghost cs = m@.chunks;
    let mut i: usize = 0;
    while i < m.chunks.len()
        invariant
            i <= m.chunks@.len(),
            cs == strings_view(m.chunks@),
            cs.len() == m.chunks@.len(),
            out@ == old(out)@ + "{\"key_base\":"@ + json_quoted(m@.key_base)
                + ",\"chunks\":["@ + render_chunk_items(cs.take(i as int)),
        decreases m.chunks@.len() - i,
    {
        if i > 0 {
            push_char(out, ',');
        }
        push_json_quoted(out, m.chunks[i].as_str());
        proof {
            assert(cs.take(i + 1).drop_last() =~= cs.take(i as int));
            assert(cs.take(i + 1).last() == cs[i as int]);
            assert(cs[i as int] == m.chunks@[i as int]@);
        }
        assert(out@ =~= old(out)@ + "{\"key_base\":"@ + json_quoted(m@.key_base)
            + ",\"chunks\":["@ + render_chunk_items(cs.take(i + 1)));
        i = i + 1;
    }
    proof {
        assert(cs.take(cs.len() as int) =~= cs);
    }
    out.append("],\"timestamp\":");
    push_dec_i64(out, m.timestamp);
    push_char(out, '}');
    assert(out@ =~= old(out)@ + render_manifest_view(m@));
}

/// Renders the whole metadata map in the canonical form.
pub fn render_metadata_map(mm: &MetadataMap) -> (r: String)
    ensures
        r@ == render_map_view(mm@),
{
    let mut out = String::new();
    push_char(&mut out, '{');
    let ghost es = mm@;
    let mut i: usize = 0;
    while i < mm.entries.len()
        invariant
            i <= mm.entries@.len(),
            es == mm@,
            es.len() == mm.entries@.len(),
            out@ == seq!['{'] + render_map_items(es.take(i as int)),
        decreases mm.entries@.len() - i,
    {
        if i > 0 {
            push_char(&mut out, ',');
        }
        push_json_quoted(&mut out, mm.entries[i].0.as_str());
        push_char(&mut out, ':');
        push_manifest(&mut out, &mm.entries[i].1);
        proof {
            assert(es.take(i + 1).drop_last() =~= es.take(i as int));
            assert(es.take(i + 1).last() == es[i as int]);
            assert(es[i as int] == (mm.entries@[i as int].0@, mm.entries@[i as int].1@));
        }
        assert(out@ =~= seq!['{'] + render_map_items(es.take(i + 1)));
        i = i + 1;
    }
    proof {
        assert(es.take(es.len() as int) =~= es);
    }
    push_char(&mut out, '}');
    assert(out@ =~= render_map_view(mm@));
    out
}

/// Interprets the remote's answer to a manifest fetch, as the metadata
/// service owes it: 404 is a missing snapshot (`NotFound`), any other
/// non-success status a `DownloadFailed`, a body that does not parse as
/// a manifest with a non-empty chunk list an `InvalidFormat`, and the
/// rest a usable manifest. No retry happens at this layer: the chunk
/// list cannot be assumed after any failure.
pub fn interpret_metadata_response(status: u16, body: &str, metadata_url: &str) -> (r: Result<
    SnapshotMetadata,
    SnapshotError,
>)
    ensures
        status == 404 ==> (r matches Err(e) && e is NotFound),
        (status < 200 || status >= 300) && status != 404 ==> (r matches Err(e)
            && e is DownloadFailed),
        200 <= status < 300 ==> (match sp_manifest(body@) {
            Option::None => r matches Err(e) && e is InvalidFormat,
            Option::Some(m) => {
                if m.chunks.len() == 0 {
                    r matches Err(e) && e is InvalidFormat
                } else {
                    r matches Ok(md) && md@ == m && md.wf()
                }
            },
        }),
{
    if status == 404 {
        let mut msg = String::from_str("snapshot not found: the manifest URL returned 404: ");
        msg.append(metadata_url);
        msg.append(
            "; the shard may not exist for this network, the snapshot may not have been created yet, or the URL may be wrong",
        );
        return Err(SnapshotError::NotFound(msg));
    }
    if status < 200 || status >= 300 {
        let mut msg = String::from_str("failed to fetch the manifest from ");
        msg.append(metadata_url);
        msg.append(": HTTP ");
        push_dec_u64(&mut msg, status as u64);
        return Err(SnapshotError::DownloadFailed(msg));
    }
    match parse_manifest(body) {
        Option::None => {
            let mut msg = String::from_str("invalid manifest from ");
            msg.append(metadata_url);
            msg.append(": expected JSON with fields: key_base, chunks, timestamp");
            Err(SnapshotError::InvalidFormat(msg))
        },
        Option::Some(md) => {
            if md.chunks.len() == 0 {
                let mut msg = String::from_str("invalid manifest from ");
                msg.append(metadata_url);
                msg.append(": chunks must not be empty");
                Err(SnapshotError::InvalidFormat(msg))
            } else {
                Ok(md)
            }
        },
    }
}

} // verus!
