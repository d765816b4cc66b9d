//! Derivation of remote paths, remote URLs and working-directory layout.
//!
//! Chunk files are a relation, not owned objects: a remote object name, a
//! derived local path and a derived remote URL, regenerated each run from
//! the manifest. Everything below states the derived strings exactly.

use crate::strnum::{
    chars_to_string, dec_digits, is_u32_numeral, parse_u32, push_dec_u64, str_chars,
    u32_numeral_value,
};
use vstd::prelude::*;

verus! {

/// The remote path of a shard's manifest: `<network>/<shardId>/latest.json`.
pub open spec fn metadata_path_spec(network: Seq<char>, shard_id: u32) -> Seq<char> {
    network + "/"@ + dec_digits(shard_id as int) + "/latest.json"@
}

/// Constructs the remote path to the manifest for a network and shard.
pub fn metadata_path(network: &str, shard_id: u32) -> (r: String)
    ensures
        r@ == metadata_path_spec(network@, shard_id),
{
    let mut out = String::new();
    out.append(network);
    out.append("/");
    push_dec_u64(&mut out, shard_id as u64);
    out.append("/latest.json");
    assert(out@ =~= metadata_path_spec(network@, shard_id));
    out
}

/// The full manifest URL: `<baseUrl>/<network>/<shardId>/latest.json`.
pub open spec fn metadata_url_spec(base: Seq<char>, network: Seq<char>, shard_id: u32) -> Seq<
    char,
> {
    base + "/"@ + metadata_path_spec(network, shard_id)
}

/// Constructs the URL the manifest is fetched from.
pub fn metadata_url(base: &str, network: &str, shard_id: u32) -> (r: String)
    ensures
        r@ == metadata_url_spec(base@, network@, shard_id),
{
    let mut out = String::new();
    out.append(base);
    out.append("/");
    let rest = metadata_path(network, shard_id);
    out.append(rest.as_str());
    assert(out@ =~= metadata_url_spec(base@, network@, shard_id));
    out
}

/// A shard's working subdirectory: `<workdir>/shard-<id>`.
pub open spec fn shard_dir_spec(workdir: Seq<char>, shard_id: u32) -> Seq<char> {
    workdir + "/shard-"@ + dec_digits(shard_id as int)
}

/// Constructs a shard's working subdirectory path.
pub fn shard_dir(workdir: &str, shard_id: u32) -> (r: String)
    ensures
        r@ == shard_dir_spec(workdir@, shard_id),
{
    let mut out = String::new();
    out.append(workdir);
    out.append("/shard-");
    push_dec_u64(&mut out, shard_id as u64);
    assert(out@ =~= shard_dir_spec(workdir@, shard_id));
    out
}

/// The local path of one chunk: `<workdir>/shard-<id>/<chunk>`.
pub open spec fn chunk_local_path_spec(workdir: Seq<char>, shard_id: u32, chunk: Seq<char>) -> Seq<
    char,
> {
    shard_dir_spec(workdir, shard_id) + "/"@ + chunk
}

/// Constructs the local path a chunk is downloaded to.
pub fn chunk_local_path(workdir: &str, shard_id: u32, chunk: &str) -> (r: String)
    ensures
        r@ == chunk_local_path_spec(workdir@, shard_id, chunk@),
{
    let mut out = shard_dir(workdir, shard_id);
    out.append("/");
    out.append(chunk);
    assert(out@ =~= chunk_local_path_spec(workdir@, shard_id, chunk@));
    out
}

/// The remote URL of one chunk: `<baseUrl>/<key_base>/<chunk>`.
pub open spec fn chunk_remote_url_spec(base: Seq<char>, key_base: Seq<char>, chunk: Seq<char>) -> Seq<
    char,
> {
    base + "/"@ + key_base + "/"@ + chunk
}

/// Constructs the URL a chunk is downloaded from.
pub fn chunk_remote_url(base: &str, key_base: &str, chunk: &str) -> (r: String)
    ensures
        r@ == chunk_remote_url_spec(base@, key_base@, chunk@),
{
    let mut out = String::new();
    out.append(base);
    out.append("/");
    out.append(key_base);
    out.append("/");
    out.append(chunk);
    assert(out@ =~= chunk_remote_url_spec(base@, key_base@, chunk@));
    out
}

/// A shard's merged archive: `<workdir>/shard_<id>_snapshot.tar`.
pub open spec fn tar_path_spec(workdir: Seq<char>, shard_id: u32) -> Seq<char> {
    workdir + "/shard_"@ + dec_digits(shard_id as int) + "_snapshot.tar"@
}

/// Constructs the path of a shard's merged archive.
pub fn tar_path(workdir: &str, shard_id: u32) -> (r: String)
    ensures
        r@ == tar_path_spec(workdir@, shard_id),
{
    let mut out = String::new();
    out.append(workdir);
    out.append("/shard_");
    push_dec_u64(&mut out, shard_id as u64);
    out.append("_snapshot.tar");
    assert(out@ =~= tar_path_spec(workdir@, shard_id));
    out
}

/// The persisted metadata file: `<workdir>/metadata.json`.
pub open spec fn metadata_file_path_spec(workdir: Seq<char>) -> Seq<char> {
    workdir + "/metadata.json"@
}

/// Constructs the path of the persisted metadata file.
pub fn metadata_file_path(workdir: &str) -> (r: String)
    ensures
        r@ == metadata_file_path_spec(workdir@),
{
    let mut out = String::new();
    out.append(workdir);
    out.append("/metadata.json");
    assert(out@ =~= metadata_file_path_spec(workdir@));
    out
}

/// The path of a file inside a shard's archive: `shard-<id>/<filename>`.
pub open spec fn tar_entry_path_spec(shard_id: u32, filename: Seq<char>) -> Seq<char> {
    "shard-"@ + dec_digits(shard_id as int) + "/"@ + filename
}

/// Constructs the archive-internal path a restored file is compared
/// against.
pub fn tar_entry_path(shard_id: u32, filename: &str) -> (r: String)
    ensures
        r@ == tar_entry_path_spec(shard_id, filename@),
{
    let mut out = String::new();
    out.append("shard-");
    push_dec_u64(&mut out, shard_id as u64);
    out.append("/");
    out.append(filename);
    assert(out@ =~= tar_entry_path_spec(shard_id, filename@));
    out
}

/// The position of the first '/' in `s`, or `s.len()` when there is none.
pub open spec fn first_slash(s: Seq<char>) -> int
    decreases s.len(),
{
    if s.len() == 0 {
        0
    } else if s[0] == '/' {
        0
    } else {
        1 + first_slash(s.skip(1))
    }
}

/// `first_slash` points at the first slash: nothing before it is a slash,
/// and it is a slash unless the string holds none.
pub proof fn lemma_first_slash(s: Seq<char>)
    ensures
        0 <= first_slash(s) <= s.len(),
        forall|j: int| 0 <= j < first_slash(s) ==> s[j] != '/',
        first_slash(s) < s.len() ==> s[first_slash(s)] == '/',
    decreases s.len(),
{
    if s.len() == 0 || s[0] == '/' {
    } else {
        lemma_first_slash(s.skip(1));
        assert forall|j: int| 0 <= j < first_slash(s) implies s[j] != '/' by {
            if j > 0 {
                assert(s.skip(1)[j - 1] != '/');
            }
        }
        if first_slash(s) < s.len() {
            assert(s.skip(1)[first_slash(s) - 1] == '/');
        }
    }
}

/// The position of the first slash is determined by what is seen: if no
/// slash stands before `m`, and `m` is a slash or the end, then `m` is it.
pub proof fn lemma_first_slash_at(s: Seq<char>, m: int)
    requires
        0 <= m <= s.len(),
        forall|j: int| 0 <= j < m ==> s[j] != '/',
        m < s.len() ==> s[m] == '/',
    ensures
        first_slash(s) == m,
    decreases s.len(),
{
    if s.len() == 0 || s[0] == '/' {
    } else {
        lemma_first_slash_at(s.skip(1), m - 1);
    }
}

/// The shard id carried by one path component: `Some(n)` exactly when the
/// component is `shard-` followed by a numeral that parses as a `u32`.
pub open spec fn shard_component_id(comp: Seq<char>) -> Option<u32> {
    if comp.len() >= 6 && comp.take(6) == "shard-"@ && is_u32_numeral(comp.skip(6)) {
        Some(u32_numeral_value(comp.skip(6)) as u32)
    } else {
        None
    }
}

/// The shard id of a path: the id of the first '/'-separated component of
/// the form `shard-<n>`, or `None` when no component has that form.
pub open spec fn shard_id_of_path(s: Seq<char>) -> Option<u32>
    decreases s.len(),
    via shard_id_of_path_decreases
{
    let k = first_slash(s);
    let comp = s.take(k);
    if shard_component_id(comp) is Some {
        shard_component_id(comp)
    } else if k >= s.len() {
        None
    } else {
        shard_id_of_path(s.skip(k + 1))
    }
}

#[via_fn]
proof fn shard_id_of_path_decreases(s: Seq<char>) {
    lemma_first_slash(s);
}

/// Scans the components of `v` from `start` for the first of the form
/// `shard-<n>`.
fn scan_shard_id(v: &[char], start: usize) -> (r: Option<u32>)
    requires
        start <= v@.len(),
    ensures
        r == shard_id_of_path(v@.skip(start as int)),
    decreases v@.len() - start,
{
    let ghost s = v@.skip(start as int);
    // Find the end of the current component.
    let mut k: usize = start;
    while k < v.len() && v[k] != '/'
        invariant
            start <= k <= v@.len(),
            s == v@.skip(start as int),
            forall|j: int| start <= j < k ==> v@[j] != '/',
        decreases v@.len() - k,
    {
        k = k + 1;
    }
    proof {
        assert forall|j: int| 0 <= j < k - start implies s[j] != '/' by {
            assert(s[j] == v@[start + j]);
        }
        if k < v@.len() {
            assert(s[k - start] == v@[k as int]);
        }
        lemma_first_slash_at(s, k - start);
        assert(v@.subrange(start as int, k as int) =~= s.take(k - start));
    }
    // Does the component carry a shard id?
    let comp: &[char] = &v[start..k];
    let mut id: Option<u32> = None;
    if k - start >= 6 {
        if comp[0] == 's' && comp[1] == 'h' && comp[2] == 'a' && comp[3] == 'r' && comp[4] == 'd'
            && comp[5] == '-' {
            proof {
                reveal_strlit("shard-");
                assert(comp@.take(6) =~= "shard-"@);
            }
            let num: &[char] = &comp[6..comp.len()];
            proof {
                assert(num@ =~= comp@.skip(6));
            }
            id = parse_u32(num);
        } else {
            proof {
                reveal_strlit("shard-");
                assert(comp@.take(6) != "shard-"@) by {
                    if comp@.take(6) == "shard-"@ {
                        assert(comp@.take(6)[0] == 's' && comp@.take(6)[1] == 'h' && comp@.take(6)[2]
                            == 'a' && comp@.take(6)[3] == 'r' && comp@.take(6)[4] == 'd'
                            && comp@.take(6)[5] == '-');
                    }
                }
            }
        }
    }
    match id {
        Some(n) => Some(n),
        None => {
            assert(shard_component_id(s.take(first_slash(s))) is None);
            if k == v.len() {
                None
            } else {
                let rec = scan_shard_id(v, k + 1);
                proof {
                    assert(v@.skip(k + 1) =~= s.skip(k - start + 1));
                }
                rec
            }
        },
    }
}

/// Extracts a shard id from a file path by looking for a `shard-<n>`
/// component, as in `.rocks/shard-2/000042.sst`.
pub fn extract_shard_id(path: &str) -> (r: Option<u32>)
    ensures
        r == shard_id_of_path(path@),
{
    let v = str_chars(path);
    let rec = scan_shard_id(v.as_slice(), 0);
    proof {
        assert(v@.skip(0) =~= path@);
    }
    rec
}

} // verus!
