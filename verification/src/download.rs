//! Chunk download decisions: the per-chunk integrity epilogue, the retry
//! budget, and the ordered path and URL lists.
//!
//! The caller streams response bytes to disk while feeding the digest
//! through [`crate::md5sum::Md5Stream`]; when the stream ends it hands the
//! observed numbers here. The path list handed onward always reflects
//! manifest order, whatever order individual downloads complete in.

use crate::paths::{chunk_local_path, chunk_local_path_spec, chunk_remote_url, chunk_remote_url_spec};
use crate::strnum::{contains_char, str_contains_char, str_eq, str_trim_quotes, trim_quotes};
use crate::verify::is_multipart;
use vstd::prelude::*;

verus! {

/// The verdict on a completed chunk download.
#[derive(Debug, Clone, Copy, PartialEq, Eq, Structural)]
pub enum DownloadVerdict {
    /// Byte count and, where checkable, digest are right.
    Accept,
    /// Accepted, but the remote declared no content length, so the byte
    /// count could not be checked; worth a warning, not a failure.
    AcceptUnverifiedLength,
    /// The byte count differs from the declared content length.
    SizeMismatch,
    /// The computed digest differs from a non-multipart entity tag; the
    /// written file must be deleted so a later run cannot misidentify it
    /// as valid.
    DigestMismatch,
}

/// The view of an optional borrowed string.
pub open spec fn opt_str_view(s: Option<&String>) -> Option<Seq<char>> {
    match s {
        Option::None => Option::None,
        Option::Some(t) => Option::Some(t@),
    }
}

/// The verdict owed for a finished download: a declared length that
/// differs from the byte count is rejected first; otherwise a present,
/// non-multipart entity tag must equal the computed digest; what remains
/// is accepted, with a missing length only noted.
pub open spec fn download_verdict_spec(
    written: u64,
    content_length: Option<u64>,
    etag: Option<Seq<char>>,
    md5: Seq<char>,
) -> DownloadVerdict {
    if content_length matches Some(cl) && cl != written {
        DownloadVerdict::SizeMismatch
    } else if etag matches Some(e) && !is_multipart(trim_quotes(e)) && md5 != trim_quotes(e) {
        DownloadVerdict::DigestMismatch
    } else if content_length is None {
        DownloadVerdict::AcceptUnverifiedLength
    } else {
        DownloadVerdict::Accept
    }
}

/// Judges a finished download from the byte count written, the declared
/// content length, the raw entity tag of the response, and the digest
/// computed while streaming (`md5_hex` accompanies every present tag).
pub fn downloaded_file_check(
    written: u64,
    content_length: Option<u64>,
    etag: Option<&String>,
    md5_hex: Option<&String>,
) -> (r: DownloadVerdict)
    requires
        etag is Some ==> md5_hex is Some,
    ensures
        r == download_verdict_spec(
            written,
            content_length,
            opt_str_view(etag),
            match md5_hex {
                Option::None => Seq::<char>::empty(),
                Option::Some(m) => m@,
            },
        ),
{
    if let Option::Some(cl) = content_length {
        if cl != written {
            return DownloadVerdict::SizeMismatch;
        }
    }
    if let Option::Some(e) = etag {
        let tag = str_trim_quotes(e.as_str());
        if !str_contains_char(tag.as_str(), '-') {
            let md5 = match md5_hex {
                Option::Some(m) => m,
                Option::None => unreached(),
            };
            if !str_eq(md5.as_str(), tag.as_str()) {
                return DownloadVerdict::DigestMismatch;
            }
        }
    }
    match content_length {
        Option::None => DownloadVerdict::AcceptUnverifiedLength,
        Option::Some(_) => DownloadVerdict::Accept,
    }
}

/// Whether the verdict obliges the caller to delete the written file
/// before surfacing the failure.
pub fn must_delete_file(v: &DownloadVerdict) -> (r: bool)
    ensures
        r == (v is DigestMismatch),
{
    match v {
        DownloadVerdict::DigestMismatch => true,
        _ => false,
    }
}

/// How many download attempts a chunk is granted in all.
pub const MAX_DOWNLOAD_ATTEMPTS: u64 = 5;

/// The fixed spacing between attempts, in milliseconds.
pub const RETRY_DELAY_MS: u64 = 10000;

/// Decides, after `failed_attempts` failures, whether to try again: a
/// fixed 10-second delay before each retry, up to 5 attempts in all, then
/// the error surfaces as fatal for the whole run.
pub fn retry_decision(failed_attempts: u64) -> (r: Option<u64>)
    ensures
        failed_attempts < MAX_DOWNLOAD_ATTEMPTS ==> r == Some(RETRY_DELAY_MS),
        failed_attempts >= MAX_DOWNLOAD_ATTEMPTS ==> r is None,
{
    if failed_attempts < MAX_DOWNLOAD_ATTEMPTS {
        Some(RETRY_DELAY_MS)
    } else {
        None
    }
}

/// The local paths of a shard's chunks, in manifest order: the merge
/// stage's correctness depends on this order being preserved even though
/// downloads complete out of order.
pub fn chunk_paths_in_order(workdir: &str, shard_id: u32, chunks: &Vec<String>) -> (r: Vec<
    String,
>)
    ensures
        r@.len() == chunks@.len(),
        forall|i: int|
            0 <= i < chunks@.len() ==> #[trigger] r@[i]@ == chunk_local_path_spec(
                workdir@,
                shard_id,
                chunks@[i]@,
            ),
{
    let mut out: Vec<String> = Vec::new();
    let mut i: usize = 0;
    while i < chunks.len()
        invariant
            i <= chunks@.len(),
            out@.len() == i,
            forall|j: int|
                0 <= j < i ==> #[trigger] out@[j]@ == chunk_local_path_spec(
                    workdir@,
                    shard_id,
                    chunks@[j]@,
                ),
        decreases chunks@.len() - i,
    {
        out.push(chunk_local_path(workdir, shard_id, chunks[i].as_str()));
        i = i + 1;
    }
    out
}

/// The remote URLs of a shard's chunks, in manifest order.
pub fn chunk_urls_in_order(base: &str, key_base: &str, chunks: &Vec<String>) -> (r: Vec<String>)
    ensures
        r@.len() == chunks@.len(),
        forall|i: int|
            0 <= i < chunks@.len() ==> #[trigger] r@[i]@ == chunk_remote_url_spec(
                base@,
                key_base@,
                chunks@[i]@,
            ),
{
    let mut out: Vec<String> = Vec::new();
    let mut i: usize = 0;
    while i < chunks.len()
        invariant
            i <= chunks@.len(),
            out@.len() == i,
            forall|j: int|
                0 <= j < i ==> #[trigger] out@[j]@ == chunk_remote_url_spec(
                    base@,
                    key_base@,
                    chunks@[j]@,
                ),
        decreases chunks@.len() - i,
    {
        out.push(chunk_remote_url(base, key_base, chunks[i].as_str()));
        i = i + 1;
    }
    out
}

} // verus!
