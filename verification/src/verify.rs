//! The fingerprint verifier: decides whether a local file already matches
//! a remote object without re-downloading it.
//!
//! The caller performs the file-system probe and the metadata-only remote
//! request, and computes the local digest through [`crate::md5sum`]; the
//! decisions between those steps live here. A size check is the fast
//! filter; the MD5 comparison is the source of truth and is skipped only
//! when structurally impossible (a multipart entity tag) or explicitly
//! disabled.

use crate::strnum::{contains_char, str_contains_char, str_eq, str_trim_quotes, trim_quotes};
use vstd::prelude::*;

verus! {

/// What a metadata-only remote request reported: the declared content
/// length and the entity tag, either of which the remote may omit. The
/// entity tag is kept as received, quotes included.
#[derive(Debug, Clone)]
pub struct HeadInfo {
    /// The declared size of the remote object.
    pub content_length: Option<u64>,
    /// The entity tag header, verbatim.
    pub etag: Option<String>,
}

/// Whether a trimmed entity tag denotes a multi-part upload, whose content
/// hash cannot be computed from the tag format.
pub open spec fn is_multipart(tag: Seq<char>) -> bool {
    contains_char(tag, '-')
}

/// The first decision of the verifier, before any remote traffic.
#[derive(Debug, Clone, Copy, PartialEq, Eq, Structural)]
pub enum PrecheckOutcome {
    /// The local file is absent: it must be downloaded.
    Download,
    /// Verification is skipped: the existing file is trusted outright.
    Trust,
    /// The file exists and must be compared against the remote.
    CheckRemote,
}

/// The precheck: an absent file is always downloaded; with verification
/// skipped an existing file is trusted with no further checks.
pub open spec fn precheck_spec(exists: bool, skip_verify: bool) -> PrecheckOutcome {
    if !exists {
        PrecheckOutcome::Download
    } else if skip_verify {
        PrecheckOutcome::Trust
    } else {
        PrecheckOutcome::CheckRemote
    }
}

/// Decides from the file's existence and the configuration whether to
/// download, trust, or compare against the remote.
pub fn verify_precheck(exists: bool, skip_verify: bool) -> (r: PrecheckOutcome)
    ensures
        r == precheck_spec(exists, skip_verify),
{
    if !exists {
        PrecheckOutcome::Download
    } else if skip_verify {
        PrecheckOutcome::Trust
    } else {
        PrecheckOutcome::CheckRemote
    }
}

/// With verification skipped, an existing file is reported valid whatever
/// its content, and the verifier never asks for a remote request: the
/// precheck never answers `CheckRemote`.
pub proof fn lemma_skip_verify_trusts(exists: bool)
    ensures
        exists ==> precheck_spec(exists, true) == PrecheckOutcome::Trust,
        precheck_spec(exists, true) != PrecheckOutcome::CheckRemote,
{
}

/// Whether the whole verifier accepts a local file, given what the remote
/// request reported and the local file's MD5 in lower-case hexadecimal.
/// `head` is `None` when the request failed or reported a non-success
/// status.
pub open spec fn fingerprint_accepts(
    local_size: u64,
    head: Option<HeadInfo>,
    local_md5: Seq<char>,
) -> bool {
    match head {
        Option::None => false,
        Option::Some(h) => match h.content_length {
            Option::None => false,
            Option::Some(cl) => cl == local_size && match h.etag {
                Option::None => true,
                Option::Some(e) => {
                    let tag = trim_quotes(e@);
                    is_multipart(tag) || local_md5 == tag
                },
            },
        },
    }
}

/// The verdict after the metadata-only remote request.
pub enum HeadVerdict {
    /// The file must be re-downloaded: the request failed, the remote
    /// declared no length, or the sizes differ.
    Stale,
    /// The file is accepted without a digest: sizes match and the remote
    /// tag is absent or multipart.
    Fresh,
    /// Sizes match and the tag (carried here, trimmed of quotes) is a
    /// remote MD5 digest the local file must be compared against.
    CheckDigest(String),
}

/// Decides from the remote report whether the file is stale, fresh, or in
/// need of a digest comparison. The three ensures tie each verdict to
/// [`fingerprint_accepts`]: a `Stale` file is never accepted, a `Fresh`
/// one always, and for `CheckDigest` acceptance is exactly an MD5 match.
pub fn evaluate_head(local_size: u64, head: Option<&HeadInfo>) -> (r: HeadVerdict)
    ensures
        r is Stale ==> forall|md5: Seq<char>|
            !fingerprint_accepts(local_size, deref_head(head), md5),
        r is Fresh ==> forall|md5: Seq<char>|
            fingerprint_accepts(local_size, deref_head(head), md5),
        r matches HeadVerdict::CheckDigest(tag) ==> {
            &&& deref_head(head) matches Option::Some(h)
            &&& h.etag matches Option::Some(e)
            &&& tag@ == trim_quotes(e@)
            &&& !is_multipart(tag@)
            &&& forall|md5: Seq<char>|
                fingerprint_accepts(local_size, deref_head(head), md5) == (md5 == tag@)
        },
{
    match head {
        Option::None => HeadVerdict::Stale,
        Option::Some(h) => {
            match &h.content_length {
                Option::None => HeadVerdict::Stale,
                Option::Some(cl) => {
                    if *cl != local_size {
                        HeadVerdict::Stale
                    } else {
                        match &h.etag {
                            Option::None => HeadVerdict::Fresh,
                            Option::Some(e) => {
                                let tag = str_trim_quotes(e.as_str());
                                if str_contains_char(tag.as_str(), '-') {
                                    HeadVerdict::Fresh
                                } else {
                                    HeadVerdict::CheckDigest(tag)
                                }
                            },
                        }
                    }
                },
            }
        },
    }
}

/// The reference passed to [`evaluate_head`], seen as the owned value the
/// specifications speak of.
pub open spec fn deref_head(head: Option<&HeadInfo>) -> Option<HeadInfo> {
    match head {
        Option::None => Option::None,
        Option::Some(h) => Option::Some(*h),
    }
}

/// Compares the locally computed digest against the remote tag, both in
/// lower-case hexadecimal.
pub fn digest_matches(local_md5: &str, tag: &str) -> (r: bool)
    ensures
        r == (local_md5@ == tag@),
{
    str_eq(local_md5, tag)
}

/// Any file the verifier accepts under a present, non-multipart entity
/// tag has a local MD5 equal to that tag: acceptance on that path goes
/// through the digest comparison and nothing else.
pub proof fn lemma_accepted_md5_equals_etag(
    local_size: u64,
    h: HeadInfo,
    local_md5: Seq<char>,
)
    requires
        h.etag is Some,
        !is_multipart(trim_quotes(h.etag->0@)),
        fingerprint_accepts(local_size, Option::Some(h), local_md5),
    ensures
        local_md5 == trim_quotes(h.etag->0@),
{
}

} // verus!
