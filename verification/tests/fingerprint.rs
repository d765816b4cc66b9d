use snapsync::md5sum::{md5_hex_of_bytes, Md5Stream};
use snapsync::verify::{digest_matches, evaluate_head, verify_precheck, HeadInfo, HeadVerdict, PrecheckOutcome};

#[test]
fn precheck_missing_file_downloads() {
    assert_eq!(verify_precheck(false, false), PrecheckOutcome::Download);
    assert_eq!(verify_precheck(false, true), PrecheckOutcome::Download);
}

#[test]
fn precheck_skip_verify_trusts_without_remote_request() {
    // With verification skipped an existing file is trusted outright,
    // whatever its content, and no metadata-only request is called for.
    assert_eq!(verify_precheck(true, true), PrecheckOutcome::Trust);
    assert_ne!(verify_precheck(true, true), PrecheckOutcome::CheckRemote);
    assert_ne!(verify_precheck(false, true), PrecheckOutcome::CheckRemote);
}

#[test]
fn precheck_otherwise_compares_remote() {
    assert_eq!(verify_precheck(true, false), PrecheckOutcome::CheckRemote);
}

#[test]
fn head_failure_is_stale() {
    assert!(matches!(evaluate_head(100, None), HeadVerdict::Stale));
}

#[test]
fn head_without_length_is_stale() {
    let h = HeadInfo { content_length: None, etag: Some("\"abc\"".to_string()) };
    assert!(matches!(evaluate_head(100, Some(&h)), HeadVerdict::Stale));
}

#[test]
fn head_size_mismatch_is_stale() {
    let h = HeadInfo { content_length: Some(101), etag: None };
    assert!(matches!(evaluate_head(100, Some(&h)), HeadVerdict::Stale));
}

#[test]
fn head_size_match_without_etag_is_fresh() {
    let h = HeadInfo { content_length: Some(100), etag: None };
    assert!(matches!(evaluate_head(100, Some(&h)), HeadVerdict::Fresh));
}

#[test]
fn head_multipart_etag_is_fresh_on_size_match() {
    let h = HeadInfo { content_length: Some(100), etag: Some("\"abc123-2\"".to_string()) };
    assert!(matches!(evaluate_head(100, Some(&h)), HeadVerdict::Fresh));
}

#[test]
fn head_simple_etag_demands_digest() {
    let h = HeadInfo {
        content_length: Some(3),
        etag: Some("\"900150983cd24fb0d6963f7d28e17f72\"".to_string()),
    };
    match evaluate_head(3, Some(&h)) {
        HeadVerdict::CheckDigest(tag) => {
            assert_eq!(tag, "900150983cd24fb0d6963f7d28e17f72");
        }
        _ => panic!("expected a digest check"),
    }
}

#[test]
fn md5_of_known_inputs() {
    // These would fail if the digest wrapper handed its input back.
    assert_eq!(md5_hex_of_bytes(b""), "d41d8cd98f00b204e9800998ecf8427e");
    assert_eq!(md5_hex_of_bytes(b"abc"), "900150983cd24fb0d6963f7d28e17f72");
    assert_eq!(
        md5_hex_of_bytes(b"The quick brown fox jumps over the lazy dog"),
        "9e107d9d372bb6826bd81d3542a419d6"
    );
}

#[test]
fn md5_streamed_in_blocks_equals_one_shot() {
    let data: Vec<u8> = (0u32..100_000).map(|i| (i % 251) as u8).collect();
    let mut h = Md5Stream::new();
    for block in data.chunks(1024) {
        h.update(block);
    }
    assert_eq!(h.finalize_hex(), md5_hex_of_bytes(&data));
}

#[test]
fn accepted_file_with_simple_etag_has_matching_md5() {
    // A file the verifier accepts under a non-multipart entity tag has a
    // local MD5 equal to that tag: walk the verifier's own steps.
    let body = b"abc";
    let etag = "\"900150983cd24fb0d6963f7d28e17f72\"";
    let h = HeadInfo { content_length: Some(body.len() as u64), etag: Some(etag.to_string()) };
    match evaluate_head(body.len() as u64, Some(&h)) {
        HeadVerdict::CheckDigest(tag) => {
            let local = md5_hex_of_bytes(body);
            assert!(digest_matches(&local, &tag));
            assert_eq!(local, tag);
        }
        _ => panic!("expected a digest check"),
    }
}

#[test]
fn corrupted_then_repaired_file_verifies_again() {
    let etag = "900150983cd24fb0d6963f7d28e17f72";
    let corrupt = md5_hex_of_bytes(b"abX");
    assert!(!digest_matches(&corrupt, etag));
    let repaired = md5_hex_of_bytes(b"abc");
    assert!(digest_matches(&repaired, etag));
}
