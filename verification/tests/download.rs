use snapsync::download::{
    chunk_paths_in_order, chunk_urls_in_order, downloaded_file_check, must_delete_file,
    retry_decision, DownloadVerdict, MAX_DOWNLOAD_ATTEMPTS, RETRY_DELAY_MS,
};

#[test]
fn size_mismatch_is_rejected_first() {
    let etag = "\"00000000000000000000000000000000\"".to_string();
    let md5 = "ffffffffffffffffffffffffffffffff".to_string();
    let v = downloaded_file_check(99, Some(100), Some(&etag), Some(&md5));
    assert_eq!(v, DownloadVerdict::SizeMismatch);
    assert!(!must_delete_file(&v));
}

#[test]
fn digest_mismatch_deletes_the_file() {
    let etag = "\"00000000000000000000000000000000\"".to_string();
    let md5 = "ffffffffffffffffffffffffffffffff".to_string();
    let v = downloaded_file_check(100, Some(100), Some(&etag), Some(&md5));
    assert_eq!(v, DownloadVerdict::DigestMismatch);
    assert!(must_delete_file(&v));
}

#[test]
fn matching_download_is_accepted() {
    let etag = "\"abcdef0123456789abcdef0123456789\"".to_string();
    let md5 = "abcdef0123456789abcdef0123456789".to_string();
    let v = downloaded_file_check(100, Some(100), Some(&etag), Some(&md5));
    assert_eq!(v, DownloadVerdict::Accept);
}

#[test]
fn multipart_etag_skips_the_digest() {
    let etag = "\"abcdef-3\"".to_string();
    let md5 = "ffffffffffffffffffffffffffffffff".to_string();
    let v = downloaded_file_check(100, Some(100), Some(&etag), Some(&md5));
    assert_eq!(v, DownloadVerdict::Accept);
}

#[test]
fn missing_content_length_is_noted_not_fatal() {
    let v = downloaded_file_check(100, None, None, None);
    assert_eq!(v, DownloadVerdict::AcceptUnverifiedLength);
    assert!(!must_delete_file(&v));
    // The digest is still checked when a tag is present.
    let etag = "\"00000000000000000000000000000000\"".to_string();
    let md5 = "ffffffffffffffffffffffffffffffff".to_string();
    let v2 = downloaded_file_check(100, None, Some(&etag), Some(&md5));
    assert_eq!(v2, DownloadVerdict::DigestMismatch);
}

#[test]
fn retry_budget_is_five_attempts_ten_seconds_apart() {
    assert_eq!(MAX_DOWNLOAD_ATTEMPTS, 5);
    assert_eq!(RETRY_DELAY_MS, 10_000);
    for failures in 1..5u64 {
        assert_eq!(retry_decision(failures), Some(10_000));
    }
    assert_eq!(retry_decision(5), None);
    assert_eq!(retry_decision(6), None);
}

#[test]
fn chunk_lists_keep_manifest_order() {
    let chunks = vec!["c.gz".to_string(), "a.gz".to_string(), "b.gz".to_string()];
    let paths = chunk_paths_in_order(".work", 4, &chunks);
    assert_eq!(
        paths,
        vec![
            ".work/shard-4/c.gz".to_string(),
            ".work/shard-4/a.gz".to_string(),
            ".work/shard-4/b.gz".to_string(),
        ]
    );
    let urls = chunk_urls_in_order("https://cdn", "net/4", &chunks);
    assert_eq!(
        urls,
        vec![
            "https://cdn/net/4/c.gz".to_string(),
            "https://cdn/net/4/a.gz".to_string(),
            "https://cdn/net/4/b.gz".to_string(),
        ]
    );
}
