use snapsync::extract::{
    file_is_sst, needs_magic_check, should_extract_file, verify_file_in_tar, ExtractStats,
    TarCompareResult,
};

#[test]
fn table_file_names() {
    assert!(file_is_sst("000042.sst"));
    assert!(!file_is_sst("MANIFEST-000005"));
    assert!(!file_is_sst("sst"));
    assert!(!file_is_sst("000042.sst.bak"));
}

#[test]
fn magic_check_only_for_matching_table_files() {
    assert!(needs_magic_check("a.sst", 10, Some(10)));
    assert!(!needs_magic_check("a.sst", 10, Some(11)));
    assert!(!needs_magic_check("a.sst", 10, None));
    assert!(!needs_magic_check("a.log", 10, Some(10)));
}

#[test]
fn missing_or_mismatched_files_are_extracted() {
    assert!(should_extract_file("a.log", 10, None, true));
    assert!(should_extract_file("a.log", 10, Some(11), true));
    assert!(should_extract_file("a.sst", 10, None, false));
    assert!(should_extract_file("a.sst", 10, Some(9), true));
}

#[test]
fn size_match_suffices_for_ordinary_files() {
    assert!(!should_extract_file("a.log", 10, Some(10), false));
    assert!(!should_extract_file("a.log", 10, Some(10), true));
}

#[test]
fn corrupt_table_files_are_re_extracted() {
    assert!(should_extract_file("a.sst", 10, Some(10), false));
    assert!(!should_extract_file("a.sst", 10, Some(10), true));
}

#[test]
fn second_run_skips_every_restored_file() {
    // After a successful pass every file entry stands at its declared
    // size and every restored table file passes its own magic check, so
    // a second pass skips them all: the skip count equals the file count.
    let entries = [
        ("000001.sst", 1000u64, true),
        ("000002.sst", 2000, true),
        ("MANIFEST-000005", 300, false),
        ("CURRENT", 16, false),
    ];
    let mut stats = ExtractStats::new();
    for (name, size, is_sst) in entries {
        let magic_ok = if is_sst { true } else { false };
        let extract = should_extract_file(name, size, Some(size), is_sst && magic_ok);
        assert!(!extract);
        stats.record_file(extract);
    }
    assert_eq!(stats.total, entries.len() as u64);
    assert_eq!(stats.skipped, stats.total);
    assert_eq!(stats.extracted, 0);
}

#[test]
fn counters_track_entries() {
    let mut stats = ExtractStats::new();
    stats.record_dir();
    stats.record_file(true);
    stats.record_file(false);
    stats.record_file(true);
    assert_eq!(stats.total, 4);
    assert_eq!(stats.extracted, 2);
    assert_eq!(stats.skipped, 1);
}

#[test]
fn tar_comparison_finds_the_entry() {
    let entries = vec![
        ("shard-2/000041.sst".to_string(), 500u64),
        ("shard-2/000042.sst".to_string(), 700),
    ];
    assert_eq!(verify_file_in_tar(&entries, "shard-2/000042.sst", 700), TarCompareResult::Match);
    assert_eq!(
        verify_file_in_tar(&entries, "shard-2/000042.sst", 699),
        TarCompareResult::SizeMismatch(700)
    );
    assert_eq!(
        verify_file_in_tar(&entries, "shard-2/000043.sst", 700),
        TarCompareResult::NotFound
    );
}

#[test]
fn tar_comparison_uses_the_first_match() {
    let entries = vec![
        ("shard-0/f".to_string(), 10u64),
        ("shard-0/f".to_string(), 20),
    ];
    assert_eq!(verify_file_in_tar(&entries, "shard-0/f", 10), TarCompareResult::Match);
    assert_eq!(verify_file_in_tar(&entries, "shard-0/f", 20), TarCompareResult::SizeMismatch(10));
}
