use snapsync::humanize::humanize_bytes;
use snapsync::paths::{
    chunk_local_path, chunk_remote_url, extract_shard_id, metadata_file_path, metadata_path,
    metadata_url, shard_dir, tar_entry_path, tar_path,
};
use snapsync::strnum::{parse_u32, str_trim_quotes, to_hex_lower, u64_to_dec_string};

#[test]
fn decimal_rendering() {
    assert_eq!(u64_to_dec_string(0), "0");
    assert_eq!(u64_to_dec_string(7), "7");
    assert_eq!(u64_to_dec_string(1024), "1024");
    assert_eq!(u64_to_dec_string(u64::MAX), "18446744073709551615");
}

#[test]
fn hex_rendering() {
    assert_eq!(to_hex_lower(&[]), "");
    assert_eq!(to_hex_lower(&[0x00, 0xff, 0x1a]), "00ff1a");
    assert_eq!(to_hex_lower(&[0xde, 0xad, 0xbe, 0xef]), "deadbeef");
}

#[test]
fn u32_numerals() {
    let chars: Vec<char> = "123".chars().collect();
    assert_eq!(parse_u32(&chars), Some(123));
    let plus: Vec<char> = "+42".chars().collect();
    assert_eq!(parse_u32(&plus), Some(42));
    let empty: Vec<char> = Vec::new();
    assert_eq!(parse_u32(&empty), None);
    let bad: Vec<char> = "12a".chars().collect();
    assert_eq!(parse_u32(&bad), None);
    let over: Vec<char> = "4294967296".chars().collect();
    assert_eq!(parse_u32(&over), None);
    let max: Vec<char> = "4294967295".chars().collect();
    assert_eq!(parse_u32(&max), Some(u32::MAX));
}

#[test]
fn quote_trimming() {
    assert_eq!(str_trim_quotes("\"abc\""), "abc");
    assert_eq!(str_trim_quotes("abc"), "abc");
    assert_eq!(str_trim_quotes("\"\"a\"\""), "a");
    assert_eq!(str_trim_quotes("\"\""), "");
}

#[test]
fn derived_paths() {
    assert_eq!(metadata_path("NET", 0), "NET/0/latest.json");
    assert_eq!(metadata_path("NET", 12), "NET/12/latest.json");
    assert_eq!(
        metadata_url("https://cdn.example", "NET", 3),
        "https://cdn.example/NET/3/latest.json"
    );
    assert_eq!(shard_dir(".work", 2), ".work/shard-2");
    assert_eq!(chunk_local_path(".work", 2, "chunk_7.gz"), ".work/shard-2/chunk_7.gz");
    assert_eq!(
        chunk_remote_url("https://cdn.example", "net/0", "chunk_7.gz"),
        "https://cdn.example/net/0/chunk_7.gz"
    );
    assert_eq!(tar_path(".work", 2), ".work/shard_2_snapshot.tar");
    assert_eq!(metadata_file_path(".work"), ".work/metadata.json");
    assert_eq!(tar_entry_path(2, "000042.sst"), "shard-2/000042.sst");
}

#[test]
fn shard_id_extraction() {
    assert_eq!(extract_shard_id(".rocks/shard-2/000042.sst"), Some(2));
    assert_eq!(extract_shard_id("/path/to/.rocks/shard-0/MANIFEST-000005"), Some(0));
    assert_eq!(extract_shard_id("invalid/path.sst"), None);
    assert_eq!(extract_shard_id("shard-15"), Some(15));
    assert_eq!(extract_shard_id("shard-x/file"), None);
    assert_eq!(extract_shard_id("ashard-3/file"), None);
    assert_eq!(extract_shard_id(""), None);
}

#[test]
fn humanized_sizes() {
    assert_eq!(humanize_bytes(0), "0 B");
    assert_eq!(humanize_bytes(512), "512 B");
    assert_eq!(humanize_bytes(1023), "1023 B");
    assert_eq!(humanize_bytes(1024), "1.00 KB");
    assert_eq!(humanize_bytes(1536), "1.50 KB");
    assert_eq!(humanize_bytes(1048576), "1.00 MB");
    assert_eq!(humanize_bytes(2544768574), "2.37 GB");
    assert_eq!(humanize_bytes(1099511627776), "1.00 TB");
}
