use snapsync::error::SnapshotError;
use snapsync::metadata::{
    interpret_metadata_response, parse_manifest, parse_metadata_map, render_manifest,
    render_metadata_map, MetadataMap,
};
use snapsync::types::SnapshotMetadata;

fn sample() -> SnapshotMetadata {
    SnapshotMetadata {
        key_base: "net/0".to_string(),
        chunks: vec!["a.gz".to_string(), "b.gz".to_string()],
        timestamp: 1000,
    }
}

#[test]
fn parses_a_plain_manifest() {
    let m = parse_manifest(
        "{\"key_base\":\"net/0\",\"chunks\":[\"a.gz\",\"b.gz\"],\"timestamp\":1000}",
    )
    .unwrap();
    assert_eq!(m.key_base, "net/0");
    assert_eq!(m.chunks, vec!["a.gz".to_string(), "b.gz".to_string()]);
    assert_eq!(m.timestamp, 1000);
}

#[test]
fn parses_whitespace_and_any_member_order() {
    let m = parse_manifest(
        " {\n  \"timestamp\" : -5 ,\n  \"chunks\" : [ \"x\" ] ,\n  \"key_base\" : \"k\"\n } ",
    )
    .unwrap();
    assert_eq!(m.key_base, "k");
    assert_eq!(m.chunks, vec!["x".to_string()]);
    assert_eq!(m.timestamp, -5);
}

#[test]
fn skips_unknown_members() {
    let m = parse_manifest(
        "{\"note\":{\"nested\":[1,2,{\"a\":null}]},\"key_base\":\"k\",\"extra\":true,\
         \"chunks\":[\"c\"],\"n\":1.5e3,\"timestamp\":7}",
    )
    .unwrap();
    assert_eq!(m.key_base, "k");
    assert_eq!(m.timestamp, 7);
}

#[test]
fn decodes_string_escapes() {
    let m = parse_manifest(
        "{\"key_base\":\"a\\\"b\\\\c\\u0041\\n\",\"chunks\":[\"\\uD83D\\uDE00\"],\"timestamp\":0}",
    )
    .unwrap();
    assert_eq!(m.key_base, "a\"b\\cA\n");
    assert_eq!(m.chunks, vec!["\u{1F600}".to_string()]);
}

#[test]
fn rejects_malformed_manifests() {
    // Not JSON at all.
    assert!(parse_manifest("nonsense").is_none());
    // Missing a member.
    assert!(parse_manifest("{\"key_base\":\"k\",\"chunks\":[\"c\"]}").is_none());
    // A repeated member.
    assert!(parse_manifest(
        "{\"key_base\":\"k\",\"key_base\":\"k2\",\"chunks\":[\"c\"],\"timestamp\":1}"
    )
    .is_none());
    // A fractional timestamp.
    assert!(parse_manifest("{\"key_base\":\"k\",\"chunks\":[\"c\"],\"timestamp\":1.5}").is_none());
    // A leading zero.
    assert!(parse_manifest("{\"key_base\":\"k\",\"chunks\":[\"c\"],\"timestamp\":01}").is_none());
    // A timestamp out of the 64-bit range.
    assert!(parse_manifest(
        "{\"key_base\":\"k\",\"chunks\":[\"c\"],\"timestamp\":9223372036854775808}"
    )
    .is_none());
    // Trailing content.
    assert!(parse_manifest("{\"key_base\":\"k\",\"chunks\":[\"c\"],\"timestamp\":1}x").is_none());
    // A lone surrogate escape.
    assert!(parse_manifest("{\"key_base\":\"\\uD83D\",\"chunks\":[\"c\"],\"timestamp\":1}")
        .is_none());
}

#[test]
fn timestamp_bounds_parse_exactly() {
    let m = parse_manifest(
        "{\"key_base\":\"k\",\"chunks\":[\"c\"],\"timestamp\":9223372036854775807}",
    )
    .unwrap();
    assert_eq!(m.timestamp, i64::MAX);
    let m2 = parse_manifest(
        "{\"key_base\":\"k\",\"chunks\":[\"c\"],\"timestamp\":-9223372036854775808}",
    )
    .unwrap();
    assert_eq!(m2.timestamp, i64::MIN);
}

#[test]
fn manifest_round_trips_through_the_renderer() {
    let m = sample();
    let text = render_manifest(&m);
    assert_eq!(text, "{\"key_base\":\"net/0\",\"chunks\":[\"a.gz\",\"b.gz\"],\"timestamp\":1000}");
    let back = parse_manifest(&text).unwrap();
    assert_eq!(back.key_base, m.key_base);
    assert_eq!(back.chunks, m.chunks);
    assert_eq!(back.timestamp, m.timestamp);
}

#[test]
fn manifest_with_escapes_round_trips() {
    let m = SnapshotMetadata {
        key_base: "a\"b\\c\n\u{1}".to_string(),
        chunks: vec!["x\ty".to_string()],
        timestamp: -42,
    };
    let text = render_manifest(&m);
    let back = parse_manifest(&text).unwrap();
    assert_eq!(back.key_base, m.key_base);
    assert_eq!(back.chunks, m.chunks);
    assert_eq!(back.timestamp, m.timestamp);
}

#[test]
fn map_round_trips_preserving_order() {
    let mut mm = MetadataMap::new();
    mm.insert("1".to_string(), sample());
    mm.insert(
        "0".to_string(),
        SnapshotMetadata {
            key_base: "net/1".to_string(),
            chunks: vec!["z.gz".to_string()],
            timestamp: 2,
        },
    );
    let text = render_metadata_map(&mm);
    let back = parse_metadata_map(&text).unwrap();
    assert_eq!(back.entries.len(), 2);
    assert_eq!(back.entries[0].0, "1");
    assert_eq!(back.entries[0].1.chunks, vec!["a.gz".to_string(), "b.gz".to_string()]);
    assert_eq!(back.entries[1].0, "0");
    assert_eq!(back.entries[1].1.key_base, "net/1");
}

#[test]
fn empty_map_round_trips() {
    let mm = MetadataMap::new();
    let text = render_metadata_map(&mm);
    assert_eq!(text, "{}");
    let back = parse_metadata_map(&text).unwrap();
    assert_eq!(back.entries.len(), 0);
}

#[test]
fn map_lookup_and_coverage() {
    let mut mm = MetadataMap::new();
    mm.insert("0".to_string(), sample());
    assert!(mm.contains_key("0"));
    assert!(!mm.contains_key("1"));
    assert_eq!(mm.get_shard(0).unwrap().key_base, "net/0");
    assert!(mm.get_shard(1).is_none());
    assert!(mm.has_all_shards(&vec![0]));
    assert!(!mm.has_all_shards(&vec![0, 1]));
    assert!(mm.all_wf());
}

#[test]
fn map_rejects_duplicate_shard_keys() {
    let text = "{\"0\":{\"key_base\":\"k\",\"chunks\":[\"c\"],\"timestamp\":1},\
                \"0\":{\"key_base\":\"k2\",\"chunks\":[\"d\"],\"timestamp\":2}}";
    assert!(parse_metadata_map(text).is_none());
}

#[test]
fn response_interpretation() {
    let good = "{\"key_base\":\"net/0\",\"chunks\":[\"a.gz\"],\"timestamp\":1}";
    match interpret_metadata_response(200, good, "https://cdn/net/0/latest.json") {
        Ok(m) => assert_eq!(m.key_base, "net/0"),
        Err(_) => panic!("a good manifest must resolve"),
    }
    assert!(matches!(
        interpret_metadata_response(404, "", "u"),
        Err(SnapshotError::NotFound(_))
    ));
    assert!(matches!(
        interpret_metadata_response(500, "", "u"),
        Err(SnapshotError::DownloadFailed(_))
    ));
    assert!(matches!(
        interpret_metadata_response(200, "not json", "u"),
        Err(SnapshotError::InvalidFormat(_))
    ));
    let empty = "{\"key_base\":\"net/0\",\"chunks\":[],\"timestamp\":1}";
    assert!(matches!(
        interpret_metadata_response(200, empty, "u"),
        Err(SnapshotError::InvalidFormat(_))
    ));
    // 2xx other than 200 still succeeds.
    assert!(interpret_metadata_response(204, good, "u").is_ok());
}
