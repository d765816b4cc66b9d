use flate2::write::GzEncoder;
use flate2::Compression;
use snapsync::error::SnapshotError;
use snapsync::gzip::gunzip;
use snapsync::merge::merge_buffers;
use std::io::Write;

fn gz(data: &[u8]) -> Vec<u8> {
    let mut enc = GzEncoder::new(Vec::new(), Compression::default());
    enc.write_all(data).unwrap();
    enc.finish().unwrap()
}

#[test]
fn gunzip_restores_the_bytes() {
    let original = b"some archive slice".to_vec();
    let compressed = gz(&original);
    assert_ne!(compressed, original);
    assert_eq!(gunzip(&compressed).unwrap(), original);
}

#[test]
fn gunzip_rejects_garbage() {
    assert!(gunzip(&[0x12, 0x34, 0x56]).is_err());
}

#[test]
fn merge_output_is_identical_for_every_window_size() {
    let c1 = b"first slice ".to_vec();
    let c2 = b"second slice ".to_vec();
    let c3 = b"third slice".to_vec();
    let chunks = vec![gz(&c1), gz(&c2), gz(&c3)];
    let mut expected = Vec::new();
    expected.extend_from_slice(&c1);
    expected.extend_from_slice(&c2);
    expected.extend_from_slice(&c3);

    let out1 = merge_buffers(&chunks, 1).unwrap();
    let out2 = merge_buffers(&chunks, 2).unwrap();
    let out3 = merge_buffers(&chunks, 3).unwrap();
    let out8 = merge_buffers(&chunks, 8).unwrap();
    assert_eq!(out1, expected);
    assert_eq!(out2, out1);
    assert_eq!(out3, out1);
    assert_eq!(out8, out1);
}

#[test]
fn merge_of_no_chunks_is_empty() {
    let chunks: Vec<Vec<u8>> = Vec::new();
    assert_eq!(merge_buffers(&chunks, 4).unwrap(), Vec::<u8>::new());
}

#[test]
fn merge_fails_on_a_corrupt_chunk() {
    let chunks = vec![gz(b"ok"), vec![0xde, 0xad], gz(b"never reached")];
    match merge_buffers(&chunks, 2) {
        Err(SnapshotError::Io(_)) => {}
        other => panic!("expected an I/O error, got {:?}", other.map(|v| v.len())),
    }
}
