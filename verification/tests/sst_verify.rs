use snapsync::sst_verify::verify_sst_magic_number;
use snapsync::ROCKSDB_MAGIC_NUMBER;

#[test]
fn test_magic_number_constant() {
    // Verify the magic number constant matches the decimal value
    assert_eq!(ROCKSDB_MAGIC_NUMBER, 9863518390377041911);
}

#[test]
fn genuine_footer_is_valid() {
    let tail = ROCKSDB_MAGIC_NUMBER.to_le_bytes();
    assert!(verify_sst_magic_number(&tail));
}

#[test]
fn altered_footer_is_invalid() {
    let mut tail = ROCKSDB_MAGIC_NUMBER.to_le_bytes();
    for i in 0..8 {
        tail[i] ^= 0x01;
        assert!(!verify_sst_magic_number(&tail));
        tail[i] ^= 0x01;
    }
    // An arbitrary different value is rejected too.
    let other = 0x0123456789abcdefu64.to_le_bytes();
    assert!(!verify_sst_magic_number(&other));
}

#[test]
fn short_file_is_invalid() {
    assert!(!verify_sst_magic_number(&[]));
    assert!(!verify_sst_magic_number(&[0xf7]));
    let seven = &ROCKSDB_MAGIC_NUMBER.to_le_bytes()[0..7];
    assert!(!verify_sst_magic_number(seven));
}

#[test]
fn nine_byte_tail_is_invalid() {
    let mut nine = vec![0u8];
    nine.extend_from_slice(&ROCKSDB_MAGIC_NUMBER.to_le_bytes());
    assert!(!verify_sst_magic_number(&nine));
}
