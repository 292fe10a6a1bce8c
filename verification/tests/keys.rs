use pallet::db::{decode_key, encode_key, KEY_LEN};

#[test]
fn key_is_the_identifier_least_significant_byte_first() {
    assert_eq!(encode_key(0), vec![0, 0, 0, 0, 0, 0, 0, 0]);
    assert_eq!(encode_key(1), vec![1, 0, 0, 0, 0, 0, 0, 0]);
    assert_eq!(encode_key(0x0102_0304_0506_0708), vec![8, 7, 6, 5, 4, 3, 2, 1]);
    assert_eq!(encode_key(u64::MAX), vec![255; 8]);
    assert_eq!(encode_key(256).len(), KEY_LEN);
}

#[test]
fn key_decodes_to_its_identifier() {
    assert_eq!(decode_key(&[8, 7, 6, 5, 4, 3, 2, 1]), Some(0x0102_0304_0506_0708));
    assert_eq!(decode_key(&[0, 1, 0, 0, 0, 0, 0, 0]), Some(256));
    for id in [0u64, 1, 255, 256, 65_535, 1 << 40, u64::MAX - 1, u64::MAX] {
        assert_eq!(decode_key(&encode_key(id)), Some(id));
    }
}

#[test]
fn key_of_another_length_decodes_to_nothing() {
    assert_eq!(decode_key(&[]), None);
    assert_eq!(decode_key(&[1, 2, 3]), None);
    assert_eq!(decode_key(&[0; 7]), None);
    assert_eq!(decode_key(&[0; 9]), None);
}
