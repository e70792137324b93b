use transfer_codec::blob;
use transfer_codec::DecodeError;
use transfer_codec::DerivationInfo;

fn prefixed(data: &[u8]) -> Vec<u8> {
    let mut out = Vec::new();
    blob::encode_to(&mut out, data);
    out
}

#[test]
fn one_byte_prefix_up_to_63() {
    let data = vec![7u8; 63];
    let encoded = prefixed(&data);
    assert_eq!(encoded.len(), 1 + 63);
    assert_eq!(encoded[0], 63);
    let (decoded, used) = blob::decode(&encoded, 0).unwrap();
    assert_eq!(used, encoded.len());
    assert_eq!(decoded, data);
}

#[test]
fn two_byte_prefix_from_64() {
    let data = vec![8u8; 64];
    let encoded = prefixed(&data);
    assert_eq!(encoded.len(), 2 + 64);
    assert_eq!(&encoded[..2], &[0x40, 0x40]);
    let (decoded, used) = blob::decode(&encoded, 0).unwrap();
    assert_eq!(used, encoded.len());
    assert_eq!(decoded, data);
}

#[test]
fn two_byte_prefix_top_of_range() {
    let data = vec![9u8; 0x3FFF];
    let encoded = prefixed(&data);
    assert_eq!(&encoded[..2], &[0x7F, 0xFF]);
    let (decoded, used) = blob::decode(&encoded, 0).unwrap();
    assert_eq!(used, encoded.len());
    assert_eq!(decoded.len(), 0x3FFF);
}

#[test]
fn four_byte_prefix_from_16384() {
    let data = vec![1u8; 0x4000];
    let encoded = prefixed(&data);
    assert_eq!(encoded.len(), 4 + 0x4000);
    assert_eq!(&encoded[..4], &[0x80, 0x00, 0x40, 0x00]);
    let (decoded, used) = blob::decode(&encoded, 0).unwrap();
    assert_eq!(used, encoded.len());
    assert_eq!(decoded.len(), 0x4000);
}

#[test]
fn widest_prefix_decodes() {
    // the widest mode declares the count in four further bytes
    let mut bytes = vec![0xC0, 0, 0, 0, 5];
    bytes.extend([1, 2, 3, 4, 5]);
    let (decoded, used) = blob::decode(&bytes, 0).unwrap();
    assert_eq!(used, 10);
    assert_eq!(decoded, vec![1, 2, 3, 4, 5]);
}

#[test]
fn widest_prefix_with_low_bits_set_is_rejected() {
    let bytes = vec![0xC1, 0, 0, 0, 5, 1, 2, 3, 4, 5];
    assert_eq!(
        blob::decode(&bytes, 0).unwrap_err(),
        DecodeError::UnknownDiscriminant
    );
    assert_eq!(
        blob::decode(&[0xFF, 0], 0).unwrap_err(),
        DecodeError::UnknownDiscriminant
    );
}

#[test]
fn cut_off_prefix_is_truncated() {
    assert_eq!(
        blob::decode(&[0x40], 0).unwrap_err(),
        DecodeError::TruncatedInput
    );
    assert_eq!(
        blob::decode(&[0x80, 0, 0], 0).unwrap_err(),
        DecodeError::TruncatedInput
    );
    assert_eq!(
        blob::decode(&[0xC0, 0, 0, 0], 0).unwrap_err(),
        DecodeError::TruncatedInput
    );
    assert_eq!(blob::decode(&[], 0).unwrap_err(), DecodeError::TruncatedInput);
}

#[test]
fn declared_count_short_of_bytes_is_truncated() {
    assert_eq!(
        blob::decode(&[3, 1, 2], 0).unwrap_err(),
        DecodeError::TruncatedInput
    );
}

#[test]
fn wide_prefix_for_small_count_still_decodes() {
    // a two-byte prefix declaring a count below 64 is wasteful but readable
    let bytes = vec![0x40, 5, 1, 2, 3, 4, 5];
    let (decoded, used) = blob::decode(&bytes, 0).unwrap();
    assert_eq!(used, 7);
    assert_eq!(decoded, vec![1, 2, 3, 4, 5]);
}

#[test]
fn non_ascii_path_round_trip() {
    let original = DerivationInfo {
        cut_path: String::from("//p\u{00e4}ss//\u{65e5}\u{672c}"),
        has_pwd: true,
    };
    let encoded = original.encode();
    let (decoded, used) = DerivationInfo::decode(&encoded, 0).unwrap();
    assert_eq!(used, encoded.len());
    assert_eq!(decoded.cut_path, original.cut_path);
    assert!(decoded.has_pwd);
}
