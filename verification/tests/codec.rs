use transfer_codec::Bytes;
use transfer_codec::DecodeError;
use transfer_codec::DerivationInfo;
use transfer_codec::Encryption;
use transfer_codec::MultiSigner;
use transfer_codec::Transaction;
use transfer_codec::TransferData;
use transfer_codec::TransmittableContent;

fn signer_eq(a: &MultiSigner, b: &MultiSigner) -> bool {
    match (a, b) {
        (MultiSigner::Ed25519(x), MultiSigner::Ed25519(y)) => x == y,
        (MultiSigner::Sr25519(x), MultiSigner::Sr25519(y)) => x == y,
        (MultiSigner::Ecdsa(x), MultiSigner::Ecdsa(y)) => x == y,
        _ => false,
    }
}

#[test]
fn decode_encryption() {
    assert_eq!(Encryption::decode(&[0], 0).unwrap().0, Encryption::Ed25519);
    assert_eq!(Encryption::decode(&[1], 0).unwrap().0, Encryption::Sr25519);
    assert_eq!(Encryption::decode(&[2], 0).unwrap().0, Encryption::Ecdsa);
    assert!(Encryption::decode(&[3], 0).is_err());
}

#[test]
fn encryption_tag_three_is_unknown_discriminant() {
    assert_eq!(
        Encryption::decode(&[3], 0).unwrap_err(),
        DecodeError::UnknownDiscriminant
    );
    assert_eq!(
        Encryption::decode(&[255], 0).unwrap_err(),
        DecodeError::UnknownDiscriminant
    );
}

#[test]
fn encryption_empty_input_is_truncated() {
    assert_eq!(
        Encryption::decode(&[], 0).unwrap_err(),
        DecodeError::TruncatedInput
    );
}

#[test]
fn encryption_encodes_as_its_tag() {
    assert_eq!(Encryption::Ed25519.encode(), vec![0]);
    assert_eq!(Encryption::Sr25519.encode(), vec![1]);
    assert_eq!(Encryption::Ecdsa.encode(), vec![2]);
}

#[test]
fn scheme_table_values() {
    assert_eq!(Encryption::Ed25519.key_length(), 32);
    assert_eq!(Encryption::Sr25519.key_length(), 32);
    assert_eq!(Encryption::Ecdsa.key_length(), 33);
    assert_eq!(Encryption::Ed25519.signature_length(), 64);
    assert_eq!(Encryption::Sr25519.signature_length(), 64);
    assert_eq!(Encryption::Ecdsa.signature_length(), 65);
}

#[test]
fn scheme_table_is_constant_across_calls() {
    for scheme in [Encryption::Ed25519, Encryption::Sr25519, Encryption::Ecdsa] {
        let k1 = scheme.key_length();
        let k2 = scheme.key_length();
        let s1 = scheme.signature_length();
        let s2 = scheme.signature_length();
        assert_eq!(k1, k2);
        assert_eq!(s1, s2);
    }
}

#[test]
fn scheme_names() {
    assert_eq!(Encryption::Ed25519.name(), "Ed25519");
    assert_eq!(Encryption::Sr25519.name(), "Sr25519");
    assert_eq!(Encryption::Ecdsa.name(), "Ecdsa");
}

#[test]
fn signer_encoded_lengths() {
    let ed = MultiSigner::Ed25519(vec![7; 32]);
    assert_eq!(ed.encode().len(), 1 + 32);
    let ecdsa = MultiSigner::Ecdsa(vec![9; 33]);
    assert_eq!(ecdsa.encode().len(), 1 + 33);
}

#[test]
fn signer_round_trip() {
    let key: Vec<u8> = (0..32).collect();
    let original = MultiSigner::Sr25519(key);
    let encoded = original.encode();
    let (decoded, used) = MultiSigner::decode(&encoded, 0).unwrap();
    assert_eq!(used, encoded.len());
    assert!(signer_eq(&decoded, &original));
}

#[test]
fn signer_key_is_cut_to_scheme_length() {
    // an Ecdsa signer consumes 33 key bytes, one more than an Ed25519 one
    let mut bytes = vec![2u8];
    bytes.extend((0..40).map(|i| i as u8));
    let (decoded, used) = MultiSigner::decode(&bytes, 0).unwrap();
    assert_eq!(used, 34);
    match decoded {
        MultiSigner::Ecdsa(k) => assert_eq!(k, (0..33).map(|i| i as u8).collect::<Vec<u8>>()),
        _ => panic!("wrong variant"),
    }
}

#[test]
fn signer_truncated_key_fails() {
    let bytes = vec![0u8; 20];
    assert_eq!(
        MultiSigner::decode(&bytes, 0).unwrap_err(),
        DecodeError::TruncatedInput
    );
}

#[test]
fn signer_unknown_tag_fails() {
    let bytes = vec![4u8; 40];
    assert_eq!(
        MultiSigner::decode(&bytes, 0).unwrap_err(),
        DecodeError::UnknownDiscriminant
    );
}

#[test]
fn stop_encodes_as_one_zero_byte() {
    let stop = TransmittableContent::KampelaStop;
    assert_eq!(stop.encode(), vec![0]);
    let decoded = TransmittableContent::decode_all(&[0]).unwrap();
    assert!(matches!(decoded, TransmittableContent::KampelaStop));
    let (_, used) = TransmittableContent::decode(&[0], 0).unwrap();
    assert_eq!(used, 1);
}

#[test]
fn derivation_request_scenario() {
    let request = TransmittableContent::Derivation(DerivationInfo {
        cut_path: String::from("//0"),
        has_pwd: true,
    });
    assert_eq!(request.encode(), vec![2, 3, 0x2f, 0x2f, 0x30, 1]);
}

#[test]
fn derivation_round_trip() {
    let original = DerivationInfo {
        cut_path: String::from("//alice/soft"),
        has_pwd: false,
    };
    let encoded = original.encode();
    let (decoded, used) = DerivationInfo::decode(&encoded, 0).unwrap();
    assert_eq!(used, encoded.len());
    assert_eq!(decoded.cut_path, "//alice/soft");
    assert!(!decoded.has_pwd);
}

#[test]
fn derivation_empty_path_round_trip() {
    let original = DerivationInfo {
        cut_path: String::new(),
        has_pwd: true,
    };
    let encoded = original.encode();
    assert_eq!(encoded, vec![0, 1]);
    let (decoded, used) = DerivationInfo::decode(&encoded, 0).unwrap();
    assert_eq!(used, 2);
    assert_eq!(decoded.cut_path, "");
    assert!(decoded.has_pwd);
}

#[test]
fn derivation_invalid_utf8_is_malformed_text() {
    // declared length 1, one byte that no UTF-8 text starts with, then a flag
    let bytes = vec![1, 0xFF, 0];
    assert_eq!(
        DerivationInfo::decode(&bytes, 0).unwrap_err(),
        DecodeError::MalformedText
    );
}

#[test]
fn derivation_flag_byte_above_one_fails() {
    let bytes = vec![0, 2];
    assert_eq!(
        DerivationInfo::decode(&bytes, 0).unwrap_err(),
        DecodeError::UnknownDiscriminant
    );
}

#[test]
fn derivation_missing_flag_is_truncated() {
    let bytes = vec![0];
    assert_eq!(
        DerivationInfo::decode(&bytes, 0).unwrap_err(),
        DecodeError::TruncatedInput
    );
}

#[test]
fn bytes_round_trip() {
    let original = Bytes {
        bytes_uncut: vec![1, 2, 3, 4, 5],
        signer: MultiSigner::Ed25519(vec![8; 32]),
    };
    let encoded = original.encode();
    let (decoded, used) = Bytes::decode(&encoded, 0).unwrap();
    assert_eq!(used, encoded.len());
    assert_eq!(decoded.bytes_uncut, original.bytes_uncut);
    assert!(signer_eq(&decoded.signer, &original.signer));
}

#[test]
fn declared_length_beyond_buffer_is_truncated() {
    // a blob declaring 8 bytes with only 2 present
    let bytes = vec![1, 8, 1, 2];
    assert_eq!(
        TransmittableContent::decode(&bytes, 0).unwrap_err(),
        DecodeError::TruncatedInput
    );
    let envelope_bytes = vec![4, 1];
    assert_eq!(
        TransferData::decode(&envelope_bytes, 0).unwrap_err(),
        DecodeError::TruncatedInput
    );
}

#[test]
fn content_unknown_tag_fails() {
    assert_eq!(
        TransmittableContent::decode(&[9], 0).unwrap_err(),
        DecodeError::UnknownDiscriminant
    );
    assert_eq!(
        TransmittableContent::decode(&[4, 0], 0).unwrap_err(),
        DecodeError::UnknownDiscriminant
    );
}

#[test]
fn trailing_bytes_rejected_by_strict_decode() {
    assert_eq!(
        TransmittableContent::decode_all(&[0, 0]).unwrap_err(),
        DecodeError::TrailingBytes
    );
    // three empty fields, then one byte too many
    assert_eq!(
        TransferData::decode_all(&[0, 0, 0, 7]).unwrap_err(),
        DecodeError::TrailingBytes
    );
}

#[test]
fn transaction_round_trip() {
    let original = Transaction {
        genesis_hash: (0..32).collect(),
        encoded_short_meta: vec![10, 11, 12],
        encoded_signable_transaction: vec![13; 100],
        signer: MultiSigner::Ecdsa(vec![5; 33]),
    };
    let encoded = TransmittableContent::SignableTransaction(original).encode();
    assert_eq!(encoded[0], 3);
    let decoded = TransmittableContent::decode_all(&encoded).unwrap();
    match decoded {
        TransmittableContent::SignableTransaction(t) => {
            assert_eq!(t.genesis_hash, (0..32).collect::<Vec<u8>>());
            assert_eq!(t.encoded_short_meta, vec![10, 11, 12]);
            assert_eq!(t.encoded_signable_transaction, vec![13; 100]);
            assert!(signer_eq(&t.signer, &MultiSigner::Ecdsa(vec![5; 33])));
        }
        _ => panic!("wrong variant"),
    }
}

#[test]
fn transaction_short_genesis_hash_is_truncated() {
    let bytes = vec![3, 1, 2, 3];
    assert_eq!(
        TransmittableContent::decode(&bytes, 0).unwrap_err(),
        DecodeError::TruncatedInput
    );
}

#[test]
fn transfer_data_round_trip() {
    let original = TransferData {
        encoded_data: vec![0, 1, 2, 3],
        companion_signature: vec![9; 64],
        companion_public_key: vec![6; 32],
    };
    let encoded = original.encode();
    let decoded = TransferData::decode_all(&encoded).unwrap();
    assert_eq!(decoded.encoded_data, original.encoded_data);
    assert_eq!(decoded.companion_signature, original.companion_signature);
    assert_eq!(decoded.companion_public_key, original.companion_public_key);
}

#[test]
fn transfer_data_empty_fields_round_trip() {
    let original = TransferData {
        encoded_data: vec![],
        companion_signature: vec![],
        companion_public_key: vec![],
    };
    let encoded = original.encode();
    assert_eq!(encoded, vec![0, 0, 0]);
    let decoded = TransferData::decode_all(&encoded).unwrap();
    assert!(decoded.encoded_data.is_empty());
    assert!(decoded.companion_signature.is_empty());
    assert!(decoded.companion_public_key.is_empty());
}

#[test]
fn key_matches_scheme_checks_length() {
    let envelope = TransferData {
        encoded_data: vec![],
        companion_signature: vec![],
        companion_public_key: vec![1; 33],
    };
    assert!(envelope.key_matches_scheme(Encryption::Ecdsa));
    assert!(!envelope.key_matches_scheme(Encryption::Ed25519));
}
