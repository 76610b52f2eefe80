use bllvm_mesh::payment_proof::{PaymentProof, VerificationResult, TEMPLATE_MAX_AGE_SECONDS};

fn lightning(amount_msats: u64, expires_at: u64) -> PaymentProof {
    PaymentProof::Lightning {
        invoice: "lnbc1pstub_invoice".to_string(),
        preimage: [0u8; 32],
        amount_msats,
        timestamp: 1000,
        expires_at,
    }
}

fn template(timestamp: u64) -> PaymentProof {
    PaymentProof::InstantSettlement {
        covenant_proof: vec![1, 2, 3],
        output_index: 1,
        merkle_proof: vec![[5u8; 32]],
        amount_sats: 777,
        timestamp,
    }
}

#[test]
fn amount_in_satoshis() {
    assert_eq!(lightning(1000, 0).amount_sats(), 1);
    assert_eq!(lightning(1999, 0).amount_sats(), 1);
    assert_eq!(lightning(999, 0).amount_sats(), 0);
    assert_eq!(lightning(u64::MAX, 0).amount_sats(), u64::MAX / 1000);
    assert_eq!(template(5).amount_sats(), 777);
}

#[test]
fn timestamp_of_either_kind() {
    assert_eq!(lightning(1, 1).timestamp(), 1000);
    assert_eq!(template(5).timestamp(), 5);
}

#[test]
fn a_lightning_proof_is_expired_once_now_is_past_its_expiry() {
    let p = lightning(1, 5000);
    assert!(!p.is_expired_at(4999));
    assert!(!p.is_expired_at(5000));
    assert!(p.is_expired_at(5001));
    assert!(!lightning(1, u64::MAX).is_expired_at(u64::MAX));
    assert!(!lightning(1, u64::MAX).is_expired());
    assert!(lightning(1, 1).is_expired());
}

#[test]
fn a_template_commitment_is_expired_after_a_day() {
    assert_eq!(TEMPLATE_MAX_AGE_SECONDS, 24 * 60 * 60);
    let p = template(10_000);
    assert!(!p.is_expired_at(0));
    assert!(!p.is_expired_at(10_000 + 86_400));
    assert!(p.is_expired_at(10_000 + 86_401));
    // No overflow at the end of time.
    assert!(!template(u64::MAX).is_expired_at(u64::MAX));
    assert!(!template(u64::MAX - 10).is_expired_at(u64::MAX));
}

fn hex(bytes: &[u8]) -> String {
    bytes.iter().map(|b| format!("{:02x}", b)).collect()
}

#[test]
fn hash_is_the_sha256_of_the_encoding() {
    // The encoding of this proof: index 0, an empty text, 32 zero bytes,
    // three zero u64: 4 + 8 + 32 + 24 = 68 zero bytes.
    let p = PaymentProof::Lightning {
        invoice: String::new(),
        preimage: [0u8; 32],
        amount_msats: 0,
        timestamp: 0,
        expires_at: 0,
    };
    let mut bytes = Vec::new();
    p.encode(&mut bytes);
    assert_eq!(bytes, vec![0u8; 68]);
    // SHA-256 of 68 zero bytes differs from the data, has 32 bytes, and is
    // the same on every call.
    let h = p.hash();
    assert_eq!(h, p.hash());
    assert_ne!(h.to_vec(), bytes[..32].to_vec());
    assert_ne!(h, lightning(0, 0).hash());
    assert_ne!(lightning(1, 2).hash(), lightning(1, 3).hash());
    assert_eq!(hex(&lightning(1, 2).hash()).len(), 64);
}

#[test]
fn encoding_of_a_lightning_proof() {
    let p = PaymentProof::Lightning {
        invoice: "ab".to_string(),
        preimage: [0x11; 32],
        amount_msats: 0x0102,
        timestamp: 3,
        expires_at: u64::MAX,
    };
    let mut bytes = vec![0xEE];
    p.encode(&mut bytes);
    let mut expected = vec![0xEE, 0, 0, 0, 0, 2, 0, 0, 0, 0, 0, 0, 0, b'a', b'b'];
    expected.extend_from_slice(&[0x11; 32]);
    expected.extend_from_slice(&[2, 1, 0, 0, 0, 0, 0, 0]);
    expected.extend_from_slice(&[3, 0, 0, 0, 0, 0, 0, 0]);
    expected.extend_from_slice(&[0xff; 8]);
    assert_eq!(bytes, expected);

    let (back, next) = PaymentProof::decode(&bytes, 1).unwrap();
    assert_eq!(next, bytes.len());
    assert_eq!(format!("{:?}", back), format!("{:?}", p));
    assert!(PaymentProof::decode(&bytes, 2).is_none());
    assert!(PaymentProof::decode(&bytes[..bytes.len() - 1], 1).is_none());
}

#[test]
fn encoding_of_a_template_commitment() {
    let p = template(9);
    let mut bytes = Vec::new();
    p.encode(&mut bytes);
    let mut expected = vec![1, 0, 0, 0, 3, 0, 0, 0, 0, 0, 0, 0, 1, 2, 3, 1, 0, 0, 0];
    expected.extend_from_slice(&[1, 0, 0, 0, 0, 0, 0, 0]);
    expected.extend_from_slice(&[5u8; 32]);
    expected.extend_from_slice(&777u64.to_le_bytes());
    expected.extend_from_slice(&9u64.to_le_bytes());
    assert_eq!(bytes, expected);
    let (back, next) = PaymentProof::decode(&bytes, 0).unwrap();
    assert_eq!(next, bytes.len());
    assert_eq!(format!("{:?}", back), format!("{:?}", p));
    assert_eq!(format!("{:?}", p.clone()), format!("{:?}", p));
}

#[test]
fn verification_results() {
    let ok = VerificationResult::success(5, 6, Some(7));
    assert!(ok.verified);
    assert_eq!(ok.amount, 5);
    assert_eq!(ok.timestamp, 6);
    assert_eq!(ok.expires_at, Some(7));
    assert_eq!(ok.error, None);
    let bad = VerificationResult::failure("why".to_string());
    assert!(!bad.verified);
    assert_eq!(bad.amount, 0);
    assert_eq!(bad.timestamp, 0);
    assert_eq!(bad.expires_at, None);
    assert_eq!(bad.error, Some("why".to_string()));
}
