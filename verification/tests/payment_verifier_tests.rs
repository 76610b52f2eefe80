use bitcoin_hashes::sha256;
use bllvm_mesh::invoice::{amount_is_bounded, read_invoice, InvoiceFacts};
use bllvm_mesh::payment_proof::PaymentProof;
use bllvm_mesh::payment_verifier::{
    judge_lightning, judge_template, payment_state_id, CovenantReading, PaymentVerifier,
};
use lightning::ln::PaymentSecret;
use lightning_invoice::{Currency, InvoiceBuilder};
use secp256k1::{Secp256k1, SecretKey};
use std::time::Duration;

fn invoice_for(preimage: &[u8; 32], amount_msats: Option<u64>) -> String {
    let private_key = SecretKey::from_slice(&[
        0xe1, 0x26, 0xf6, 0x8f, 0x7e, 0xaf, 0xcc, 0x8b, 0x74, 0xf5, 0x4d, 0x26, 0x9f, 0xe2, 0x06,
        0xbe, 0x71, 0x50, 0x00, 0xf9, 0x4d, 0xac, 0x06, 0x7d, 0x1c, 0x04, 0xa8, 0xca, 0x3b, 0x2d,
        0xb7, 0x34,
    ])
    .unwrap();
    let builder = InvoiceBuilder::new(Currency::Bitcoin)
        .description("mesh".to_string())
        .payment_hash(bitcoin_hashes::Hash::hash(preimage))
        .payment_secret(PaymentSecret([42u8; 32]))
        .duration_since_epoch(Duration::from_secs(1_700_000_000))
        .min_final_cltv_expiry_delta(144);
    let builder = match amount_msats {
        Some(a) => builder.amount_milli_satoshis(a),
        None => builder,
    };
    builder
        .build_signed(|hash| Secp256k1::new().sign_ecdsa_recoverable(hash, &private_key))
        .unwrap()
        .to_string()
}

fn sha256_of(data: &[u8]) -> [u8; 32] {
    let digest: sha256::Hash = bitcoin_hashes::Hash::hash(data);
    bitcoin_hashes::Hash::into_inner(digest)
}

fn now() -> u64 {
    std::time::SystemTime::now().duration_since(std::time::UNIX_EPOCH).unwrap().as_secs()
}

#[test]
fn test_payment_verifier_creation() {
    let verifier = PaymentVerifier::new();
    // Verifier should be created successfully
    assert!(verifier.check_minimum_payment(1, 1)); // Basic creation test
}

#[test]
fn test_expired_payment_proof() {
    let verifier = PaymentVerifier::new();

    // Create an expired payment proof
    let expired_timestamp = now() - 3600; // 1 hour ago

    let proof = PaymentProof::Lightning {
        invoice: "lnbc1pstub_invoice".to_string(),
        preimage: [0u8; 32],
        amount_msats: 1000,
        timestamp: expired_timestamp,
        expires_at: expired_timestamp - 100, // Already expired
    };

    let verification = verifier.verify(&proof, &CovenantReading::Unread);
    assert!(!verification.verified);
    assert!(verification.error.is_some());
    assert_eq!(verification.error, Some("Payment proof expired".to_string()));
}

#[test]
fn reads_the_facts_of_an_invoice() {
    let preimage = [7u8; 32];
    let text = invoice_for(&preimage, Some(250_000));
    assert!(text.starts_with("lnbc2500n1"));
    let facts = read_invoice(&text).unwrap();
    assert_eq!(facts.payment_hash, sha256_of(&preimage));
    assert_eq!(facts.amount_msats, Some(250_000));

    let open = invoice_for(&preimage, None);
    assert!(open.starts_with("lnbc1"));
    let facts = read_invoice(&open).unwrap();
    assert_eq!(facts.payment_hash, sha256_of(&preimage));
    assert_eq!(facts.amount_msats, None);

    // The upper-case form of an invoice is the same invoice.
    assert_eq!(read_invoice(&text.to_uppercase()).unwrap().amount_msats, Some(250_000));

    // What is no invoice comes with the parser's words on why.
    let why_stub = read_invoice("lnbc1pstub_invoice").unwrap_err();
    let why_empty = read_invoice("").unwrap_err();
    assert!(!why_stub.is_empty() && !why_empty.is_empty());
    assert_ne!(why_stub, why_empty);
    assert!(read_invoice(&text[..text.len() - 1]).is_err());
    // One changed character breaks the checksum.
    let mut broken = text.clone().into_bytes();
    let last = broken.len() - 1;
    broken[last] = if broken[last] == b'q' { b'p' } else { b'q' };
    assert!(read_invoice(std::str::from_utf8(&broken).unwrap()).is_err());
}

#[test]
fn an_amount_in_whole_bitcoin_is_bounded() {
    assert!(amount_is_bounded(""));
    assert!(amount_is_bounded("lnbc"));
    assert!(amount_is_bounded("lnbc1pstub_invoice"));
    assert!(amount_is_bounded("lnbc2500u1pvjluez"));
    // Digits before the last `1`, without a multiplier letter.
    assert!(amount_is_bounded("lnbc184467441qqq"));
    assert!(!amount_is_bounded("lnbc184467451qqq"));
    assert!(!amount_is_bounded("lnbc999999999999999999999999999999999991qqq"));
    assert!(amount_is_bounded("lnbc000000000000184467441qqq"));
    // With a multiplier letter the parser bounds the amount itself.
    assert!(amount_is_bounded("lnbc99999999999999999999m1qqq"));
    // The last `1` parts the text, also where the amount holds ones.
    assert!(amount_is_bounded("lnbc111111qqq"));
    assert!(!amount_is_bounded("lnbc1111111111qqq"));
    assert_eq!(read_invoice("lnbc184467451qqq").unwrap_err(), "amount out of range");
}

fn facts(hash: [u8; 32], amount: Option<u64>) -> Result<InvoiceFacts, String> {
    Ok(InvoiceFacts { payment_hash: hash, amount_msats: amount })
}

#[test]
fn the_verdict_on_a_lightning_proof() {
    let digest = [3u8; 32];
    let ok = judge_lightning(true, facts(digest, Some(5999)), &digest, 5999, 77, 2000, 1000);
    assert!(ok.verified);
    assert_eq!(ok.amount, 5);
    assert_eq!(ok.timestamp, 77);
    assert_eq!(ok.expires_at, Some(2000));
    assert_eq!(ok.error, None);

    let ok = judge_lightning(true, facts(digest, None), &digest, 1000, 77, 2000, 2000);
    assert!(ok.verified);
    assert_eq!(ok.amount, 1);

    let no = |r: bllvm_mesh::payment_proof::VerificationResult, why: &str| {
        assert!(!r.verified);
        assert_eq!(r.amount, 0);
        assert_eq!(r.timestamp, 0);
        assert_eq!(r.expires_at, None);
        assert_eq!(r.error, Some(why.to_string()));
    };
    no(
        judge_lightning(false, facts(digest, None), &digest, 1000, 77, 2000, 1000),
        "Lightning verification not enabled",
    );
    no(
        judge_lightning(true, Err("bad checksum".to_string()), &digest, 1000, 77, 2000, 1000),
        "Invalid Lightning invoice format: bad checksum",
    );
    no(
        judge_lightning(true, facts([4u8; 32], Some(1)), &digest, 1000, 77, 1, 1000),
        "Payment hash does not match preimage",
    );
    no(
        judge_lightning(true, facts(digest, Some(1001)), &digest, 1000, 77, 1, 1000),
        "Payment amount does not match invoice",
    );
    no(
        judge_lightning(true, facts(digest, Some(1000)), &digest, 1000, 77, 999, 1000),
        "Lightning invoice has expired",
    );
}

fn reading(values: Vec<u64>, carried: u8, recomputed: Result<u8, &str>) -> CovenantReading {
    CovenantReading::Read {
        output_values: values,
        template_hash: [carried; 32],
        recomputed_hash: match recomputed {
            Ok(b) => Ok([b; 32]),
            Err(e) => Err(e.to_string()),
        },
    }
}

#[test]
fn the_verdict_on_a_template_commitment() {
    let ok = judge_template(true, &[1, 2], &reading(vec![5, 42, 9], 1, Ok(1)), 42, 66);
    assert!(ok.verified);
    assert_eq!(ok.amount, 42);
    assert_eq!(ok.timestamp, 66);
    assert_eq!(ok.expires_at, None);
    assert_eq!(ok.error, None);

    let no = |r: bllvm_mesh::payment_proof::VerificationResult, why: &str| {
        assert!(!r.verified);
        assert_eq!(r.error, Some(why.to_string()));
    };
    let good = reading(vec![42], 1, Ok(1));
    no(judge_template(false, &[1], &good, 42, 66), "CTV verification not enabled");
    no(judge_template(true, &[], &good, 42, 66), "Empty CTV covenant proof");
    no(
        judge_template(true, &[1], &CovenantReading::Unread, 42, 66),
        "Invalid CTV covenant proof format: covenant not read",
    );
    no(
        judge_template(true, &[1], &CovenantReading::Malformed("eof".to_string()), 42, 66),
        "Invalid CTV covenant proof format: eof",
    );
    no(
        judge_template(true, &[1], &reading(vec![41, 43], 1, Ok(1)), 42, 66),
        "CTV covenant proof output amount does not match expected amount",
    );
    no(
        judge_template(true, &[1], &reading(vec![], 1, Ok(1)), 42, 66),
        "CTV covenant proof output amount does not match expected amount",
    );
    no(
        judge_template(true, &[1], &reading(vec![42], 1, Ok(2)), 42, 66),
        "CTV covenant proof template hash verification failed",
    );
    no(
        judge_template(true, &[1], &reading(vec![42], 1, Err("bad input")), 42, 66),
        "CTV template hash calculation error: bad input",
    );
}

#[test]
fn verifies_a_lightning_proof_with_its_invoice() {
    let verifier = PaymentVerifier::new();
    let preimage = [7u8; 32];
    let proof = |invoice: String, preimage: [u8; 32], amount_msats: u64| PaymentProof::Lightning {
        invoice,
        preimage,
        amount_msats,
        timestamp: 1_700_000_000,
        expires_at: 1_700_003_600,
    };
    let good = proof(invoice_for(&preimage, Some(250_000)), preimage, 250_000);
    let r = verifier.verify_at(&good, &CovenantReading::Unread, 1_700_000_100);
    assert!(r.verified);
    assert_eq!(r.amount, 250);
    assert_eq!(r.timestamp, 1_700_000_000);
    assert_eq!(r.expires_at, Some(1_700_003_600));
    assert_eq!(r.error, None);
    // At its expiry the proof still counts; one second later it does not.
    assert!(verifier.verify_at(&good, &CovenantReading::Unread, 1_700_003_600).verified);
    let late = verifier.verify_at(&good, &CovenantReading::Unread, 1_700_003_601);
    assert_eq!(late.error, Some("Payment proof expired".to_string()));

    let wrong_preimage = proof(invoice_for(&preimage, Some(250_000)), [8u8; 32], 250_000);
    let r = verifier.verify_at(&wrong_preimage, &CovenantReading::Unread, 1_700_000_100);
    assert_eq!(r.error, Some("Payment hash does not match preimage".to_string()));

    let wrong_amount = proof(invoice_for(&preimage, Some(250_000)), preimage, 250_001);
    let r = verifier.verify_at(&wrong_amount, &CovenantReading::Unread, 1_700_000_100);
    assert_eq!(r.error, Some("Payment amount does not match invoice".to_string()));

    let any_amount = proof(invoice_for(&preimage, None), preimage, 123_456);
    let r = verifier.verify_at(&any_amount, &CovenantReading::Unread, 1_700_000_100);
    assert!(r.verified);
    assert_eq!(r.amount, 123);

    let no_invoice = proof("lnbc1pstub_invoice".to_string(), preimage, 250_000);
    let r = verifier.verify_at(&no_invoice, &CovenantReading::Unread, 1_700_000_100);
    let why = r.error.unwrap();
    assert!(why.starts_with("Invalid Lightning invoice format: "));
    assert_eq!(why, format!("Invalid Lightning invoice format: {}", read_invoice("lnbc1pstub_invoice").unwrap_err()));
}

#[test]
fn verifies_a_template_commitment_with_its_reading() {
    let verifier = PaymentVerifier::new();
    let proof = PaymentProof::InstantSettlement {
        covenant_proof: vec![1, 2, 3],
        output_index: 0,
        merkle_proof: vec![],
        amount_sats: 42,
        timestamp: 1000,
    };
    let r = verifier.verify_at(&proof, &reading(vec![42], 1, Ok(1)), 1000 + 86_400);
    assert!(r.verified);
    assert_eq!((r.amount, r.timestamp, r.expires_at), (42, 1000, None));
    let r = verifier.verify_at(&proof, &reading(vec![42], 1, Ok(1)), 1000 + 86_401);
    assert_eq!(r.error, Some("Payment proof expired".to_string()));
    let r = verifier.verify_at(&proof, &CovenantReading::Unread, 1000);
    assert_eq!(r.error, Some("Invalid CTV covenant proof format: covenant not read".to_string()));
}

#[test]
fn verdicts_of_a_batch_come_in_the_order_of_the_proofs() {
    let verifier = PaymentVerifier::new();
    let preimage = [7u8; 32];
    let a = PaymentProof::Lightning {
        invoice: invoice_for(&preimage, Some(5000)),
        preimage,
        amount_msats: 5000,
        timestamp: 1,
        expires_at: 5000,
    };
    let b = PaymentProof::Lightning {
        invoice: "x".to_string(),
        preimage,
        amount_msats: 5000,
        timestamp: 1,
        expires_at: 5000,
    };
    let c = PaymentProof::InstantSettlement {
        covenant_proof: vec![1],
        output_index: 0,
        merkle_proof: vec![],
        amount_sats: 9,
        timestamp: 1000,
    };
    let unread = CovenantReading::Unread;
    let read = reading(vec![9], 3, Ok(3));
    let r = verifier.verify_batch_at(&[(&a, &unread), (&b, &unread), (&c, &read), (&a, &read)], 2000);
    assert_eq!(r.len(), 4);
    assert_eq!(
        r.iter().map(|v| (v.verified, v.amount)).collect::<Vec<_>>(),
        vec![(true, 5), (false, 0), (true, 9), (true, 5)]
    );
    assert!(verifier.verify_batch_at(&[], 2000).is_empty());
    let late = verifier.verify_batch(&[(&a, &unread), (&c, &read)]);
    assert_eq!(late.iter().map(|v| v.verified).collect::<Vec<_>>(), vec![false, false]);
}

#[test]
fn payment_state_is_named_by_half_the_preimage() {
    let mut preimage = [0u8; 32];
    for (i, b) in preimage.iter_mut().enumerate() {
        *b = (i as u8) * 17;
    }
    assert_eq!(payment_state_id(&preimage), "lightning_00112233445566778899aabbccddeeff");
    assert_eq!(payment_state_id(&[0x0f; 32]), format!("lightning_{}", "0f".repeat(16)));
}

#[test]
fn minimum_payment_and_payment_for_data() {
    let verifier = PaymentVerifier::new();
    assert!(verifier.check_minimum_payment(10, 10));
    assert!(verifier.check_minimum_payment(11, 10));
    assert!(!verifier.check_minimum_payment(9, 10));
    assert_eq!(verifier.calculate_payment_for_data(1000, 3), 3000);
    assert_eq!(verifier.calculate_payment_for_data(0, 3), 0);
    assert_eq!(verifier.calculate_payment_for_data(usize::MAX, 2), u64::MAX);
}
