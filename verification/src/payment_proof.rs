//! Payment proofs and the outcome of verifying one.
//!
//! A proof is either a Lightning invoice with the preimage that settles it,
//! or a template commitment. Its hash, the key under which a used proof is
//! remembered, is the SHA-256 digest of its wire encoding.

use crate::clock::{is_older_than, older_than, unix_now};
use crate::digest::{sha256, sha256_digest};
use crate::wire::{
    add_capped, all_ids, capped, ids_len_capped, copy_bytes, copy_ids, get_bytes, get_id, get_ids, get_text, get_u32, get_u64, ids_view,
    lemma_parse_bytes, lemma_parse_ids, lemma_parse_text, lemma_parse_u32, lemma_parse_u64,
    lemma_ser_lengths, parse_bytes, parse_id, parse_ids, parse_text, parse_u32, parse_u64,
    put_bytes, put_id, put_ids, put_text, put_u32, put_u64, ser_bytes, ser_ids, ser_text, ser_u32,
    ser_u64,
};
use vstd::prelude::*;
use vstd::utf8::*;

verus! {

/// Age in seconds after which a template commitment no longer counts.
pub const TEMPLATE_MAX_AGE_SECONDS: u64 = 86400;

/// Payment proof for mesh routing.
#[derive(Debug)]
pub enum PaymentProof {
    /// Lightning payment: a BOLT11 invoice and the preimage of its payment hash.
    Lightning {
        /// The invoice, in BOLT11 text form.
        invoice: String,
        /// The payment preimage.
        preimage: [u8; 32],
        /// Amount in millisatoshis.
        amount_msats: u64,
        /// Time of payment, seconds since the epoch.
        timestamp: u64,
        /// Time at which the invoice expires, seconds since the epoch.
        expires_at: u64,
    },
    /// Instant settlement by a template commitment.
    InstantSettlement {
        /// The serialised covenant.
        covenant_proof: Vec<u8>,
        /// Index of the paying output in the covenant transaction.
        output_index: u32,
        /// Merkle path, where one is needed.
        merkle_proof: Vec<[u8; 32]>,
        /// Amount in satoshis.
        amount_sats: u64,
        /// Time of the proof, seconds since the epoch.
        timestamp: u64,
    },
}

/// What a payment proof holds, as mathematical values.
pub enum ProofView {
    Lightning {
        invoice: Seq<char>,
        preimage: Seq<u8>,
        amount_msats: u64,
        timestamp: u64,
        expires_at: u64,
    },
    InstantSettlement {
        covenant_proof: Seq<u8>,
        output_index: u32,
        merkle_proof: Seq<Seq<u8>>,
        amount_sats: u64,
        timestamp: u64,
    },
}

impl View for PaymentProof {
    type V = ProofView;

    open spec fn view(&self) -> ProofView {
        match self {
            PaymentProof::Lightning { invoice, preimage, amount_msats, timestamp, expires_at } => {
                ProofView::Lightning {
                    invoice: invoice@,
                    preimage: preimage@,
                    amount_msats: *amount_msats,
                    timestamp: *timestamp,
                    expires_at: *expires_at,
                }
            },
            PaymentProof::InstantSettlement {
                covenant_proof,
                output_index,
                merkle_proof,
                amount_sats,
                timestamp,
            } => ProofView::InstantSettlement {
                covenant_proof: covenant_proof@,
                output_index: *output_index,
                merkle_proof: ids_view(merkle_proof@),
                amount_sats: *amount_sats,
                timestamp: *timestamp,
            },
        }
    }
}

impl ProofView {
    /// The proof can be written and read back: its identifiers have 32 bytes
    /// and its lengths fit the length prefix.
    pub open spec fn wf(self) -> bool {
        match self {
            ProofView::Lightning { invoice, preimage, .. } => {
                &&& preimage.len() == 32
                &&& encode_utf8(invoice).len() <= u64::MAX
            },
            ProofView::InstantSettlement { covenant_proof, merkle_proof, .. } => {
                &&& covenant_proof.len() <= u64::MAX
                &&& merkle_proof.len() <= u64::MAX
                &&& all_ids(merkle_proof)
            },
        }
    }

    /// Amount in satoshis: a Lightning amount is rounded down.
    pub open spec fn amount_sats(self) -> u64 {
        match self {
            ProofView::Lightning { amount_msats, .. } => amount_msats / 1000,
            ProofView::InstantSettlement { amount_sats, .. } => amount_sats,
        }
    }

    /// Time of the payment.
    pub open spec fn timestamp(self) -> u64 {
        match self {
            ProofView::Lightning { timestamp, .. } => timestamp,
            ProofView::InstantSettlement { timestamp, .. } => timestamp,
        }
    }

    /// A Lightning proof is expired once `now` is past its expiry; a template
    /// commitment once it is older than a day.
    pub open spec fn expired_at(self, now: u64) -> bool {
        match self {
            ProofView::Lightning { expires_at, .. } => now > expires_at,
            ProofView::InstantSettlement { timestamp, .. } => older_than(
                timestamp,
                TEMPLATE_MAX_AGE_SECONDS,
                now,
            ),
        }
    }
}

/// Wire encoding of a proof: the variant's index as a u32, then its fields
/// in order.
pub open spec fn ser_proof(v: ProofView) -> Seq<u8> {
    match v {
        ProofView::Lightning { invoice, preimage, amount_msats, timestamp, expires_at } => ser_u32(
            0,
        ) + ser_text(invoice) + preimage + ser_u64(amount_msats) + ser_u64(timestamp) + ser_u64(
            expires_at,
        ),
        ProofView::InstantSettlement {
            covenant_proof,
            output_index,
            merkle_proof,
            amount_sats,
            timestamp,
        } => ser_u32(1) + ser_bytes(covenant_proof) + ser_u32(output_index) + ser_ids(merkle_proof)
            + ser_u64(amount_sats) + ser_u64(timestamp),
    }
}

/// Parser for the fields of a Lightning proof at `pos`.
pub open spec fn parse_lightning(s: Seq<u8>, pos: int) -> Option<(ProofView, int)> {
    match parse_text(s, pos) {
        Some((invoice, at1)) => match parse_id(s, at1) {
            Some((preimage, at2)) => match parse_u64(s, at2) {
                Some((amount_msats, at3)) => match parse_u64(s, at3) {
                    Some((timestamp, at4)) => match parse_u64(s, at4) {
                        Some((expires_at, at5)) => Some(
                            (
                                ProofView::Lightning {
                                    invoice,
                                    preimage,
                                    amount_msats,
                                    timestamp,
                                    expires_at,
                                },
                                at5,
                            ),
                        ),
                        None => None,
                    },
                    None => None,
                },
                None => None,
            },
            None => None,
        },
        None => None,
    }
}

/// Parser for the fields of a template commitment at `pos`.
pub open spec fn parse_settlement(s: Seq<u8>, pos: int) -> Option<(ProofView, int)> {
    match parse_bytes(s, pos) {
        Some((covenant_proof, at1)) => match parse_u32(s, at1) {
            Some((output_index, at2)) => match parse_ids(s, at2) {
                Some((merkle_proof, at3)) => match parse_u64(s, at3) {
                    Some((amount_sats, at4)) => match parse_u64(s, at4) {
                        Some((timestamp, at5)) => Some(
                            (
                                ProofView::InstantSettlement {
                                    covenant_proof,
                                    output_index,
                                    merkle_proof,
                                    amount_sats,
                                    timestamp,
                                },
                                at5,
                            ),
                        ),
                        None => None,
                    },
                    None => None,
                },
                None => None,
            },
            None => None,
        },
        None => None,
    }
}

/// Parser for a proof at `pos`.
pub open spec fn parse_proof(s: Seq<u8>, pos: int) -> Option<(ProofView, int)> {
    match parse_u32(s, pos) {
        Some((tag, at0)) => if tag == 0 {
            parse_lightning(s, at0)
        } else if tag == 1 {
            parse_settlement(s, at0)
        } else {
            None
        },
        None => None,
    }
}

/// Hash of a proof: the SHA-256 digest of its wire encoding.
pub open spec fn proof_hash(v: ProofView) -> [u8; 32] {
    sha256(ser_proof(v))
}

/// A proof is found where its encoding stands.
pub proof fn lemma_parse_proof(s: Seq<u8>, pos: int, v: ProofView)
    requires
        0 <= pos,
        v.wf(),
        pos + ser_proof(v).len() <= s.len(),
        s.subrange(pos, pos + ser_proof(v).len()) == ser_proof(v),
    ensures
        parse_proof(s, pos) == Some((v, pos + ser_proof(v).len())),
{
    lemma_ser_lengths();
    let w = s.subrange(pos, pos + ser_proof(v).len());
    match v {
        ProofView::Lightning { invoice, preimage, amount_msats, timestamp, expires_at } => {
            let n = encode_utf8(invoice).len() as int;
            let at0 = pos + 4;
            let at1 = at0 + 8 + n;
            let at2 = at1 + 32;
            let at3 = at2 + 8;
            let at4 = at3 + 8;
            assert(s.subrange(pos, at0) =~= w.subrange(0, 4));
            assert(w.subrange(0, 4) =~= ser_u32(0));
            lemma_parse_u32(s, pos, 0);
            assert(s.subrange(at0, at1) =~= w.subrange(4, 12 + n));
            assert(w.subrange(4, 12 + n) =~= ser_text(invoice));
            lemma_parse_text(s, at0, invoice);
            assert(s.subrange(at1, at2) =~= w.subrange(12 + n, 44 + n));
            assert(w.subrange(12 + n, 44 + n) =~= preimage);
            assert(s.subrange(at2, at3) =~= w.subrange(44 + n, 52 + n));
            assert(w.subrange(44 + n, 52 + n) =~= ser_u64(amount_msats));
            lemma_parse_u64(s, at2, amount_msats);
            assert(s.subrange(at3, at4) =~= w.subrange(52 + n, 60 + n));
            assert(w.subrange(52 + n, 60 + n) =~= ser_u64(timestamp));
            lemma_parse_u64(s, at3, timestamp);
            assert(s.subrange(at4, at4 + 8) =~= w.subrange(60 + n, 68 + n));
            assert(w.subrange(60 + n, 68 + n) =~= ser_u64(expires_at));
            lemma_parse_u64(s, at4, expires_at);
        },
        ProofView::InstantSettlement {
            covenant_proof,
            output_index,
            merkle_proof,
            amount_sats,
            timestamp,
        } => {
            let n = covenant_proof.len() as int;
            let m = 32 * merkle_proof.len() as int;
            let at0 = pos + 4;
            let at1 = at0 + 8 + n;
            let at2 = at1 + 4;
            let at3 = at2 + 8 + m;
            let at4 = at3 + 8;
            assert(s.subrange(pos, at0) =~= w.subrange(0, 4));
            assert(w.subrange(0, 4) =~= ser_u32(1));
            lemma_parse_u32(s, pos, 1);
            assert(s.subrange(at0, at1) =~= w.subrange(4, 12 + n));
            assert(w.subrange(4, 12 + n) =~= ser_bytes(covenant_proof));
            lemma_parse_bytes(s, at0, covenant_proof);
            assert(s.subrange(at1, at2) =~= w.subrange(12 + n, 16 + n));
            assert(w.subrange(12 + n, 16 + n) =~= ser_u32(output_index));
            lemma_parse_u32(s, at1, output_index);
            assert(s.subrange(at2, at3) =~= w.subrange(16 + n, 24 + n + m));
            assert(w.subrange(16 + n, 24 + n + m) =~= ser_ids(merkle_proof));
            lemma_parse_ids(s, at2, merkle_proof);
            assert(s.subrange(at3, at4) =~= w.subrange(24 + n + m, 32 + n + m));
            assert(w.subrange(24 + n + m, 32 + n + m) =~= ser_u64(amount_sats));
            lemma_parse_u64(s, at3, amount_sats);
            assert(s.subrange(at4, at4 + 8) =~= w.subrange(32 + n + m, 40 + n + m));
            assert(w.subrange(32 + n + m, 40 + n + m) =~= ser_u64(timestamp));
            lemma_parse_u64(s, at4, timestamp);
        },
    }
}

impl Clone for PaymentProof {
    fn clone(&self) -> (r: Self)
        ensures
            r@ == self@,
    {
        match self {
            PaymentProof::Lightning { invoice, preimage, amount_msats, timestamp, expires_at } => {
                PaymentProof::Lightning {
                    invoice: invoice.clone(),
                    preimage: *preimage,
                    amount_msats: *amount_msats,
                    timestamp: *timestamp,
                    expires_at: *expires_at,
                }
            },
            PaymentProof::InstantSettlement {
                covenant_proof,
                output_index,
                merkle_proof,
                amount_sats,
                timestamp,
            } => {
                PaymentProof::InstantSettlement {
                    covenant_proof: copy_bytes(covenant_proof.as_slice()),
                    output_index: *output_index,
                    merkle_proof: copy_ids(merkle_proof.as_slice()),
                    amount_sats: *amount_sats,
                    timestamp: *timestamp,
                }
            },
        }
    }
}

impl PaymentProof {
    /// Payment amount in satoshis.
    pub fn amount_sats(&self) -> (r: u64)
        ensures
            r == self@.amount_sats(),
    {
        match self {
            PaymentProof::Lightning { amount_msats, .. } => *amount_msats / 1000,
            PaymentProof::InstantSettlement { amount_sats, .. } => *amount_sats,
        }
    }

    /// Payment timestamp.
    pub fn timestamp(&self) -> (r: u64)
        ensures
            r == self@.timestamp(),
    {
        match self {
            PaymentProof::Lightning { timestamp, .. } => *timestamp,
            PaymentProof::InstantSettlement { timestamp, .. } => *timestamp,
        }
    }

    /// Whether the proof is expired at time `now`.
    pub fn is_expired_at(&self, now: u64) -> (r: bool)
        ensures
            r == self@.expired_at(now),
    {
        match self {
            PaymentProof::Lightning { expires_at, .. } => now > *expires_at,
            PaymentProof::InstantSettlement { timestamp, .. } => is_older_than(
                *timestamp,
                TEMPLATE_MAX_AGE_SECONDS,
                now,
            ),
        }
    }

    /// Whether the proof is expired by the machine's clock.
    pub fn is_expired(&self) -> (r: bool)
        ensures
            exists|now: u64| r == #[trigger] self@.expired_at(now),
    {
        let now = unix_now();
        self.is_expired_at(now)
    }

    /// Appends the wire encoding of the proof.
    pub fn encode(&self, out: &mut Vec<u8>)
        ensures
            final(out)@ == old(out)@ + ser_proof(self@),
            self@.wf(),
    {
        match self {
            PaymentProof::Lightning { invoice, preimage, amount_msats, timestamp, expires_at } => {
                put_u32(out, 0);
                put_text(out, invoice.as_str());
                put_id(out, preimage);
                put_u64(out, *amount_msats);
                put_u64(out, *timestamp);
                put_u64(out, *expires_at);
                assert(preimage@.len() == 32);
            },
            PaymentProof::InstantSettlement {
                covenant_proof,
                output_index,
                merkle_proof,
                amount_sats,
                timestamp,
            } => {
                let n: usize = covenant_proof.len();
                let m: usize = merkle_proof.len();
                put_u32(out, 1);
                put_bytes(out, covenant_proof.as_slice());
                put_u32(out, *output_index);
                put_ids(out, merkle_proof.as_slice());
                put_u64(out, *amount_sats);
                put_u64(out, *timestamp);
                assert(all_ids(ids_view(merkle_proof@)));
            },
        }
        assert(out@ =~= old(out)@ + ser_proof(self@));
    }

    /// The length of the wire encoding of the proof, capped.
    pub fn encoded_len(&self) -> (r: usize)
        ensures
            r == capped(ser_proof(self@).len() as int),
    {
        proof {
            lemma_ser_lengths();
        }
        match self {
            PaymentProof::Lightning { invoice, preimage, .. } => {
                assert(preimage@.len() == 32);
                add_capped(68, invoice.as_str().as_bytes().len())
            },
            PaymentProof::InstantSettlement { covenant_proof, merkle_proof, .. } => {
                assert(ids_view(merkle_proof@).len() == merkle_proof@.len());
                add_capped(
                    add_capped(40, covenant_proof.len()),
                    ids_len_capped(merkle_proof.len()),
                )
            },
        }
    }

    /// Hash of the proof, the key for replay prevention: the SHA-256 digest
    /// of its wire encoding.
    pub fn hash(&self) -> (r: [u8; 32])
        ensures
            r == proof_hash(self@),
    {
        let mut bytes: Vec<u8> = Vec::new();
        self.encode(&mut bytes);
        assert(bytes@ =~= ser_proof(self@));
        sha256_digest(bytes.as_slice())
    }

    /// Reads a proof at `pos`.
    pub fn decode(data: &[u8], pos: usize) -> (r: Option<(PaymentProof, usize)>)
        requires
            pos <= data@.len(),
        ensures
            match r {
                Some((v, next)) => parse_proof(data@, pos as int) == Some((v@, next as int))
                    && next <= data@.len(),
                None => parse_proof(data@, pos as int) is None,
            },
    {
        let (tag, at0) = match get_u32(data, pos) {
            Some(x) => x,
            None => { return None; },
        };
        if tag == 0 {
            let (invoice, at1) = match get_text(data, at0) {
                Some(x) => x,
                None => { return None; },
            };
            let (preimage, at2) = match get_id(data, at1) {
                Some(x) => x,
                None => { return None; },
            };
            let (amount_msats, at3) = match get_u64(data, at2) {
                Some(x) => x,
                None => { return None; },
            };
            let (timestamp, at4) = match get_u64(data, at3) {
                Some(x) => x,
                None => { return None; },
            };
            let (expires_at, at5) = match get_u64(data, at4) {
                Some(x) => x,
                None => { return None; },
            };
            Some(
                (
                    PaymentProof::Lightning { invoice, preimage, amount_msats, timestamp, expires_at },
                    at5,
                ),
            )
        } else if tag == 1 {
            let (covenant_proof, at1) = match get_bytes(data, at0) {
                Some(x) => x,
                None => { return None; },
            };
            let (output_index, at2) = match get_u32(data, at1) {
                Some(x) => x,
                None => { return None; },
            };
            let (merkle_proof, at3) = match get_ids(data, at2) {
                Some(x) => x,
                None => { return None; },
            };
            let (amount_sats, at4) = match get_u64(data, at3) {
                Some(x) => x,
                None => { return None; },
            };
            let (timestamp, at5) = match get_u64(data, at4) {
                Some(x) => x,
                None => { return None; },
            };
            Some(
                (
                    PaymentProof::InstantSettlement {
                        covenant_proof,
                        output_index,
                        merkle_proof,
                        amount_sats,
                        timestamp,
                    },
                    at5,
                ),
            )
        } else {
            None
        }
    }
}

/// Payment verification result.
#[derive(Debug, Clone)]
pub struct VerificationResult {
    /// Whether the payment is verified.
    pub verified: bool,
    /// Amount in satoshis.
    pub amount: u64,
    /// Payment timestamp.
    pub timestamp: u64,
    /// Expiry timestamp, where the proof has one.
    pub expires_at: Option<u64>,
    /// Why verification failed, where it did.
    pub error: Option<String>,
}

impl VerificationResult {
    /// A successful verification.
    pub fn success(amount: u64, timestamp: u64, expires_at: Option<u64>) -> (r: Self)
        ensures
            r.verified,
            r.amount == amount,
            r.timestamp == timestamp,
            r.expires_at == expires_at,
            r.error is None,
    {
        Self { verified: true, amount, timestamp, expires_at, error: None }
    }

    /// A failed verification, with its reason.
    pub fn failure(error: String) -> (r: Self)
        ensures
            !r.verified,
            r.amount == 0,
            r.timestamp == 0,
            r.expires_at is None,
            r.error == Some(error),
    {
        Self { verified: false, amount: 0, timestamp: 0, expires_at: None, error: Some(error) }
    }
}

} // verus!
