//! Payment verification: whether a proof stands for a real payment that
//! still counts.
//!
//! A failed verification is a result, not an error. The host's payment
//! state plays no part in the verdict; `payment_state_id` names the entry
//! under which the host may be asked about a Lightning payment.

use crate::bytes::array32_eq;
use crate::clock::unix_now;
use crate::digest::{hex_encode, hex_text, sha256, sha256_digest};
use crate::invoice::{facts_view, read_invoice, readable_invoice, InvoiceFacts};
use crate::payment_proof::{PaymentProof, ProofView, VerificationResult};
use vstd::prelude::*;
use vstd::slice::slice_subrange;
use vstd::string::StringExecFns;

verus! {

/// What the host found when it read the covenant of a template commitment.
#[derive(Debug)]
pub enum CovenantReading {
    /// The covenant was not read.
    Unread,
    /// The bytes hold no covenant; the text says why.
    Malformed(String),
    /// The covenant that the bytes hold.
    Read {
        /// The values of the outputs of the transaction template, in satoshis.
        output_values: Vec<u64>,
        /// The template hash that the covenant carries.
        template_hash: [u8; 32],
        /// The template hash computed anew from the transaction template,
        /// or why it could not be computed.
        recomputed_hash: Result<[u8; 32], String>,
    },
}

/// What a covenant reading holds, as mathematical values.
pub enum ReadingView {
    Unread,
    Malformed(Seq<char>),
    Read {
        output_values: Seq<u64>,
        template_hash: [u8; 32],
        recomputed_hash: Result<[u8; 32], Seq<char>>,
    },
}

impl View for CovenantReading {
    type V = ReadingView;

    open spec fn view(&self) -> ReadingView {
        match self {
            CovenantReading::Unread => ReadingView::Unread,
            CovenantReading::Malformed(why) => ReadingView::Malformed(why@),
            CovenantReading::Read { output_values, template_hash, recomputed_hash } => {
                ReadingView::Read {
                    output_values: output_values@,
                    template_hash: *template_hash,
                    recomputed_hash: match recomputed_hash {
                        Ok(h) => Ok(*h),
                        Err(why) => Err(why@),
                    },
                }
            },
        }
    }
}

/// What a verification result holds, as mathematical values.
pub struct VerdictView {
    pub verified: bool,
    pub amount: u64,
    pub timestamp: u64,
    pub expires_at: Option<u64>,
    pub error: Option<Seq<char>>,
}

impl View for VerificationResult {
    type V = VerdictView;

    open spec fn view(&self) -> VerdictView {
        VerdictView {
            verified: self.verified,
            amount: self.amount,
            timestamp: self.timestamp,
            expires_at: self.expires_at,
            error: match self.error {
                Some(e) => Some(e@),
                None => None,
            },
        }
    }
}

/// The verdict that accepts a payment.
pub open spec fn accepted(amount: u64, timestamp: u64, expires_at: Option<u64>) -> VerdictView {
    VerdictView { verified: true, amount, timestamp, expires_at, error: None }
}

/// The verdict that turns a payment down, with its reason.
pub open spec fn refused(why: Seq<char>) -> VerdictView {
    VerdictView { verified: false, amount: 0, timestamp: 0, expires_at: None, error: Some(why) }
}

/// The verdict on a Lightning proof that is not expired, from the facts of
/// its invoice and the digest of its preimage: the invoice must be one,
/// carry the digest as its payment hash, state the proof's amount if it
/// states one, and not expire before `now`.
pub open spec fn lightning_verdict(
    enabled: bool,
    facts: Result<InvoiceFacts, Seq<char>>,
    preimage_digest: [u8; 32],
    amount_msats: u64,
    timestamp: u64,
    expires_at: u64,
    now: u64,
) -> VerdictView {
    if !enabled {
        refused("Lightning verification not enabled"@)
    } else {
        match facts {
            Err(why) => refused("Invalid Lightning invoice format: "@ + why),
            Ok(f) => if f.payment_hash != preimage_digest {
                refused("Payment hash does not match preimage"@)
            } else if f.amount_msats is Some && f.amount_msats->0 != amount_msats {
                refused("Payment amount does not match invoice"@)
            } else if expires_at < now {
                refused("Lightning invoice has expired"@)
            } else {
                accepted(amount_msats / 1000, timestamp, Some(expires_at))
            },
        }
    }
}

/// The verdict on a template commitment that is not expired, from the
/// reading of its covenant: the bytes must hold a covenant, one output must
/// pay the amount exactly, and the template hash computed anew must be the
/// one carried.
pub open spec fn template_verdict(
    enabled: bool,
    covenant_proof: Seq<u8>,
    reading: ReadingView,
    amount_sats: u64,
    timestamp: u64,
) -> VerdictView {
    if !enabled {
        refused("CTV verification not enabled"@)
    } else if covenant_proof.len() == 0 {
        refused("Empty CTV covenant proof"@)
    } else {
        match reading {
            ReadingView::Unread => refused(
                "Invalid CTV covenant proof format: covenant not read"@,
            ),
            ReadingView::Malformed(why) => refused("Invalid CTV covenant proof format: "@ + why),
            ReadingView::Read { output_values, template_hash, recomputed_hash } => {
                if !output_values.contains(amount_sats) {
                    refused(
                        "CTV covenant proof output amount does not match expected amount"@,
                    )
                } else {
                    match recomputed_hash {
                        Err(why) => refused("CTV template hash calculation error: "@ + why),
                        Ok(h) => if h != template_hash {
                            refused("CTV covenant proof template hash verification failed"@)
                        } else {
                            accepted(amount_sats, timestamp, None)
                        },
                    }
                }
            },
        }
    }
}

/// The verdict on a proof at time `now`: an expired proof is turned down;
/// any other is judged by its kind.
pub open spec fn proof_verdict(
    lightning_enabled: bool,
    ctv_enabled: bool,
    payment: ProofView,
    facts: Result<InvoiceFacts, Seq<char>>,
    reading: ReadingView,
    now: u64,
) -> VerdictView {
    if payment.expired_at(now) {
        refused("Payment proof expired"@)
    } else {
        match payment {
            ProofView::Lightning { invoice, preimage, amount_msats, timestamp, expires_at } => {
                lightning_verdict(
                    lightning_enabled,
                    facts,
                    sha256(preimage),
                    amount_msats,
                    timestamp,
                    expires_at,
                    now,
                )
            },
            ProofView::InstantSettlement {
                covenant_proof,
                amount_sats,
                timestamp,
                ..
            } => template_verdict(ctv_enabled, covenant_proof, reading, amount_sats, timestamp),
        }
    }
}

/// The invoice facts that the verdict on a proof rests on: those of its
/// invoice, for a Lightning proof. (A template commitment has none, and
/// its verdict reads none.)
pub open spec fn proof_invoice(payment: ProofView) -> Result<InvoiceFacts, Seq<char>> {
    match payment {
        ProofView::Lightning { invoice, .. } => readable_invoice(invoice),
        ProofView::InstantSettlement { .. } => Err(Seq::empty()),
    }
}

/// The name under which the host keeps the state of a Lightning payment:
/// `lightning_`, then the first 16 bytes of the preimage in hexadecimal.
pub open spec fn payment_state_name(preimage: Seq<u8>) -> Seq<char> {
    "lightning_"@ + hex_text(preimage.subrange(0, 16))
}

/// The name under which the host keeps the state of a Lightning payment.
pub fn payment_state_id(preimage: &[u8; 32]) -> (r: String)
    ensures
        r@ == payment_state_name(preimage@),
{
    let head = slice_subrange(preimage.as_slice(), 0, 16);
    String::from_str("lightning_").concat(hex_encode(head).as_str())
}

/// The verdict on a Lightning proof that is not expired, from the facts of
/// its invoice and the digest of its preimage.
pub fn judge_lightning(
    enabled: bool,
    facts: Result<InvoiceFacts, String>,
    preimage_digest: &[u8; 32],
    amount_msats: u64,
    timestamp: u64,
    expires_at: u64,
    now: u64,
) -> (r: VerificationResult)
    ensures
        r@ == lightning_verdict(
            enabled,
            facts_view(facts),
            *preimage_digest,
            amount_msats,
            timestamp,
            expires_at,
            now,
        ),
{
    if !enabled {
        return VerificationResult::failure(String::from_str("Lightning verification not enabled"));
    }
    let f = match facts {
        Ok(f) => f,
        Err(why) => {
            return VerificationResult::failure(
                String::from_str("Invalid Lightning invoice format: ").concat(why.as_str()),
            );
        },
    };
    if !array32_eq(&f.payment_hash, preimage_digest) {
        return VerificationResult::failure(
            String::from_str("Payment hash does not match preimage"),
        );
    }
    match f.amount_msats {
        Some(stated) => {
            if stated != amount_msats {
                return VerificationResult::failure(
                    String::from_str("Payment amount does not match invoice"),
                );
            }
        },
        None => {},
    }
    if expires_at < now {
        return VerificationResult::failure(String::from_str("Lightning invoice has expired"));
    }
    VerificationResult::success(amount_msats / 1000, timestamp, Some(expires_at))
}

/// Whether one of the values is `amount`.
fn pays_amount(values: &[u64], amount: u64) -> (r: bool)
    ensures
        r == values@.contains(amount),
{
    let mut i: usize = 0;
    while i < values.len()
        invariant
            i <= values@.len(),
            forall|j: int| 0 <= j < i ==> values@[j] != amount,
        decreases values@.len() - i,
    {
        if values[i] == amount {
            return true;
        }
        i += 1;
    }
    false
}

/// The verdict on a template commitment that is not expired, from the
/// reading of its covenant.
pub fn judge_template(
    enabled: bool,
    covenant_proof: &[u8],
    reading: &CovenantReading,
    amount_sats: u64,
    timestamp: u64,
) -> (r: VerificationResult)
    ensures
        r@ == template_verdict(enabled, covenant_proof@, reading@, amount_sats, timestamp),
{
    if !enabled {
        return VerificationResult::failure(String::from_str("CTV verification not enabled"));
    }
    if covenant_proof.len() == 0 {
        return VerificationResult::failure(String::from_str("Empty CTV covenant proof"));
    }
    match reading {
        CovenantReading::Unread => VerificationResult::failure(
            String::from_str("Invalid CTV covenant proof format: covenant not read"),
        ),
        CovenantReading::Malformed(why) => VerificationResult::failure(
            String::from_str("Invalid CTV covenant proof format: ").concat(why.as_str()),
        ),
        CovenantReading::Read { output_values, template_hash, recomputed_hash } => {
            if !pays_amount(output_values.as_slice(), amount_sats) {
                return VerificationResult::failure(
                    String::from_str(
                        "CTV covenant proof output amount does not match expected amount",
                    ),
                );
            }
            match recomputed_hash {
                Err(why) => VerificationResult::failure(
                    String::from_str("CTV template hash calculation error: ").concat(why.as_str()),
                ),
                Ok(h) => {
                    if !array32_eq(h, template_hash) {
                        VerificationResult::failure(
                            String::from_str(
                                "CTV covenant proof template hash verification failed",
                            ),
                        )
                    } else {
                        VerificationResult::success(amount_sats, timestamp, None)
                    }
                },
            }
        },
    }
}

/// Payment verifier for mesh routing.
pub struct PaymentVerifier {
    lightning_enabled: bool,
    ctv_enabled: bool,
}

impl PaymentVerifier {
    /// Whether Lightning proofs are verified.
    pub closed spec fn lightning_enabled(&self) -> bool {
        self.lightning_enabled
    }

    /// Whether template commitments are verified.
    pub closed spec fn ctv_enabled(&self) -> bool {
        self.ctv_enabled
    }

    /// The verdict of this verifier on a proof at time `now`.
    pub open spec fn verdict(&self, payment: ProofView, reading: ReadingView, now: u64)
        -> VerdictView {
        proof_verdict(
            self.lightning_enabled(),
            self.ctv_enabled(),
            payment,
            proof_invoice(payment),
            reading,
            now,
        )
    }

    /// Creates a verifier that verifies both kinds of proof.
    pub fn new() -> (r: Self)
        ensures
            r.lightning_enabled(),
            r.ctv_enabled(),
    {
        Self { lightning_enabled: true, ctv_enabled: true }
    }

    /// Verifies a proof at time `now`. The covenant reading counts for a
    /// template commitment only.
    pub fn verify_at(&self, payment: &PaymentProof, reading: &CovenantReading, now: u64) -> (r:
        VerificationResult)
        ensures
            r@ == self.verdict(payment@, reading@, now),
    {
        if payment.is_expired_at(now) {
            return VerificationResult::failure(String::from_str("Payment proof expired"));
        }
        match payment {
            PaymentProof::Lightning { invoice, preimage, amount_msats, timestamp, expires_at } => {
                let facts = read_invoice(invoice.as_str());
                let digest = sha256_digest(preimage.as_slice());
                judge_lightning(
                    self.lightning_enabled,
                    facts,
                    &digest,
                    *amount_msats,
                    *timestamp,
                    *expires_at,
                    now,
                )
            },
            PaymentProof::InstantSettlement {
                covenant_proof,
                amount_sats,
                timestamp,
                ..
            } => judge_template(
                self.ctv_enabled,
                covenant_proof.as_slice(),
                reading,
                *amount_sats,
                *timestamp,
            ),
        }
    }

    /// Verifies a proof by the machine's clock.
    pub fn verify(&self, payment: &PaymentProof, reading: &CovenantReading) -> (r: VerificationResult)
        ensures
            exists|now: u64| r@ == #[trigger] self.verdict(payment@, reading@, now),
    {
        let now = unix_now();
        self.verify_at(payment, reading, now)
    }

    /// Whether an amount reaches a minimum.
    pub fn check_minimum_payment(&self, amount_sats: u64, minimum_sats: u64) -> (r: bool)
        ensures
            r == (amount_sats >= minimum_sats),
    {
        amount_sats >= minimum_sats
    }

    /// The payment that data of a size costs at a rate for each byte, or
    /// the largest u64 where that does not fit.
    pub fn calculate_payment_for_data(&self, data_size_bytes: usize, rate_sats_per_byte: u64) -> (r:
        u64)
        ensures
            r == if data_size_bytes * rate_sats_per_byte <= u64::MAX {
                data_size_bytes * rate_sats_per_byte
            } else {
                u64::MAX as int
            },
    {
        assert(data_size_bytes * rate_sats_per_byte <= 0xffff_ffff_ffff_ffff
            * 0xffff_ffff_ffff_ffff) by (nonlinear_arith)
            requires
                0 <= data_size_bytes <= 0xffff_ffff_ffff_ffff,
                0 <= rate_sats_per_byte <= 0xffff_ffff_ffff_ffff,
        ;
        let cost: u128 = (data_size_bytes as u128) * (rate_sats_per_byte as u128);
        if cost > u64::MAX as u128 {
            u64::MAX
        } else {
            cost as u64
        }
    }

    /// The results are the verdicts on the proofs at time `now`, one for
    /// each proof and in the order of the proofs.
    pub open spec fn verdicts_at(
        &self,
        proofs: Seq<(&PaymentProof, &CovenantReading)>,
        results: Seq<VerificationResult>,
        now: u64,
    ) -> bool {
        &&& results.len() == proofs.len()
        &&& forall|i: int|
            0 <= i < proofs.len() ==> (#[trigger] results[i])@ == self.verdict(
                proofs[i].0@,
                proofs[i].1@,
                now,
            )
    }

    /// Verifies proofs at time `now`, each with its covenant reading, and
    /// gives the verdicts in the order of the proofs.
    pub fn verify_batch_at(&self, proofs: &[(&PaymentProof, &CovenantReading)], now: u64) -> (r: Vec<
        VerificationResult,
    >)
        ensures
            self.verdicts_at(proofs@, r@, now),
    {
        let mut results: Vec<VerificationResult> = Vec::new();
        let mut i: usize = 0;
        while i < proofs.len()
            invariant
                i <= proofs@.len(),
                results@.len() == i,
                forall|j: int|
                    0 <= j < i ==> (#[trigger] results@[j])@ == self.verdict(
                        proofs@[j].0@,
                        proofs@[j].1@,
                        now,
                    ),
            decreases proofs@.len() - i,
        {
            let verdict = self.verify_at(proofs[i].0, proofs[i].1, now);
            results.push(verdict);
            i += 1;
        }
        results
    }

    /// Verifies proofs by the machine's clock, read once for all of them.
    pub fn verify_batch(&self, proofs: &[(&PaymentProof, &CovenantReading)]) -> (r: Vec<
        VerificationResult,
    >)
        ensures
            exists|now: u64| #[trigger] self.verdicts_at(proofs@, r@, now),
    {
        let now = unix_now();
        self.verify_batch_at(proofs, now)
    }
}

} // verus!
