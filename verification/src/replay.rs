//! Replay prevention for payment proofs.
//!
//! A proof may be used once: its hash is remembered for as long as the
//! expiry says. Each peer's sequence numbers must rise: the last one
//! accepted is remembered for good.
//!
//! A check takes the guard by exclusive reference: no two checks overlap,
//! so of two callers with one proof at most one is accepted.

use crate::bytes::lemma_push_contains;
use crate::clock::{is_older_than, older_than, unix_now};
use crate::concurrent_map::{
    has_count, map_contains, map_get, map_insert, map_keys, map_len, map_remove, new_replay_map,
    new_sequence_map, peer_sequences, replay_entries,
};
use crate::error::{ErrorKind, ErrorView, MeshError};
use crate::packet::NodeId;
use crate::payment_proof::{proof_hash, PaymentProof};
use crate::text::{decimal_string, decimal_text};
use dashmap::DashMap;
use vstd::prelude::*;
use vstd::string::StringExecFns;

verus! {

/// One use of a proof: when it was first seen, by which peer, and under
/// which sequence number.
#[derive(Debug, Clone, Copy)]
pub struct ReplayEntry {
    /// Time at which the proof was first seen.
    pub timestamp: u64,
    /// The peer that used the proof.
    pub peer_id: NodeId,
    /// The sequence number under which it was used.
    pub sequence: u64,
}

/// What the replay guard remembers.
pub struct ReplayModel {
    /// The uses of proofs, by proof hash.
    pub entries: Map<NodeId, ReplayEntry>,
    /// The last sequence number accepted from each peer.
    pub sequences: Map<NodeId, u64>,
    /// Seconds for which a use is remembered.
    pub expiry_seconds: u64,
}

/// How a check of a proof ends.
pub enum ReplayVerdict {
    /// The proof is new, in order and alive: it is now marked as used.
    Accepted,
    /// The proof's hash was seen before.
    ProofReused,
    /// The sequence number is not above the last one accepted from the peer.
    SequenceOutOfOrder,
    /// The proof is expired.
    Expired,
}

impl ReplayModel {
    /// The state after a sweep at time `now`: the uses older than the expiry
    /// are forgotten, the sequence numbers stay.
    pub open spec fn swept(self, now: u64) -> ReplayModel {
        ReplayModel {
            entries: Map::new(
                |h: NodeId|
                    self.entries.contains_key(h) && !older_than(
                        self.entries[h].timestamp,
                        self.expiry_seconds,
                        now,
                    ),
                |h: NodeId| self.entries[h],
            ),
            sequences: self.sequences,
            expiry_seconds: self.expiry_seconds,
        }
    }

    /// How the check of a proof ends in a state that was just swept: the
    /// hash is tested first, then the sequence number, then the expiry.
    pub open spec fn verdict(self, hash: NodeId, peer: NodeId, sequence: u64, expired: bool)
        -> ReplayVerdict {
        if self.entries.contains_key(hash) {
            ReplayVerdict::ProofReused
        } else if self.sequences.contains_key(peer) && sequence <= self.sequences[peer] {
            ReplayVerdict::SequenceOutOfOrder
        } else if expired {
            ReplayVerdict::Expired
        } else {
            ReplayVerdict::Accepted
        }
    }

    /// The state with a proof marked as used by `peer` under `sequence`.
    pub open spec fn marked(self, hash: NodeId, peer: NodeId, sequence: u64, now: u64)
        -> ReplayModel {
        ReplayModel {
            entries: self.entries.insert(
                hash,
                ReplayEntry { timestamp: now, peer_id: peer, sequence },
            ),
            sequences: self.sequences.insert(peer, sequence),
            expiry_seconds: self.expiry_seconds,
        }
    }

    /// How a check at time `now` ends: the state is swept, then the proof is
    /// judged.
    pub open spec fn check_verdict(
        self,
        hash: NodeId,
        peer: NodeId,
        sequence: u64,
        expired: bool,
        now: u64,
    ) -> ReplayVerdict {
        self.swept(now).verdict(hash, peer, sequence, expired)
    }

    /// The state after a check at time `now`: swept, and with the proof
    /// marked as used if it was accepted.
    pub open spec fn after_check(
        self,
        hash: NodeId,
        peer: NodeId,
        sequence: u64,
        expired: bool,
        now: u64,
    ) -> ReplayModel {
        if self.check_verdict(hash, peer, sequence, expired, now) is Accepted {
            self.swept(now).marked(hash, peer, sequence, now)
        } else {
            self.swept(now)
        }
    }
}

/// The text with which a sequence number is turned away.
pub open spec fn out_of_order_text(got: u64, last: u64) -> Seq<char> {
    "Sequence number out of order: got "@ + decimal_text(got as nat) + ", expected > "@
        + decimal_text(last as nat)
}

/// The error with which a verdict other than acceptance is reported: a
/// replay error for a reused proof or a sequence number out of order, a
/// payment-verification error for an expired proof.
pub open spec fn rejection(verdict: ReplayVerdict, sequence: u64, last: u64) -> ErrorView {
    match verdict {
        ReplayVerdict::SequenceOutOfOrder => ErrorView {
            kind: ErrorKind::ReplayDetected,
            detail: out_of_order_text(sequence, last),
        },
        ReplayVerdict::Expired => ErrorView {
            kind: ErrorKind::PaymentVerification,
            detail: "Payment proof expired"@,
        },
        _ => ErrorView {
            kind: ErrorKind::ReplayDetected,
            detail: "Payment proof already used (replay detected)"@,
        },
    }
}

/// How a verdict is handed back: as `Ok(true)` for an accepted proof, as
/// the rejection for any other.
pub open spec fn reports(
    r: Result<bool, MeshError>,
    verdict: ReplayVerdict,
    sequence: u64,
    last: u64,
) -> bool {
    if verdict is Accepted {
        r == Ok::<bool, MeshError>(true)
    } else {
        r is Err && r->Err_0@ == rejection(verdict, sequence, last)
    }
}

/// Replay prevention for payment proofs.
pub struct ReplayPrevention {
    replay_data: DashMap<[u8; 32], ReplayEntry>,
    used_sequences: DashMap<[u8; 32], u64>,
    expiry_seconds: u64,
}

/// Statistics about replay prevention.
#[derive(Debug, Clone)]
pub struct ReplayStats {
    /// Number of proof hashes that are remembered.
    pub active_hashes: usize,
    /// Number of peers whose sequence number is remembered.
    pub tracked_peers: usize,
    /// Expiry time in seconds.
    pub expiry_seconds: u64,
}

impl View for ReplayPrevention {
    type V = ReplayModel;

    closed spec fn view(&self) -> ReplayModel {
        ReplayModel {
            entries: replay_entries(self.replay_data),
            sequences: peer_sequences(self.used_sequences),
            expiry_seconds: self.expiry_seconds,
        }
    }
}

impl ReplayPrevention {
    /// Creates a guard that remembers nothing yet.
    pub fn new(expiry_seconds: u64) -> (r: Self)
        ensures
            r@.entries == Map::<NodeId, ReplayEntry>::empty(),
            r@.sequences == Map::<NodeId, u64>::empty(),
            r@.expiry_seconds == expiry_seconds,
    {
        let r = Self {
            replay_data: new_replay_map(),
            used_sequences: new_sequence_map(),
            expiry_seconds,
        };
        assert(r@.entries =~= Map::<NodeId, ReplayEntry>::empty());
        assert(r@.sequences =~= Map::<NodeId, u64>::empty());
        r
    }

    /// Checks a proof at time `now`, and marks it as used if it is
    /// accepted.
    pub fn check_replay_at(
        &mut self,
        proof: &PaymentProof,
        peer_id: &NodeId,
        sequence: u64,
        now: u64,
    ) -> (r: Result<bool, MeshError>)
        ensures
            final(self)@ == old(self)@.after_check(
                proof_hash(proof@),
                *peer_id,
                sequence,
                proof@.expired_at(now),
                now,
            ),
            reports(
                r,
                old(self)@.check_verdict(
                    proof_hash(proof@),
                    *peer_id,
                    sequence,
                    proof@.expired_at(now),
                    now,
                ),
                sequence,
                old(self)@.sequences[*peer_id],
            ),
    {
        self.cleanup_expired_at(now);
        let proof_hash = proof.hash();
        if map_contains(&self.replay_data, &proof_hash) {
            return Err(
                MeshError::ReplayDetected(
                    String::from_str("Payment proof already used (replay detected)"),
                ),
            );
        }
        match map_get(&self.used_sequences, peer_id) {
            Some(last) => {
                if sequence <= last {
                    return Err(
                        MeshError::ReplayDetected(
                            String::from_str("Sequence number out of order: got ").concat(
                                decimal_string(sequence).as_str(),
                            ).concat(", expected > ").concat(decimal_string(last).as_str()),
                        ),
                    );
                }
            },
            None => {},
        }
        if proof.is_expired_at(now) {
            return Err(MeshError::PaymentVerification(String::from_str("Payment proof expired")));
        }
        map_insert(
            &mut self.replay_data,
            proof_hash,
            ReplayEntry { timestamp: now, peer_id: *peer_id, sequence },
        );
        map_insert(&mut self.used_sequences, *peer_id, sequence);
        Ok(true)
    }

    /// Checks a proof by the machine's clock.
    pub fn check_replay(&mut self, proof: &PaymentProof, peer_id: &NodeId, sequence: u64) -> (r:
        Result<bool, MeshError>)
        ensures
            exists|now: u64|
                {
                    &&& final(self)@ == #[trigger] old(self)@.after_check(
                        proof_hash(proof@),
                        *peer_id,
                        sequence,
                        proof@.expired_at(now),
                        now,
                    )
                    &&& reports(
                        r,
                        old(self)@.check_verdict(
                            proof_hash(proof@),
                            *peer_id,
                            sequence,
                            proof@.expired_at(now),
                            now,
                        ),
                        sequence,
                        old(self)@.sequences[*peer_id],
                    )
                },
    {
        let now = unix_now();
        self.check_replay_at(proof, peer_id, sequence, now)
    }

    /// Forgets the uses that are older than the expiry at time `now`.
    pub fn cleanup_expired_at(&mut self, now: u64)
        ensures
            final(self)@ == old(self)@.swept(now),
    {
        let keys = map_keys(&self.replay_data);
        let ghost before = self@;
        let mut i: usize = 0;
        while i < keys.len()
            invariant
                i <= keys@.len(),
                forall|k: NodeId| keys@.contains(k) <==> before.entries.contains_key(k),
                self@.sequences == before.sequences,
                self@.expiry_seconds == before.expiry_seconds,
                forall|k: NodeId|
                    #[trigger] self@.entries.contains_key(k) <==> (before.entries.contains_key(k)
                        && !(keys@.subrange(0, i as int).contains(k) && older_than(
                        before.entries[k].timestamp,
                        before.expiry_seconds,
                        now,
                    ))),
                forall|k: NodeId|
                    self@.entries.contains_key(k) ==> #[trigger] self@.entries[k]
                        == before.entries[k],
            decreases keys@.len() - i,
        {
            let key = keys[i];
            let ghost done = keys@.subrange(0, i as int);
            let ghost prev = self@.entries;
            assert(keys@.subrange(0, i + 1) =~= done.push(key));
            assert forall|k: NodeId| done.push(key).contains(k) <==> (done.contains(k) || k
                == key) by {
                lemma_push_contains(done, key, k);
            }
            assert(keys@.contains(key));
            let ghost stale = older_than(
                before.entries[key].timestamp,
                before.expiry_seconds,
                now,
            );
            match map_get(&self.replay_data, &key) {
                Some(entry) => {
                    assert(entry == prev[key]);
                    if is_older_than(entry.timestamp, self.expiry_seconds, now) {
                        map_remove(&mut self.replay_data, &key);
                        assert(self@.entries == prev.remove(key));
                    } else {
                        assert(self@.entries == prev);
                    }
                },
                None => {
                    assert(self@.entries == prev);
                },
            }
            assert(self@.entries == if prev.contains_key(key) && stale {
                prev.remove(key)
            } else {
                prev
            });
            i += 1;
        }
        assert(keys@.subrange(0, i as int) =~= keys@);
        assert(self@.entries =~= before.swept(now).entries);
    }

    /// Forgets the uses that are older than the expiry by the machine's
    /// clock.
    pub fn cleanup_expired(&mut self)
        ensures
            exists|now: u64| final(self)@ == #[trigger] old(self)@.swept(now),
    {
        let now = unix_now();
        self.cleanup_expired_at(now);
    }

    /// The number of hashes and peers that are remembered, and the expiry.
    pub fn stats(&self) -> (r: ReplayStats)
        ensures
            has_count(self@.entries, r.active_hashes),
            has_count(self@.sequences, r.tracked_peers),
            r.expiry_seconds == self@.expiry_seconds,
    {
        ReplayStats {
            active_hashes: map_len(&self.replay_data),
            tracked_peers: map_len(&self.used_sequences),
            expiry_seconds: self.expiry_seconds,
        }
    }
}

/// One call on the guard: a check of a proof, or a sweep.
pub enum ReplayOp {
    Check { hash: NodeId, peer: NodeId, sequence: u64, expired: bool, now: u64 },
    Sweep { now: u64 },
}

impl ReplayOp {
    /// The time at which the call is made.
    pub open spec fn time(self) -> u64 {
        match self {
            ReplayOp::Check { now, .. } => now,
            ReplayOp::Sweep { now } => now,
        }
    }
}

/// The state after one call.
pub open spec fn apply(s: ReplayModel, op: ReplayOp) -> ReplayModel {
    match op {
        ReplayOp::Check { hash, peer, sequence, expired, now } => s.after_check(
            hash,
            peer,
            sequence,
            expired,
            now,
        ),
        ReplayOp::Sweep { now } => s.swept(now),
    }
}

/// The state after a series of calls.
pub open spec fn run(s: ReplayModel, ops: Seq<ReplayOp>) -> ReplayModel
    decreases ops.len(),
{
    if ops.len() == 0 {
        s
    } else {
        apply(run(s, ops.drop_last()), ops.last())
    }
}

/// How the call at place `i` of a series ends, if it is a check.
pub open spec fn verdict_at(s: ReplayModel, ops: Seq<ReplayOp>, i: int) -> ReplayVerdict
    recommends
        0 <= i < ops.len(),
        ops[i] is Check,
{
    run(s, ops.take(i)).check_verdict(
        ops[i]->hash,
        ops[i]->peer,
        ops[i]->sequence,
        ops[i]->expired,
        ops[i].time(),
    )
}

/// The call at place `i` of a series is a check that accepts its proof.
pub open spec fn accepted_at(s: ReplayModel, ops: Seq<ReplayOp>, i: int) -> bool {
    0 <= i < ops.len() && ops[i] is Check && verdict_at(s, ops, i) is Accepted
}

proof fn lemma_run_step(s: ReplayModel, ops: Seq<ReplayOp>, k: int)
    requires
        0 <= k < ops.len(),
    ensures
        run(s, ops.take(k + 1)) == apply(run(s, ops.take(k)), ops[k]),
{
    assert(ops.take(k + 1).drop_last() =~= ops.take(k));
    assert(ops.take(k + 1).last() == ops[k]);
}

proof fn lemma_run_keeps_expiry(s: ReplayModel, ops: Seq<ReplayOp>, k: int)
    requires
        0 <= k <= ops.len(),
    ensures
        run(s, ops.take(k)).expiry_seconds == s.expiry_seconds,
    decreases k,
{
    if k > 0 {
        lemma_run_keeps_expiry(s, ops, k - 1);
        lemma_run_step(s, ops, k - 1);
    } else {
        assert(ops.take(0) =~= Seq::<ReplayOp>::empty());
    }
}

proof fn lemma_sequence_floor(s: ReplayModel, ops: Seq<ReplayOp>, i: int, k: int)
    requires
        accepted_at(s, ops, i),
        i < k <= ops.len(),
    ensures
        run(s, ops.take(k)).sequences.contains_key(ops[i]->peer),
        run(s, ops.take(k)).sequences[ops[i]->peer] >= ops[i]->sequence,
    decreases k - i,
{
    lemma_run_step(s, ops, k - 1);
    if k > i + 1 {
        lemma_sequence_floor(s, ops, i, k - 1);
    }
}

proof fn lemma_use_remembered(s: ReplayModel, ops: Seq<ReplayOp>, i: int, k: int)
    requires
        accepted_at(s, ops, i),
        i < k <= ops.len(),
        forall|m: int| i < m < k ==> (#[trigger] ops[m]).time() <= ops[i].time() + s.expiry_seconds,
    ensures
        run(s, ops.take(k)).entries.contains_key(ops[i]->hash),
        run(s, ops.take(k)).entries[ops[i]->hash].timestamp == ops[i].time(),
    decreases k - i,
{
    lemma_run_step(s, ops, k - 1);
    lemma_run_keeps_expiry(s, ops, k - 1);
    if k > i + 1 {
        lemma_use_remembered(s, ops, i, k - 1);
        assert(ops[k - 1].time() <= ops[i].time() + s.expiry_seconds);
    }
}

/// A peer's sequence numbers rise: of two accepted checks of one peer, the
/// later has the greater sequence number, whatever calls stand between
/// them. So once a sequence number was accepted from a peer, none that is
/// equal or smaller is accepted from that peer again.
pub proof fn lemma_sequences_rise(s: ReplayModel, ops: Seq<ReplayOp>, i: int, j: int)
    requires
        i < j,
        accepted_at(s, ops, i),
        accepted_at(s, ops, j),
        ops[i]->peer == ops[j]->peer,
    ensures
        ops[j]->sequence > ops[i]->sequence,
{
    lemma_sequence_floor(s, ops, i, j);
}

/// A proof is accepted once: after an accepted check, a later check of a
/// proof with the same hash is turned away as reused, from whichever peer
/// and under whichever sequence number it comes, as long as the first use
/// is remembered, that is, as long as no call since was made later than the
/// expiry allows.
pub proof fn lemma_proof_accepted_once(s: ReplayModel, ops: Seq<ReplayOp>, i: int, j: int)
    requires
        i < j < ops.len(),
        accepted_at(s, ops, i),
        ops[j] is Check,
        ops[j]->hash == ops[i]->hash,
        forall|m: int| i < m <= j ==> (#[trigger] ops[m]).time() <= ops[i].time() + s.expiry_seconds,
    ensures
        verdict_at(s, ops, j) is ProofReused,
        !accepted_at(s, ops, j),
{
    lemma_use_remembered(s, ops, i, j);
    lemma_run_keeps_expiry(s, ops, j);
    assert(ops[j].time() <= ops[i].time() + s.expiry_seconds);
}

/// The first sequence number of a peer may be any, zero too: a proof that
/// is new and alive is accepted from a peer of which no sequence number is
/// remembered. A sequence number that was accepted is not accepted again:
/// zero after zero is turned away.
pub proof fn lemma_first_and_repeated_sequence(
    s: ReplayModel,
    hash: NodeId,
    peer: NodeId,
    sequence: u64,
    now: u64,
)
    requires
        !s.swept(now).entries.contains_key(hash),
    ensures
        !s.sequences.contains_key(peer) ==> s.check_verdict(hash, peer, sequence, false, now)
            is Accepted,
        s.sequences.contains_key(peer) && s.sequences[peer] == sequence ==> s.check_verdict(
            hash,
            peer,
            sequence,
            false,
            now,
        ) is SequenceOutOfOrder,
        s.check_verdict(hash, peer, sequence, false, now) is Accepted ==> s.after_check(
            hash,
            peer,
            sequence,
            false,
            now,
        ).sequences[peer] == sequence,
{
}

} // verus!
