//! The identity of this node: read from what was stored, or made from what
//! the host reports and then to be stored.

use crate::digest::{sha256, sha256_digest};
use crate::packet::NodeId;
use crate::wire::{put_id, put_slice, put_u64, ser_u64};
use vstd::prelude::*;
use vstd::string::StringSliceAdditionalSpecFns;

verus! {

/// The figures of the host's network statistics that seed an identity.
#[derive(Debug, Clone, Copy)]
pub struct NetworkFigures {
    /// Number of peers.
    pub peer_count: u64,
    /// Hash rate, as the bits of the number that the host reports.
    pub hash_rate: u64,
}

/// An identity, and whether it is yet to be stored.
#[derive(Debug, Clone, Copy)]
pub struct NodeIdentity {
    /// The node's identifier.
    pub node_id: NodeId,
    /// Whether the identifier was made just now, and is to be stored.
    pub persist: bool,
}

/// 32 zero bytes.
pub open spec fn zero_hash() -> Seq<u8> {
    Seq::new(32, |i: int| 0u8)
}

/// The seed from the network statistics: peer count and hash rate, the
/// chain tip and the block height where the host gave them, each in
/// little-endian binary, and a tag.
pub open spec fn network_seed(
    figures: NetworkFigures,
    chain_tip: Option<NodeId>,
    block_height: Option<u64>,
) -> Seq<u8> {
    ser_u64(figures.peer_count) + ser_u64(figures.hash_rate) + (match chain_tip {
        Some(tip) => tip@,
        None => Seq::empty(),
    }) + (match block_height {
        Some(height) => ser_u64(height),
        None => Seq::empty(),
    }) + "bllvm_mesh_node_id_v1".spec_bytes()
}

/// The seed without network statistics: the chain tip, or zeros; the block
/// height, or zero; and a tag.
pub open spec fn fallback_seed(chain_tip: Option<NodeId>, block_height: Option<u64>) -> Seq<u8> {
    (match chain_tip {
        Some(tip) => tip@,
        None => zero_hash(),
    }) + ser_u64(
        match block_height {
            Some(height) => height,
            None => 0,
        },
    ) + "mesh_node_id".spec_bytes()
}

/// The identifier made from what the host reports: the SHA-256 digest of
/// the seed.
pub open spec fn generated_node_id(
    figures: Option<NetworkFigures>,
    chain_tip: Option<NodeId>,
    block_height: Option<u64>,
) -> NodeId {
    match figures {
        Some(f) => sha256(network_seed(f, chain_tip, block_height)),
        None => sha256(fallback_seed(chain_tip, block_height)),
    }
}

/// The identifier that stored bytes hold: the bytes, if they are 32.
pub open spec fn stored_identifier(stored: Seq<u8>) -> Option<Seq<u8>> {
    if stored.len() == 32 {
        Some(stored)
    } else {
        None
    }
}

/// Reads an identifier from stored bytes.
pub fn stored_node_id(stored: &[u8]) -> (r: Option<NodeId>)
    ensures
        match r {
            Some(id) => stored_identifier(stored@) == Some(id@),
            None => stored_identifier(stored@) is None,
        },
{
    if stored.len() != 32 {
        return None;
    }
    let mut id: NodeId = [0u8;32];
    let mut i: usize = 0;
    while i < 32
        invariant
            i <= 32,
            stored@.len() == 32,
            forall|j: int| 0 <= j < i ==> id@[j] == stored@[j],
        decreases 32 - i,
    {
        id[i] = stored[i];
        i += 1;
    }
    assert(id@ =~= stored@);
    Some(id)
}

/// Makes an identifier from what the host reports.
pub fn generate_node_id(
    figures: Option<NetworkFigures>,
    chain_tip: Option<NodeId>,
    block_height: Option<u64>,
) -> (r: NodeId)
    ensures
        r == generated_node_id(figures, chain_tip, block_height),
{
    let mut seed: Vec<u8> = Vec::new();
    match figures {
        Some(f) => {
            put_u64(&mut seed, f.peer_count);
            put_u64(&mut seed, f.hash_rate);
            match chain_tip {
                Some(tip) => {
                    put_id(&mut seed, &tip);
                },
                None => {},
            }
            match block_height {
                Some(height) => {
                    put_u64(&mut seed, height);
                },
                None => {},
            }
            put_slice(&mut seed, "bllvm_mesh_node_id_v1".as_bytes());
            assert(seed@ =~= network_seed(f, chain_tip, block_height));
        },
        None => {
            match chain_tip {
                Some(tip) => {
                    put_id(&mut seed, &tip);
                },
                None => {
                    let zeros: NodeId = [0u8;32];
                    put_id(&mut seed, &zeros);
                    assert(zeros@ =~= zero_hash());
                },
            }
            let height: u64 = match block_height {
                Some(height) => height,
                None => 0,
            };
            put_u64(&mut seed, height);
            put_slice(&mut seed, "mesh_node_id".as_bytes());
            assert(seed@ =~= fallback_seed(chain_tip, block_height));
        },
    }
    sha256_digest(seed.as_slice())
}

/// The node's identity: the stored one where 32 bytes were stored, else one
/// made from what the host reports, which is to be stored.
pub fn get_or_generate_node_id(
    stored: Option<&[u8]>,
    figures: Option<NetworkFigures>,
    chain_tip: Option<NodeId>,
    block_height: Option<u64>,
) -> (r: NodeIdentity)
    ensures
        match stored {
            Some(bytes) if bytes@.len() == 32 => r.node_id@ == bytes@ && !r.persist,
            _ => r.node_id == generated_node_id(figures, chain_tip, block_height) && r.persist,
        },
{
    match stored {
        Some(bytes) => match stored_node_id(bytes) {
            Some(node_id) => {
                return NodeIdentity { node_id, persist: false };
            },
            None => {},
        },
        None => {},
    }
    NodeIdentity { node_id: generate_node_id(figures, chain_tip, block_height), persist: true }
}

} // verus!
