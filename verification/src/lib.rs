//! Payment-gated mesh packet routing: protocol classification, payment-proof
//! checks with replay protection, a routing table with route discovery, and
//! the forwarding decisions that tie them together.
//!
//! The library decides and keeps state; it sends nothing and asks the host
//! nothing. What is to be sent comes back to the caller. Every function
//! that reads the clock has a twin that takes the time as an argument.
//!
//! - `routing_policy`: which protocol a message speaks, and whether it
//!   travels free.
//! - `payment_proof`, `invoice`, `payment_verifier`: payment proofs and the
//!   verdict on them.
//! - `replay`: each proof once, each peer's sequence numbers rising.
//! - `routing`, `discovery`: routes, direct peers, and how routes are
//!   learnt.
//! - `packet`, `wire`, `network`: the mesh packet and its bytes on the wire.
//! - `manager`, `identity`: the forwarding engine and the node's identity.
//! - `concurrent_map`, `digest`, `clock`: the maps, digests and clock that
//!   other crates and the machine provide.

pub mod bytes;
pub mod clock;
pub mod concurrent_map;
pub mod digest;
pub mod discovery;
pub mod error;
pub mod identity;
pub mod invoice;
pub mod manager;
pub mod network;
pub mod packet;
pub mod payment_proof;
pub mod payment_verifier;
pub mod replay;
pub mod routing;
pub mod routing_policy;
pub mod text;
pub mod wire;
