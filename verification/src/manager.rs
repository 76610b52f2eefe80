//! The forwarding engine: it admits a packet, finds its route, and says
//! what is to be sent to whom.
//!
//! The manager decides; it sends nothing. A transmission comes back to the
//! caller, and so does a route request that is to be broadcast.

use crate::bytes::{array32_is_zero, is_zero32, slice_eq};
use crate::clock::unix_now;
use crate::concurrent_map::has_count;
use crate::digest::{hex_encode, hex_text, sha256, sha256_digest};
use crate::discovery::{
    discovered_route, discovery_step, is_pending, request_action, unexpired, with_advertised,
    without_request, ActionView, DiscoveryMessage, DiscoveryModel, DiscoveryStep, MessageView,
    RequestAction, RouteDiscovery, StepView,
};
use crate::error::{ErrorKind, ErrorView, MeshError};
use crate::network::{serialize_mesh_packet, wire_form};
use crate::packet::{route_contains, MeshPacket, NodeId, PacketView};
use crate::payment_proof::proof_hash;
use crate::payment_verifier::{
    proof_invoice, proof_verdict, CovenantReading, PaymentVerifier, ReadingView,
};
use crate::replay::{rejection, ReplayModel, ReplayPrevention, ReplayStats};
use crate::routing::{RoutingStats, RoutingTable, TableModel};
use crate::routing_policy::{
    detect_protocol_spec, mode_from_name, policy_for, MeshMode, RoutingPolicy, RoutingPolicyEngine,
};
use crate::wire::{copy_bytes, ids_view};
use vstd::prelude::*;
use vstd::slice::slice_subrange;
use vstd::string::{StringExecFns, StringSliceAdditionalSpecFns};
use vstd::utf8::encode_utf8;

verus! {

/// Seconds for which a used proof is remembered.
pub const REPLAY_EXPIRY_SECONDS: u64 = 86400;

/// Seconds after which a route is stale.
pub const ROUTE_EXPIRY_SECONDS: u64 = 3600;

/// Seconds after which a pending route request is given up.
pub const DISCOVERY_TIMEOUT_SECONDS: u64 = 30;

/// Hops that a route request of this node may travel.
pub const MAX_DISCOVERY_HOPS: u8 = 10;

/// Seconds between two sweeps of the background sweeper.
pub const SWEEP_PERIOD_SECONDS: u64 = 3600;

/// What is to be sent: bytes for the peer at an address.
#[derive(Debug)]
pub struct Transmission {
    /// The node that the bytes go to next.
    pub next_hop: NodeId,
    /// The transport address of that node.
    pub address: Vec<u8>,
    /// The packet on the wire.
    pub data: Vec<u8>,
}

/// What a transmission holds, as mathematical values.
pub struct TransmissionView {
    pub next_hop: NodeId,
    pub address: Seq<u8>,
    pub data: Seq<u8>,
}

impl View for Transmission {
    type V = TransmissionView;

    open spec fn view(&self) -> TransmissionView {
        TransmissionView { next_hop: self.next_hop, address: self.address@, data: self.data@ }
    }
}

/// How forwarding a packet ends: a transmission to make or an error, and a
/// route request to broadcast where one was recorded.
#[derive(Debug)]
pub struct Forwarding {
    pub result: Result<Transmission, MeshError>,
    pub broadcast: Option<DiscoveryMessage>,
}

/// What a forwarding holds, as mathematical values.
pub struct ForwardingView {
    pub result: Result<TransmissionView, ErrorView>,
    pub broadcast: Option<MessageView>,
}

impl View for Forwarding {
    type V = ForwardingView;

    open spec fn view(&self) -> ForwardingView {
        ForwardingView {
            result: match self.result {
                Ok(t) => Ok(t@),
                Err(e) => Err(e@),
            },
            broadcast: match self.broadcast {
                Some(m) => Some(m@),
                None => None,
            },
        }
    }
}

/// What becomes of a packet that came in.
#[derive(Debug)]
pub enum Disposition {
    /// The packet is for this node: hand it to the host.
    Deliver,
    /// The packet travels on: make this transmission.
    Forward(Transmission),
    /// The packet is neither for this node nor routed through it.
    Drop,
}

/// What a disposition holds, as mathematical values.
pub enum DispositionView {
    Deliver,
    Forward(TransmissionView),
    Drop,
}

impl View for Disposition {
    type V = DispositionView;

    open spec fn view(&self) -> DispositionView {
        match self {
            Disposition::Deliver => DispositionView::Deliver,
            Disposition::Forward(t) => DispositionView::Forward(t@),
            Disposition::Drop => DispositionView::Drop,
        }
    }
}

/// How handling an incoming packet ends: what becomes of it or an error,
/// and a route request to broadcast where one was recorded.
#[derive(Debug)]
pub struct Handling {
    pub result: Result<Disposition, MeshError>,
    pub broadcast: Option<DiscoveryMessage>,
}

/// What a handling holds, as mathematical values.
pub struct HandlingView {
    pub result: Result<DispositionView, ErrorView>,
    pub broadcast: Option<MessageView>,
}

impl View for Handling {
    type V = HandlingView;

    open spec fn view(&self) -> HandlingView {
        HandlingView {
            result: match self.result {
                Ok(d) => Ok(d@),
                Err(e) => Err(e@),
            },
            broadcast: match self.broadcast {
                Some(m) => Some(m@),
                None => None,
            },
        }
    }
}

/// An event of the host, as far as the mesh reads it.
#[derive(Debug)]
pub enum MeshEvent {
    /// A peer connected.
    PeerConnected { peer_addr: String, transport_type: String },
    /// A peer disconnected.
    PeerDisconnected { peer_addr: String },
    /// A message was received.
    MessageReceived,
    /// A payment was verified.
    PaymentVerified,
    /// Any other event.
    Other,
}

/// Statistics of the mesh.
#[derive(Debug)]
pub struct MeshStats {
    pub enabled: bool,
    pub mode: MeshMode,
    pub routing: RoutingStats,
    pub replay: ReplayStats,
}

/// What the manager holds.
pub struct ManagerModel {
    pub enabled: bool,
    pub mode: MeshMode,
    pub lightning_enabled: bool,
    pub ctv_enabled: bool,
    pub replay: ReplayModel,
    pub table: TableModel,
    pub discovery: DiscoveryModel,
    pub node_id: NodeId,
}

/// The error of a kind with a detail.
pub open spec fn failure(kind: ErrorKind, detail: Seq<char>) -> ErrorView {
    ErrorView { kind, detail }
}

/// The first eight bytes of an identifier in hexadecimal.
pub open spec fn short_id(id: NodeId) -> Seq<char> {
    hex_text(id@.subrange(0, 8))
}

/// The route with which a packet leaves a node: the node is put just before
/// the destination, unless it stands in the route already.
pub open spec fn outgoing_route(route: Seq<Seq<u8>>, node: Seq<u8>) -> Seq<Seq<u8>> {
    if route.len() == 0 || route.contains(node) {
        route
    } else {
        route.insert(route.len() - 1, node)
    }
}

/// The packet as it leaves a node.
pub open spec fn outgoing(p: PacketView, node: NodeId) -> PacketView {
    PacketView { route: outgoing_route(p.route, node@), ..p }
}

/// The node to which a packet for `destination` goes next on a route: the
/// second node of the route, or the destination itself on a route of one.
pub open spec fn next_hop_on(route: Seq<NodeId>, destination: NodeId) -> NodeId {
    if route.len() > 1 {
        route[1]
    } else {
        destination
    }
}

/// What the search for a route gives: the route if there is one, the states
/// of table and discovery after it, and a request to broadcast where one was
/// recorded.
pub struct RouteSearch {
    pub route: Option<Seq<NodeId>>,
    pub table: TableModel,
    pub discovery: DiscoveryModel,
    pub broadcast: Option<MessageView>,
}

impl ManagerModel {
    /// The policy for a message: free where the mesh is off, else by the
    /// protocol of the message and the mode.
    pub open spec fn policy(self, message: Seq<u8>) -> RoutingPolicy {
        if !self.enabled {
            RoutingPolicy::Free
        } else {
            policy_for(detect_protocol_spec(message), self.mode)
        }
    }

    /// Whether a packet needs a payment proof to be routed: it passes the
    /// first checks, and the policy for its payload asks for payment.
    pub open spec fn asks_payment(self, p: MeshPacket) -> bool {
        &&& self.enabled
        &&& p.payload@.len() > 0
        &&& !is_zero32(p.destination)
        &&& p.valid()
        &&& self.policy(p.payload@) == RoutingPolicy::PaymentRequired
    }

    /// The error with which a packet is turned away before forwarding, if it
    /// is: the mesh is off; the payload is empty or the destination is the
    /// zero hash; a structural rule is broken; or payment is asked and the
    /// proof is missing, is turned away by the replay guard, or fails
    /// verification.
    pub open spec fn refusal(self, p: MeshPacket, reading: ReadingView, now: u64) -> Option<
        ErrorView,
    > {
        if !self.enabled {
            Some(failure(ErrorKind::MeshDisabled, "Mesh is disabled"@))
        } else if p.payload@.len() == 0 {
            Some(failure(ErrorKind::InvalidPacket, "Empty payload"@))
        } else if is_zero32(p.destination) {
            Some(failure(ErrorKind::InvalidPacket, "Invalid destination (zero hash)"@))
        } else if !p.valid() {
            Some(failure(ErrorKind::InvalidPacket, p.complaint()))
        } else if self.policy(p.payload@) == RoutingPolicy::Free {
            None
        } else {
            match p.payment_proof {
                None => Some(
                    failure(
                        ErrorKind::PaymentVerification,
                        "Payment proof required for paid packets"@,
                    ),
                ),
                Some(f) => {
                    let seen = self.replay.check_verdict(
                        proof_hash(f@),
                        p.source,
                        p.sequence,
                        f@.expired_at(now),
                        now,
                    );
                    let verdict = proof_verdict(
                        self.lightning_enabled,
                        self.ctv_enabled,
                        f@,
                        proof_invoice(f@),
                        reading,
                        now,
                    );
                    if !(seen is Accepted) {
                        Some(rejection(seen, p.sequence, self.replay.sequences[p.source]))
                    } else if !verdict.verified {
                        Some(
                            failure(
                                ErrorKind::PaymentVerification,
                                match verdict.error {
                                    Some(why) => why,
                                    None => "Payment verification failed"@,
                                },
                            ),
                        )
                    } else {
                        None
                    }
                },
            }
        }
    }

    /// The replay guard after a packet was admitted or turned away: where
    /// payment was asked and a proof was there, the proof was checked.
    pub open spec fn replay_after(self, p: MeshPacket, now: u64) -> ReplayModel {
        match p.payment_proof {
            Some(f) => if self.asks_payment(p) {
                self.replay.after_check(
                    proof_hash(f@),
                    p.source,
                    p.sequence,
                    f@.expired_at(now),
                    now,
                )
            } else {
                self.replay
            },
            None => self.replay,
        }
    }

    /// The search for a route to a destination at time `now`, on behalf of
    /// this node. An error of the search counts as no route.
    pub open spec fn search(self, destination: NodeId, now: u64) -> RouteSearch {
        let outcome = discovery_step(self.discovery, self.table, destination, self.node_id, now);
        RouteSearch {
            route: match outcome.result {
                Ok(StepView::Found(path)) => Some(path),
                _ => None,
            },
            table: outcome.table,
            discovery: outcome.discovery,
            broadcast: match outcome.result {
                Ok(StepView::Broadcast(request)) => Some(request),
                _ => None,
            },
        }
    }

    /// Whether forwarding a packet gets as far as searching a route: the
    /// mesh is on, the payload is not empty, and the destination is not the
    /// zero hash.
    pub open spec fn searches(self, p: MeshPacket) -> bool {
        self.enabled && p.payload@.len() > 0 && !is_zero32(p.destination)
    }

    /// How forwarding a packet at time `now` ends.
    ///
    /// With the mesh off, an empty payload or the zero hash as destination
    /// it ends in an error at once. Else a route is searched; without one
    /// the route is not found. With one, the packet leaves with this node
    /// in its route, if it keeps the structural rules so; it goes to the
    /// next hop on the route, at the address that the table holds for that
    /// node, and without such an address the route is not found either.
    pub open spec fn forwarding(self, p: MeshPacket, now: u64) -> ForwardingView {
        if !self.enabled {
            ForwardingView {
                result: Err(failure(ErrorKind::MeshDisabled, "Mesh is disabled"@)),
                broadcast: None,
            }
        } else if p.payload@.len() == 0 {
            ForwardingView {
                result: Err(failure(ErrorKind::InvalidPacket, "Empty payload"@)),
                broadcast: None,
            }
        } else if is_zero32(p.destination) {
            ForwardingView {
                result: Err(
                    failure(ErrorKind::InvalidPacket, "Invalid destination (zero hash)"@),
                ),
                broadcast: None,
            }
        } else {
            let found = self.search(p.destination, now);
            let sent = outgoing(p@, self.node_id);
            ForwardingView {
                result: match found.route {
                    None => Err(
                        failure(
                            ErrorKind::RouteNotFound,
                            "No route to destination: "@ + short_id(p.destination),
                        ),
                    ),
                    Some(route) => {
                        let hop = next_hop_on(route, p.destination);
                        if !sent.valid() {
                            Err(failure(ErrorKind::InvalidPacket, sent.complaint()))
                        } else if found.table.routes.contains_key(hop)
                            && found.table.routes[hop].direct_address is Some {
                            Ok(
                                TransmissionView {
                                    next_hop: hop,
                                    address: found.table.routes[hop].direct_address->0,
                                    data: wire_form(sent),
                                },
                            )
                        } else {
                            Err(
                                failure(
                                    ErrorKind::RouteNotFound,
                                    "Next hop not found: "@ + short_id(hop),
                                ),
                            )
                        }
                    },
                },
                broadcast: found.broadcast,
            }
        }
    }

    /// The manager after forwarding a packet: table and discovery are as the
    /// search for the route left them.
    pub open spec fn after_forwarding(self, p: MeshPacket, now: u64) -> ManagerModel {
        if self.searches(p) {
            ManagerModel {
                table: self.search(p.destination, now).table,
                discovery: self.search(p.destination, now).discovery,
                ..self
            }
        } else {
            self
        }
    }

    /// How routing a packet of this node's own at time `now` ends: in the
    /// error with which the packet is turned away, or as forwarding it ends.
    pub open spec fn routing(self, p: MeshPacket, reading: ReadingView, now: u64)
        -> ForwardingView {
        match self.refusal(p, reading, now) {
            Some(e) => ForwardingView { result: Err(e), broadcast: None },
            None => self.forwarding(p, now),
        }
    }

    /// The manager after routing a packet: the replay guard has checked the
    /// proof where payment was asked, and an admitted packet was forwarded.
    pub open spec fn after_routing(self, p: MeshPacket, reading: ReadingView, now: u64)
        -> ManagerModel {
        let checked = ManagerModel { replay: self.replay_after(p, now), ..self };
        if self.refusal(p, reading, now) is None {
            checked.after_forwarding(p, now)
        } else {
            checked
        }
    }

    /// How handling a packet that came in at time `now` ends: with the mesh
    /// off or a structural rule broken, in an error; a packet for this node
    /// is delivered; one that has this node in its route is forwarded; any
    /// other is dropped.
    pub open spec fn handling(self, p: MeshPacket, now: u64) -> HandlingView {
        if !self.enabled {
            HandlingView {
                result: Err(failure(ErrorKind::MeshDisabled, "Mesh is disabled"@)),
                broadcast: None,
            }
        } else if !p.valid() {
            HandlingView {
                result: Err(failure(ErrorKind::InvalidPacket, p.complaint())),
                broadcast: None,
            }
        } else if p.destination == self.node_id {
            HandlingView { result: Ok(DispositionView::Deliver), broadcast: None }
        } else if p.route@.contains(self.node_id) {
            HandlingView {
                result: match self.forwarding(p, now).result {
                    Ok(t) => Ok(DispositionView::Forward(t)),
                    Err(e) => Err(e),
                },
                broadcast: self.forwarding(p, now).broadcast,
            }
        } else {
            HandlingView { result: Ok(DispositionView::Drop), broadcast: None }
        }
    }

    /// The manager after handling a packet that came in: changed only by
    /// forwarding.
    pub open spec fn after_handling(self, p: MeshPacket, now: u64) -> ManagerModel {
        if self.enabled && p.valid() && p.destination != self.node_id && p.route@.contains(
            self.node_id,
        ) {
            self.after_forwarding(p, now)
        } else {
            self
        }
    }

    /// The manager after an event at time `now`: a peer that connected is a
    /// direct peer, under the digest of its address; a peer that
    /// disconnected is one no more. With the mesh off nothing changes.
    pub open spec fn after_event(self, event: MeshEvent, now: u64) -> ManagerModel {
        if !self.enabled {
            self
        } else {
            match event {
                MeshEvent::PeerConnected { peer_addr, .. } => ManagerModel {
                    table: self.table.with_direct_peer(
                        sha256(encode_utf8(peer_addr@)),
                        encode_utf8(peer_addr@),
                        now,
                    ),
                    ..self
                },
                MeshEvent::PeerDisconnected { peer_addr } => ManagerModel {
                    table: self.table.without_direct_peer(sha256(encode_utf8(peer_addr@))),
                    ..self
                },
                _ => self,
            }
        }
    }

    /// What is done about a discovery message at time `now`: a request is
    /// answered, sent on or dropped; a response and an advertisement are
    /// taken in and need no answer. A response to a pending request that
    /// names no next hop is a routing error. With the mesh off every message
    /// is dropped.
    pub open spec fn discovery_reply(self, message: MessageView, now: u64) -> Result<
        ActionView,
        ErrorView,
    > {
        if !self.enabled {
            Ok(ActionView::Drop)
        } else {
            match message {
                MessageView::RouteRequest { destination, source, request_id, max_hops } => Ok(
                    request_action(
                        self.table,
                        destination,
                        source,
                        request_id,
                        max_hops,
                        self.node_id,
                        now,
                    ),
                ),
                MessageView::RouteResponse { request_id, route, .. } => if is_pending(
                    self.discovery.pending,
                    request_id,
                ) && route.len() < 2 {
                    Err(failure(ErrorKind::Routing, "Route response names no next hop"@))
                } else {
                    Ok(ActionView::Drop)
                },
                MessageView::RouteAdvertisement { .. } => Ok(ActionView::Drop),
            }
        }
    }

    /// The manager after a discovery message at time `now`: a request may
    /// fill the route cache; a response to a pending request puts its route
    /// into the table and ends the request; an advertisement puts its routes
    /// into the table.
    pub open spec fn after_discovery_message(self, message: MessageView, now: u64)
        -> ManagerModel {
        if !self.enabled {
            self
        } else {
            match message {
                MessageView::RouteRequest { destination, .. } => ManagerModel {
                    table: self.table.after_lookup(destination, now),
                    ..self
                },
                MessageView::RouteResponse { destination, request_id, route, cost, .. } => {
                    if is_pending(self.discovery.pending, request_id) && route.len() >= 2 {
                        ManagerModel {
                            table: self.table.with_route(
                                discovered_route(destination, route, cost, now),
                            ),
                            discovery: DiscoveryModel {
                                pending: without_request(self.discovery.pending, request_id),
                                ..self.discovery
                            },
                            ..self
                        }
                    } else {
                        self
                    }
                },
                MessageView::RouteAdvertisement { routes, source } => ManagerModel {
                    table: with_advertised(self.table, source, routes, now),
                    ..self
                },
            }
        }
    }

    /// The manager after a sweep at time `now`: stale routes, remembered
    /// proofs past the expiry and pending requests past the timeout are
    /// gone.
    pub open spec fn swept(self, now: u64) -> ManagerModel {
        ManagerModel {
            table: self.table.swept(now),
            replay: self.replay.swept(now),
            discovery: DiscoveryModel {
                pending: unexpired(
                    self.discovery.pending,
                    self.discovery.timeout_seconds,
                    now,
                ),
                ..self.discovery
            },
            ..self
        }
    }
}

/// The views of identifiers hold an identifier's view exactly where the
/// identifiers hold the identifier.
pub proof fn lemma_ids_view_contains(route: Seq<NodeId>, node: NodeId)
    ensures
        ids_view(route).contains(node@) <==> route.contains(node),
{
    if ids_view(route).contains(node@) {
        let i = choose|i: int| 0 <= i < ids_view(route).len() && ids_view(route)[i] == node@;
        assert(route[i]@ == node@);
        assert(route[i] =~= node);
    }
    if route.contains(node) {
        let i = choose|i: int| 0 <= i < route.len() && route[i] == node;
        assert(ids_view(route)[i] == node@);
    }
}

/// Putting a node into the route of a packet keeps the ends of the route:
/// a route of two or more nodes still starts at its first node and ends at
/// its last.
pub proof fn lemma_outgoing_keeps_ends(p: PacketView, node: NodeId)
    requires
        p.route.len() >= 2,
    ensures
        outgoing(p, node).route[0] == p.route[0],
        outgoing(p, node).route.last() == p.route.last(),
        outgoing(p, node).route.len() <= p.route.len() + 1,
{
}

/// A packet that left a node leaves it unchanged the next time: the node is
/// put into the route once.
pub proof fn lemma_outgoing_once(p: PacketView, node: NodeId)
    ensures
        outgoing(outgoing(p, node), node) == outgoing(p, node),
{
    let once = outgoing_route(p.route, node@);
    if p.route.len() > 0 && !p.route.contains(node@) {
        assert(once[p.route.len() - 1] == node@);
        assert(once.contains(node@));
    }
}

/// Mesh manager: the state of the mesh and the decisions on it.
pub struct MeshManager {
    enabled: bool,
    routing_policy: RoutingPolicyEngine,
    payment_verifier: PaymentVerifier,
    replay_prevention: ReplayPrevention,
    routing_table: RoutingTable,
    route_discovery: RouteDiscovery,
    node_id: NodeId,
}

impl View for MeshManager {
    type V = ManagerModel;

    closed spec fn view(&self) -> ManagerModel {
        ManagerModel {
            enabled: self.enabled,
            mode: self.routing_policy.spec_mode(),
            lightning_enabled: self.payment_verifier.lightning_enabled(),
            ctv_enabled: self.payment_verifier.ctv_enabled(),
            replay: self.replay_prevention@,
            table: self.routing_table@,
            discovery: self.route_discovery@,
            node_id: self.node_id,
        }
    }
}

/// A fresh manager's state: nothing is remembered yet.
pub open spec fn initial_model(enabled: bool, mode: MeshMode, node_id: NodeId) -> ManagerModel {
    ManagerModel {
        enabled,
        mode,
        lightning_enabled: true,
        ctv_enabled: true,
        replay: ReplayModel {
            entries: Map::empty(),
            sequences: Map::empty(),
            expiry_seconds: REPLAY_EXPIRY_SECONDS,
        },
        table: TableModel {
            routes: Map::empty(),
            direct_peers: Map::empty(),
            cache: Map::empty(),
            route_expiry_seconds: ROUTE_EXPIRY_SECONDS,
        },
        discovery: DiscoveryModel {
            pending: Map::empty(),
            counter: 0,
            max_hops: MAX_DISCOVERY_HOPS,
            timeout_seconds: DISCOVERY_TIMEOUT_SECONDS,
        },
        node_id,
    }
}

fn short_hex(id: &NodeId) -> (r: String)
    ensures
        r@ == short_id(*id),
{
    hex_encode(slice_subrange(id.as_slice(), 0, 8))
}

fn refuse(e: MeshError) -> (r: Forwarding)
    ensures
        r@ == (ForwardingView { result: Err(e@), broadcast: None }),
{
    Forwarding { result: Err(e), broadcast: None }
}

impl MeshManager {
    /// The state keeps its internal rules: every pending route request
    /// stands under its own identifier, and none is above the counter.
    pub open spec fn well_formed(&self) -> bool {
        self@.discovery.well_formed()
    }

    /// Creates a manager from the settings `mesh.enabled` and `mesh.mode`
    /// and the node's identity. The mesh is on exactly for the setting
    /// `true`.
    pub fn new(enabled_setting: &str, mode_setting: &str, node_id: NodeId) -> (r: Self)
        ensures
            r@ == initial_model(
                enabled_setting.spec_bytes() == "true".spec_bytes(),
                mode_from_name(mode_setting.spec_bytes()),
                node_id,
            ),
            r.well_formed(),
    {
        let enabled = slice_eq(enabled_setting.as_bytes(), "true".as_bytes());
        let mode = MeshMode::from(mode_setting);
        Self {
            enabled,
            routing_policy: RoutingPolicyEngine::new(mode),
            payment_verifier: PaymentVerifier::new(),
            replay_prevention: ReplayPrevention::new(REPLAY_EXPIRY_SECONDS),
            routing_table: RoutingTable::new(ROUTE_EXPIRY_SECONDS),
            route_discovery: RouteDiscovery::new(MAX_DISCOVERY_HOPS, DISCOVERY_TIMEOUT_SECONDS),
            node_id,
        }
    }

    /// The identity of this node.
    pub fn node_id(&self) -> (r: NodeId)
        ensures
            r == self@.node_id,
    {
        self.node_id
    }

    /// Whether the mesh is on.
    pub fn is_enabled(&self) -> (r: bool)
        ensures
            r == self@.enabled,
    {
        self.enabled
    }

    /// The routing policy for a message.
    pub fn determine_routing_policy(&self, message: &[u8]) -> (r: RoutingPolicy)
        ensures
            r == self@.policy(message@),
    {
        if !self.enabled {
            return RoutingPolicy::Free;
        }
        let protocol = self.routing_policy.detect_protocol(message);
        self.routing_policy.determine_policy(protocol)
    }

    /// The checks before forwarding: the first error, if there is one.
    fn admit_at(&mut self, packet: &MeshPacket, reading: &CovenantReading, now: u64) -> (r: Result<
        (),
        MeshError,
    >)
        requires
            old(self).well_formed(),
        ensures
            final(self)@ == (ManagerModel { replay: old(self)@.replay_after(*packet, now), ..old(self)@ }),
            match r {
                Ok(()) => old(self)@.refusal(*packet, reading@, now) is None,
                Err(e) => old(self)@.refusal(*packet, reading@, now) == Some(e@),
            },
    {
        if !self.enabled {
            return Err(MeshError::MeshDisabled(String::from_str("Mesh is disabled")));
        }
        if packet.payload.len() == 0 {
            return Err(MeshError::InvalidPacket(String::from_str("Empty payload")));
        }
        if array32_is_zero(&packet.destination) {
            return Err(
                MeshError::InvalidPacket(String::from_str("Invalid destination (zero hash)")),
            );
        }
        match packet.validate() {
            Ok(()) => {},
            Err(m) => {
                return Err(MeshError::InvalidPacket(m));
            },
        }
        let policy = self.determine_routing_policy(packet.payload.as_slice());
        if policy == RoutingPolicy::PaymentRequired {
            match &packet.payment_proof {
                Some(payment) => {
                    match self.replay_prevention.check_replay_at(
                        payment,
                        &packet.source,
                        packet.sequence,
                        now,
                    ) {
                        Ok(_) => {},
                        Err(e) => {
                            return Err(e);
                        },
                    }
                    let verification = self.payment_verifier.verify_at(payment, reading, now);
                    if !verification.verified {
                        let why = match verification.error {
                            Some(why) => why,
                            None => String::from_str("Payment verification failed"),
                        };
                        return Err(MeshError::PaymentVerification(why));
                    }
                },
                None => {
                    return Err(
                        MeshError::PaymentVerification(
                            String::from_str("Payment proof required for paid packets"),
                        ),
                    );
                },
            }
        }
        Ok(())
    }

    /// Routes a packet of this node's own at time `now`: the packet is
    /// admitted or turned away, and an admitted packet is forwarded.
    pub fn route_packet_at(&mut self, packet: &MeshPacket, reading: &CovenantReading, now: u64) -> (r:
        Forwarding)
        requires
            old(self).well_formed(),
        ensures
            r@ == old(self)@.routing(*packet, reading@, now),
            final(self)@ == old(self)@.after_routing(*packet, reading@, now),
            final(self).well_formed(),
    {
        match self.admit_at(packet, reading, now) {
            Ok(()) => {},
            Err(e) => {
                return refuse(e);
            },
        }
        self.forward_packet_at(packet, now)
    }

    /// Routes a packet of this node's own by the machine's clock.
    pub fn route_packet(&mut self, packet: &MeshPacket, reading: &CovenantReading) -> (r: Forwarding)
        requires
            old(self).well_formed(),
        ensures
            exists|now: u64|
                {
                    &&& r@ == #[trigger] old(self)@.routing(*packet, reading@, now)
                    &&& final(self)@ == old(self)@.after_routing(*packet, reading@, now)
                },
            final(self).well_formed(),
    {
        let now = unix_now();
        self.route_packet_at(packet, reading, now)
    }

    /// Forwards a packet towards its destination at time `now`.
    pub fn forward_packet_at(&mut self, packet: &MeshPacket, now: u64) -> (r: Forwarding)
        requires
            old(self).well_formed(),
        ensures
            r@ == old(self)@.forwarding(*packet, now),
            final(self)@ == old(self)@.after_forwarding(*packet, now),
            final(self).well_formed(),
    {
        if !self.enabled {
            return refuse(MeshError::MeshDisabled(String::from_str("Mesh is disabled")));
        }
        if packet.payload.len() == 0 {
            return refuse(MeshError::InvalidPacket(String::from_str("Empty payload")));
        }
        if array32_is_zero(&packet.destination) {
            return refuse(
                MeshError::InvalidPacket(String::from_str("Invalid destination (zero hash)")),
            );
        }
        let ghost before = self@;
        let ghost found = before.search(packet.destination, now);
        let step = self.route_discovery.discover_route_at(
            &mut self.routing_table,
            packet.destination,
            self.node_id,
            now,
        );
        let route = match step {
            Ok(DiscoveryStep::Found(route)) => route,
            Ok(DiscoveryStep::Broadcast(request)) => {
                return Forwarding {
                    result: Err(
                        MeshError::RouteNotFound(
                            String::from_str("No route to destination: ").concat(
                                short_hex(&packet.destination).as_str(),
                            ),
                        ),
                    ),
                    broadcast: Some(request),
                };
            },
            Err(_) => {
                return refuse(
                    MeshError::RouteNotFound(
                        String::from_str("No route to destination: ").concat(
                            short_hex(&packet.destination).as_str(),
                        ),
                    ),
                );
            },
        };
        assert(found.route == Some(route@));
        let next_hop: NodeId = if route.len() > 1 {
            route[1]
        } else {
            packet.destination
        };
        proof {
            lemma_ids_view_contains(packet.route@, self.node_id);
        }
        let serialized = if packet.route.len() == 0 || route_contains(
            packet.route.as_slice(),
            &self.node_id,
        ) {
            assert(outgoing(packet@, self.node_id) == packet@);
            serialize_mesh_packet(packet)
        } else {
            let mut leaving = packet.clone();
            leaving.add_to_route(self.node_id);
            assert(leaving@ == outgoing(packet@, self.node_id)) by {
                assert(ids_view(leaving.route@) =~= ids_view(packet.route@).insert(
                    packet.route@.len() - 1,
                    self.node_id@,
                ));
            }
            serialize_mesh_packet(&leaving)
        };
        let data = match serialized {
            Ok(data) => data,
            Err(e) => {
                return refuse(e);
            },
        };
        match self.routing_table.get_route(&next_hop) {
            Some(entry) => match entry.direct_address {
                Some(address) => {
                    return Forwarding {
                        result: Ok(Transmission { next_hop, address, data }),
                        broadcast: None,
                    };
                },
                None => {},
            },
            None => {},
        }
        refuse(
            MeshError::RouteNotFound(
                String::from_str("Next hop not found: ").concat(short_hex(&next_hop).as_str()),
            ),
        )
    }

    /// Forwards a packet towards its destination by the machine's clock.
    pub fn forward_packet(&mut self, packet: &MeshPacket) -> (r: Forwarding)
        requires
            old(self).well_formed(),
        ensures
            exists|now: u64|
                {
                    &&& r@ == #[trigger] old(self)@.forwarding(*packet, now)
                    &&& final(self)@ == old(self)@.after_forwarding(*packet, now)
                },
            final(self).well_formed(),
    {
        let now = unix_now();
        self.forward_packet_at(packet, now)
    }

    /// Handles a packet that came in from the wire at time `now`.
    pub fn handle_incoming_packet_at(&mut self, packet: &MeshPacket, now: u64) -> (r: Handling)
        requires
            old(self).well_formed(),
        ensures
            r@ == old(self)@.handling(*packet, now),
            final(self)@ == old(self)@.after_handling(*packet, now),
            final(self).well_formed(),
    {
        if !self.enabled {
            return Handling {
                result: Err(MeshError::MeshDisabled(String::from_str("Mesh is disabled"))),
                broadcast: None,
            };
        }
        match packet.validate() {
            Ok(()) => {},
            Err(m) => {
                return Handling { result: Err(MeshError::InvalidPacket(m)), broadcast: None };
            },
        }
        if packet.is_for_me(&self.node_id) {
            return Handling { result: Ok(Disposition::Deliver), broadcast: None };
        }
        if packet.should_forward(&self.node_id) {
            let forwarding = self.forward_packet_at(packet, now);
            let result = match forwarding.result {
                Ok(t) => Ok(Disposition::Forward(t)),
                Err(e) => Err(e),
            };
            Handling { result, broadcast: forwarding.broadcast }
        } else {
            Handling { result: Ok(Disposition::Drop), broadcast: None }
        }
    }

    /// Handles a packet that came in from the wire by the machine's clock.
    pub fn handle_incoming_packet(&mut self, packet: &MeshPacket) -> (r: Handling)
        requires
            old(self).well_formed(),
        ensures
            exists|now: u64|
                {
                    &&& r@ == #[trigger] old(self)@.handling(*packet, now)
                    &&& final(self)@ == old(self)@.after_handling(*packet, now)
                },
            final(self).well_formed(),
    {
        let now = unix_now();
        self.handle_incoming_packet_at(packet, now)
    }

    /// Takes in an event of the host at time `now`.
    pub fn handle_event_at(&mut self, event: &MeshEvent, now: u64) -> (r: Result<(), MeshError>)
        ensures
            r is Ok,
            final(self)@ == old(self)@.after_event(*event, now),
            old(self).well_formed() ==> final(self).well_formed(),
    {
        if !self.enabled {
            return Ok(());
        }
        match event {
            MeshEvent::PeerConnected { peer_addr, .. } => {
                let peer_node_id = derive_node_id_from_address(peer_addr.as_str());
                let address = copy_bytes(peer_addr.as_str().as_bytes());
                self.routing_table.add_direct_peer_at(peer_node_id, address, now);
            },
            MeshEvent::PeerDisconnected { peer_addr } => {
                let peer_node_id = derive_node_id_from_address(peer_addr.as_str());
                self.routing_table.remove_direct_peer(&peer_node_id);
            },
            _ => {},
        }
        Ok(())
    }

    /// Takes in an event of the host by the machine's clock.
    pub fn handle_event(&mut self, event: &MeshEvent) -> (r: Result<(), MeshError>)
        ensures
            r is Ok,
            exists|now: u64| final(self)@ == #[trigger] old(self)@.after_event(*event, now),
            old(self).well_formed() ==> final(self).well_formed(),
    {
        let now = unix_now();
        self.handle_event_at(event, now)
    }

    /// Takes in a discovery message from a neighbour at time `now`, and
    /// says what is to be sent in answer.
    pub fn handle_discovery_message_at(
        &mut self,
        message: &DiscoveryMessage,
        from_node: NodeId,
        now: u64,
    ) -> (r: Result<RequestAction, MeshError>)
        requires
            old(self).well_formed(),
        ensures
            match r {
                Ok(action) => old(self)@.discovery_reply(message@, now) == Ok::<
                    ActionView,
                    ErrorView,
                >(action@),
                Err(e) => old(self)@.discovery_reply(message@, now) == Err::<
                    ActionView,
                    ErrorView,
                >(e@),
            },
            final(self)@ == old(self)@.after_discovery_message(message@, now),
            final(self).well_formed(),
    {
        if !self.enabled {
            return Ok(RequestAction::Drop);
        }
        match message {
            DiscoveryMessage::RouteRequest { .. } => self.route_discovery.handle_route_request(
                &mut self.routing_table,
                message,
                from_node,
                &self.node_id,
                now,
            ),
            DiscoveryMessage::RouteResponse { request_id, route, .. } => {
                if route.len() < 2 && self.route_discovery.has_pending(*request_id) {
                    return Err(
                        MeshError::RoutingError(
                            String::from_str("Route response names no next hop"),
                        ),
                    );
                }
                let _ = self.route_discovery.handle_route_response_at(
                    &mut self.routing_table,
                    message,
                    from_node,
                    now,
                );
                Ok(RequestAction::Drop)
            },
            DiscoveryMessage::RouteAdvertisement { .. } => {
                let _ = self.route_discovery.handle_route_advertisement_at(
                    &mut self.routing_table,
                    message,
                    from_node,
                    now,
                );
                Ok(RequestAction::Drop)
            },
        }
    }

    /// The routing table.
    pub fn routing_table(&self) -> (r: &RoutingTable)
        ensures
            r@ == self@.table,
    {
        &self.routing_table
    }

    /// Route discovery.
    pub fn route_discovery(&self) -> (r: &RouteDiscovery)
        ensures
            r@ == self@.discovery,
    {
        &self.route_discovery
    }

    /// Sweeps the routing table, the replay guard and the pending route
    /// requests, in this order, at time `now`.
    pub fn cleanup_expired_at(&mut self, now: u64)
        requires
            old(self).well_formed(),
        ensures
            final(self)@ == old(self)@.swept(now),
            final(self).well_formed(),
    {
        self.routing_table.cleanup_expired_at(now);
        self.replay_prevention.cleanup_expired_at(now);
        self.route_discovery.cleanup_expired_at(now);
    }

    /// Statistics of routing and replay prevention.
    pub fn get_stats(&self) -> (r: MeshStats)
        ensures
            r.enabled == self@.enabled,
            r.mode == self@.mode,
            has_count(self@.table.routes, r.routing.total_routes),
            has_count(self@.table.direct_peers, r.routing.direct_peers),
            has_count(self@.table.cache, r.routing.cached_routes),
            r.routing.route_expiry_seconds == self@.table.route_expiry_seconds,
            has_count(self@.replay.entries, r.replay.active_hashes),
            has_count(self@.replay.sequences, r.replay.tracked_peers),
            r.replay.expiry_seconds == self@.replay.expiry_seconds,
    {
        MeshStats {
            enabled: self.enabled,
            mode: self.routing_policy.mode(),
            routing: self.routing_table.stats(),
            replay: self.replay_prevention.stats(),
        }
    }
}

/// The identity under which a peer at an address is known: the SHA-256
/// digest of the address.
pub fn derive_node_id_from_address(peer_addr: &str) -> (r: NodeId)
    ensures
        r == sha256(peer_addr.spec_bytes()),
{
    sha256_digest(peer_addr.as_bytes())
}

} // verus!
