//! Route discovery: requests, responses and advertisements.
//!
//! Discovery decides and records; it sends nothing. What is to be sent comes
//! back to the caller as a directive.

use crate::bytes::array32_eq;
use crate::clock::{is_older_than, older_than, unix_now};
use crate::error::{ErrorKind, ErrorView, MeshError};
use crate::packet::NodeId;
use crate::routing::{
    RouteView, RoutingEntry, RoutingTable, TableModel, QUALITY_ADVERTISED, QUALITY_DISCOVERED,
};
use crate::bytes::lemma_push_contains;
use crate::wire::copy_ids;
use std::collections::HashMap;
use vstd::prelude::*;
use vstd::std_specs::hash::spec_keys_iter;
use vstd::std_specs::iter::IteratorSpec;
use vstd::string::StringExecFns;

verus! {

/// Cost that a responder names for each node of a route it knows.
pub const COST_PER_HOP: u64 = 100;

/// Route advertisement entry.
#[derive(Debug, Clone, Copy)]
pub struct RouteAdvertisementEntry {
    pub destination: NodeId,
    pub next_hop: NodeId,
    pub cost: u64,
    pub hop_count: u8,
}

/// Route discovery messages.
#[derive(Debug)]
pub enum DiscoveryMessage {
    /// Asks for a route to a destination.
    RouteRequest { destination: NodeId, source: NodeId, request_id: u64, max_hops: u8 },
    /// Answers a request with a route.
    RouteResponse {
        destination: NodeId,
        source: NodeId,
        request_id: u64,
        route: Vec<NodeId>,
        cost: u64,
    },
    /// Announces routes to neighbours.
    RouteAdvertisement { routes: Vec<RouteAdvertisementEntry>, source: NodeId },
}

/// What a discovery message holds, as mathematical values.
pub enum MessageView {
    RouteRequest { destination: NodeId, source: NodeId, request_id: u64, max_hops: u8 },
    RouteResponse {
        destination: NodeId,
        source: NodeId,
        request_id: u64,
        route: Seq<NodeId>,
        cost: u64,
    },
    RouteAdvertisement { routes: Seq<RouteAdvertisementEntry>, source: NodeId },
}

impl View for DiscoveryMessage {
    type V = MessageView;

    open spec fn view(&self) -> MessageView {
        match self {
            DiscoveryMessage::RouteRequest { destination, source, request_id, max_hops } => {
                MessageView::RouteRequest {
                    destination: *destination,
                    source: *source,
                    request_id: *request_id,
                    max_hops: *max_hops,
                }
            },
            DiscoveryMessage::RouteResponse { destination, source, request_id, route, cost } => {
                MessageView::RouteResponse {
                    destination: *destination,
                    source: *source,
                    request_id: *request_id,
                    route: route@,
                    cost: *cost,
                }
            },
            DiscoveryMessage::RouteAdvertisement { routes, source } => {
                MessageView::RouteAdvertisement { routes: routes@, source: *source }
            },
        }
    }
}

/// A request that waits for its response.
#[derive(Debug)]
pub struct PendingRequest {
    pub destination: NodeId,
    pub source: NodeId,
    pub request_id: u64,
    pub timestamp: u64,
    pub responders: Vec<NodeId>,
}

/// What a pending request holds, as mathematical values.
pub struct PendingView {
    pub destination: NodeId,
    pub source: NodeId,
    pub request_id: u64,
    pub timestamp: u64,
    pub responders: Seq<NodeId>,
}

impl View for PendingRequest {
    type V = PendingView;

    open spec fn view(&self) -> PendingView {
        PendingView {
            destination: self.destination,
            source: self.source,
            request_id: self.request_id,
            timestamp: self.timestamp,
            responders: self.responders@,
        }
    }
}

/// The views of the pending requests of a map.
pub open spec fn pending_views(m: Map<u64, PendingRequest>) -> Map<u64, PendingView> {
    Map::new(|id: u64| m.contains_key(id), |id: u64| m[id]@)
}

/// What route discovery remembers.
pub struct DiscoveryModel {
    /// The requests that wait for a response, by request identifier.
    pub pending: Map<u64, PendingView>,
    /// The request identifier given out last.
    pub counter: u64,
    /// Hops that a request of this node may travel.
    pub max_hops: u8,
    /// Seconds after which a pending request is given up.
    pub timeout_seconds: u64,
}

/// What the caller of `discover_route` is to do.
#[derive(Debug)]
pub enum DiscoveryStep {
    /// A route is known: use it.
    Found(Vec<NodeId>),
    /// No route is known yet: broadcast this request to the neighbours.
    Broadcast(DiscoveryMessage),
}

/// What the caller of `handle_route_request` is to do.
#[derive(Debug)]
pub enum RequestAction {
    /// Send this response back towards the requester.
    Respond(DiscoveryMessage),
    /// Broadcast this request, which has one hop less to travel, onwards.
    Forward(DiscoveryMessage),
    /// Do nothing.
    Drop,
}

/// What a discovery step holds, as mathematical values.
pub enum StepView {
    Found(Seq<NodeId>),
    Broadcast(MessageView),
}

impl View for DiscoveryStep {
    type V = StepView;

    open spec fn view(&self) -> StepView {
        match self {
            DiscoveryStep::Found(p) => StepView::Found(p@),
            DiscoveryStep::Broadcast(m) => StepView::Broadcast(m@),
        }
    }
}

/// What a request action holds, as mathematical values.
pub enum ActionView {
    Respond(MessageView),
    Forward(MessageView),
    Drop,
}

impl View for RequestAction {
    type V = ActionView;

    open spec fn view(&self) -> ActionView {
        match self {
            RequestAction::Respond(m) => ActionView::Respond(m@),
            RequestAction::Forward(m) => ActionView::Forward(m@),
            RequestAction::Drop => ActionView::Drop,
        }
    }
}

/// The pending requests that are not older than the timeout at time `now`.
pub open spec fn unexpired(pending: Map<u64, PendingView>, timeout: u64, now: u64) -> Map<
    u64,
    PendingView,
> {
    Map::new(
        |id: u64| pending.contains_key(id) && !older_than(pending[id].timestamp, timeout, now),
        |id: u64| pending[id],
    )
}

/// Whether a request with this identifier is pending.
pub open spec fn is_pending(pending: Map<u64, PendingView>, request_id: u64) -> bool {
    pending.contains_key(request_id)
}

/// The pending requests without the one that has this identifier.
pub open spec fn without_request(pending: Map<u64, PendingView>, request_id: u64) -> Map<
    u64,
    PendingView,
> {
    pending.remove(request_id)
}

/// The entry that a response to a request gives.
pub open spec fn discovered_route(destination: NodeId, route: Seq<NodeId>, cost: u64, now: u64)
    -> RouteView
    recommends
        route.len() >= 2,
{
    RouteView {
        node_id: destination,
        direct_address: None,
        next_hop: Some(route[1]),
        route_path: route,
        route_cost: cost,
        last_updated: now,
        quality_score: QUALITY_DISCOVERED,
    }
}

/// The entry that an advertised route gives.
pub open spec fn advertised_route(source: NodeId, ad: RouteAdvertisementEntry, now: u64)
    -> RouteView {
    RouteView {
        node_id: ad.destination,
        direct_address: None,
        next_hop: Some(ad.next_hop),
        route_path: seq![source, ad.next_hop, ad.destination],
        route_cost: ad.cost,
        last_updated: now,
        quality_score: QUALITY_ADVERTISED,
    }
}

/// The table after the routes of an advertisement were put into it one
/// after the other: a later one takes the place of an earlier one for the
/// same destination.
pub open spec fn with_advertised(
    t: TableModel,
    source: NodeId,
    ads: Seq<RouteAdvertisementEntry>,
    now: u64,
) -> TableModel
    decreases ads.len(),
{
    if ads.len() == 0 {
        t
    } else {
        with_advertised(t, source, ads.drop_last(), now).with_route(
            advertised_route(source, ads.last(), now),
        )
    }
}

/// The cost that a responder names for a route of `hops` nodes: 100 for
/// each, or the largest u64 where that does not fit.
pub open spec fn response_cost(hops: nat) -> u64 {
    if hops * COST_PER_HOP <= u64::MAX {
        (hops * COST_PER_HOP) as u64
    } else {
        u64::MAX
    }
}

/// Whether the table names the destination as a node with an address.
pub open spec fn known_address(t: TableModel, destination: NodeId) -> bool {
    t.routes.contains_key(destination) && t.routes[destination].direct_address is Some
}

/// What is done about a route request at time `now`.
///
/// A path that the table's lookup gives is sent back, at a cost of 100 for
/// each of its nodes. Failing that, a request for this very node is answered
/// with the path from the requester straight to it, at no cost. Failing that
/// too, a request with hops left is to be broadcast with one hop less; one
/// without is dropped.
pub open spec fn request_action(
    t: TableModel,
    destination: NodeId,
    source: NodeId,
    request_id: u64,
    max_hops: u8,
    my_node_id: NodeId,
    now: u64,
) -> ActionView {
    match t.lookup(destination, now) {
        Some(path) => ActionView::Respond(
            MessageView::RouteResponse {
                destination,
                source,
                request_id,
                route: path,
                cost: response_cost(path.len()),
            },
        ),
        None => if destination == my_node_id {
            ActionView::Respond(
                MessageView::RouteResponse {
                    destination,
                    source,
                    request_id,
                    route: seq![source, destination],
                    cost: 0,
                },
            )
        } else if max_hops > 0 {
            ActionView::Forward(
                MessageView::RouteRequest {
                    destination,
                    source,
                    request_id,
                    max_hops: (max_hops - 1) as u8,
                },
            )
        } else {
            ActionView::Drop
        },
    }
}

/// How one search for a route ends, and the states after it.
pub struct StepOutcome {
    pub result: Result<StepView, ErrorView>,
    pub table: TableModel,
    pub discovery: DiscoveryModel,
}

/// The search for a route to a destination at time `now`.
///
/// A path that the table's lookup gives is used. Failing that, a
/// destination for which the table holds an address is reached through the
/// path from the source straight to it. Failing that too, a request is
/// recorded under the next identifier and is to be broadcast; when the
/// identifiers are used up, that is a routing error.
pub open spec fn discovery_step(
    d: DiscoveryModel,
    t: TableModel,
    destination: NodeId,
    source: NodeId,
    now: u64,
) -> StepOutcome {
    let table = t.after_lookup(destination, now);
    match t.lookup(destination, now) {
        Some(path) => StepOutcome { result: Ok(StepView::Found(path)), table, discovery: d },
        None => if known_address(t, destination) {
            StepOutcome {
                result: Ok(StepView::Found(seq![source, destination])),
                table,
                discovery: d,
            }
        } else if d.counter == u64::MAX {
            StepOutcome {
                result: Err(
                    ErrorView {
                        kind: ErrorKind::Routing,
                        detail: "Route request identifiers are used up"@,
                    },
                ),
                table,
                discovery: d,
            }
        } else {
            StepOutcome {
                result: Ok(
                    StepView::Broadcast(
                        MessageView::RouteRequest {
                            destination,
                            source,
                            request_id: (d.counter + 1) as u64,
                            max_hops: d.max_hops,
                        },
                    ),
                ),
                table,
                discovery: d.with_request(destination, source, now),
            }
        },
    }
}

/// The view of the result of a search.
pub open spec fn step_result_view(r: Result<DiscoveryStep, MeshError>) -> Result<
    StepView,
    ErrorView,
> {
    match r {
        Ok(step) => Ok(step@),
        Err(e) => Err(e@),
    }
}

/// How a series of searches ends, and the states after it.
pub struct BatchOutcome {
    /// The steps of the searches that were made, in their order.
    pub steps: Seq<StepView>,
    /// The error that ended the series early, if one did.
    pub error: Option<ErrorView>,
    pub table: TableModel,
    pub discovery: DiscoveryModel,
}

/// Searches for routes to destinations, one after the other; the first
/// error ends the series.
pub open spec fn discovery_batch(
    d: DiscoveryModel,
    t: TableModel,
    destinations: Seq<NodeId>,
    source: NodeId,
    now: u64,
) -> BatchOutcome
    decreases destinations.len(),
{
    if destinations.len() == 0 {
        BatchOutcome { steps: Seq::empty(), error: None, table: t, discovery: d }
    } else {
        let before = discovery_batch(d, t, destinations.drop_last(), source, now);
        if before.error is Some {
            before
        } else {
            let last = discovery_step(
                before.discovery,
                before.table,
                destinations.last(),
                source,
                now,
            );
            match last.result {
                Ok(step) => BatchOutcome {
                    steps: before.steps.push(step),
                    error: None,
                    table: last.table,
                    discovery: last.discovery,
                },
                Err(e) => BatchOutcome {
                    steps: before.steps,
                    error: Some(e),
                    table: last.table,
                    discovery: last.discovery,
                },
            }
        }
    }
}

/// The views of a list of steps.
pub open spec fn step_views(l: Seq<DiscoveryStep>) -> Seq<StepView> {
    Seq::new(l.len(), |i: int| l[i]@)
}

/// Route discovery manager.
pub struct RouteDiscovery {
    pending_requests: HashMap<u64, PendingRequest>,
    request_id_counter: u64,
    max_hops: u8,
    timeout_seconds: u64,
}

impl View for RouteDiscovery {
    type V = DiscoveryModel;

    closed spec fn view(&self) -> DiscoveryModel {
        DiscoveryModel {
            pending: pending_views(self.pending_requests@),
            counter: self.request_id_counter,
            max_hops: self.max_hops,
            timeout_seconds: self.timeout_seconds,
        }
    }
}

impl DiscoveryModel {
    /// Every pending request stands under its own identifier, none of which
    /// is above the counter, and there are finitely many.
    pub open spec fn well_formed(self) -> bool {
        &&& self.pending.dom().finite()
        &&& forall|id: u64| #[trigger]
            self.pending.contains_key(id) ==> id <= self.counter && self.pending[id].request_id
                == id
    }

    /// The state with a new request recorded at time `now`.
    pub open spec fn with_request(self, destination: NodeId, source: NodeId, now: u64)
        -> DiscoveryModel
        recommends
            self.counter < u64::MAX,
    {
        DiscoveryModel {
            pending: self.pending.insert(
                (self.counter + 1) as u64,
                PendingView {
                    destination,
                    source,
                    request_id: (self.counter + 1) as u64,
                    timestamp: now,
                    responders: Seq::empty(),
                },
            ),
            counter: (self.counter + 1) as u64,
            ..self
        }
    }
}

impl RouteDiscovery {
    /// Creates a discovery manager without pending requests.
    pub fn new(max_hops: u8, timeout_seconds: u64) -> (r: Self)
        ensures
            r@.pending == Map::<u64, PendingView>::empty(),
            r@.counter == 0,
            r@.max_hops == max_hops,
            r@.timeout_seconds == timeout_seconds,
            r@.well_formed(),
    {
        let r = Self {
            pending_requests: HashMap::new(),
            request_id_counter: 0,
            max_hops,
            timeout_seconds,
        };
        assert(r@.pending =~= Map::<u64, PendingView>::empty());
        r
    }

    /// Whether a request with this identifier waits for its response.
    pub fn has_pending(&self, request_id: u64) -> (r: bool)
        ensures
            r == is_pending(self@.pending, request_id),
    {
        broadcast use vstd::std_specs::hash::group_hash_axioms;

        self.pending_requests.contains_key(&request_id)
    }

    /// The number of requests that wait for a response.
    pub fn pending_count(&self) -> (r: usize)
        ensures
            self@.pending.dom().finite(),
            r == self@.pending.dom().len(),
    {
        broadcast use vstd::std_specs::hash::group_hash_axioms;

        assert(self@.pending.dom() =~= self.pending_requests@.dom());
        self.pending_requests.len()
    }

    /// The identifiers of the pending requests, in an order of which
    /// nothing is known.
    fn pending_ids(&self) -> (r: Vec<u64>)
        ensures
            forall|id: u64| r@.contains(id) <==> self@.pending.contains_key(id),
    {
        broadcast use vstd::std_specs::hash::group_hash_axioms;

        let mut ids: Vec<u64> = Vec::new();
        for id in it: self.pending_requests.keys()
            invariant
                it.seq() == spec_keys_iter(&self.pending_requests).remaining(),
                ids@.len() == it.index(),
                forall|j: int| 0 <= j < ids@.len() ==> ids@[j] == *it.seq()[j],
        {
            ids.push(*id);
        }
        proof {
            let all = spec_keys_iter(&self.pending_requests).remaining();
            assert(ids@ =~= all.unref());
            assert(all.unref().to_set() == self.pending_requests@.dom());
            assert forall|id: u64| ids@.contains(id) <==> self@.pending.contains_key(id) by {
                assert(ids@.to_set().contains(id) <==> ids@.contains(id));
            }
        }
        ids
    }

    /// Finds a route to a destination at time `now`, or records a request
    /// for one that is to be broadcast.
    pub fn discover_route_at(
        &mut self,
        table: &mut RoutingTable,
        destination: NodeId,
        source: NodeId,
        now: u64,
    ) -> (r: Result<DiscoveryStep, MeshError>)
        requires
            old(self)@.well_formed(),
        ensures
            step_result_view(r) == discovery_step(
                old(self)@,
                old(table)@,
                destination,
                source,
                now,
            ).result,
            final(table)@ == discovery_step(
                old(self)@,
                old(table)@,
                destination,
                source,
                now,
            ).table,
            final(self)@ == discovery_step(
                old(self)@,
                old(table)@,
                destination,
                source,
                now,
            ).discovery,
            final(self)@.well_formed(),
    {
        broadcast use vstd::std_specs::hash::group_hash_axioms;

        match table.find_route_at(&destination, now) {
            Some(route) => {
                return Ok(DiscoveryStep::Found(route));
            },
            None => {},
        }
        match table.get_route(&destination) {
            Some(entry) => {
                if entry.direct_address.is_some() {
                    let mut route: Vec<NodeId> = Vec::new();
                    route.push(source);
                    route.push(destination);
                    assert(route@ =~= seq![source, destination]);
                    return Ok(DiscoveryStep::Found(route));
                }
            },
            None => {},
        }
        if self.request_id_counter == u64::MAX {
            return Err(
                MeshError::RoutingError(String::from_str("Route request identifiers are used up")),
            );
        }
        let request_id: u64 = self.request_id_counter + 1;
        let ghost before = self@;
        self.request_id_counter = request_id;
        self.pending_requests.insert(
            request_id,
            PendingRequest {
                destination,
                source,
                request_id,
                timestamp: now,
                responders: Vec::new(),
            },
        );
        assert(self@.pending =~= before.with_request(destination, source, now).pending);
        assert(self@.pending.dom() =~= before.pending.dom().insert(request_id));
        Ok(
            DiscoveryStep::Broadcast(
                DiscoveryMessage::RouteRequest {
                    destination,
                    source,
                    request_id,
                    max_hops: self.max_hops,
                },
            ),
        )
    }

    /// Finds a route to a destination by the machine's clock, or records a
    /// request for one that is to be broadcast.
    pub fn discover_route(&mut self, table: &mut RoutingTable, destination: NodeId, source: NodeId)
        -> (r: Result<DiscoveryStep, MeshError>)
        requires
            old(self)@.well_formed(),
        ensures
            exists|now: u64|
                {
                    let outcome = #[trigger] discovery_step(
                        old(self)@,
                        old(table)@,
                        destination,
                        source,
                        now,
                    );
                    &&& step_result_view(r) == outcome.result
                    &&& final(table)@ == outcome.table
                    &&& final(self)@ == outcome.discovery
                },
            final(self)@.well_formed(),
    {
        let now = unix_now();
        self.discover_route_at(table, destination, source, now)
    }

    /// Finds routes to several destinations at time `now`, one after the
    /// other. The steps come back in the order of the destinations; the
    /// first error ends the series and is returned.
    pub fn discover_routes_batch_at(
        &mut self,
        table: &mut RoutingTable,
        destinations: &[NodeId],
        source: NodeId,
        now: u64,
    ) -> (r: Result<Vec<DiscoveryStep>, MeshError>)
        requires
            old(self)@.well_formed(),
        ensures
            final(self)@.well_formed(),
            final(table)@ == discovery_batch(
                old(self)@,
                old(table)@,
                destinations@,
                source,
                now,
            ).table,
            final(self)@ == discovery_batch(
                old(self)@,
                old(table)@,
                destinations@,
                source,
                now,
            ).discovery,
            match r {
                Ok(steps) => discovery_batch(
                    old(self)@,
                    old(table)@,
                    destinations@,
                    source,
                    now,
                ).error is None && step_views(steps@) == discovery_batch(
                    old(self)@,
                    old(table)@,
                    destinations@,
                    source,
                    now,
                ).steps,
                Err(e) => discovery_batch(
                    old(self)@,
                    old(table)@,
                    destinations@,
                    source,
                    now,
                ).error == Some(e@),
            },
    {
        let ghost d0 = self@;
        let ghost t0 = table@;
        let mut steps: Vec<DiscoveryStep> = Vec::new();
        let mut i: usize = 0;
        assert(destinations@.take(0) =~= Seq::<NodeId>::empty());
        assert(step_views(steps@) =~= Seq::<StepView>::empty());
        while i < destinations.len()
            invariant
                i <= destinations@.len(),
                self@.well_formed(),
                d0 == old(self)@,
                t0 == old(table)@,
                discovery_batch(d0, t0, destinations@.take(i as int), source, now) == (
                BatchOutcome {
                    steps: step_views(steps@),
                    error: None,
                    table: table@,
                    discovery: self@,
                }),
            decreases destinations@.len() - i,
        {
            proof {
                assert(destinations@.take(i + 1).drop_last() =~= destinations@.take(i as int));
                assert(destinations@.take(i + 1).last() == destinations@[i as int]);
            }
            match self.discover_route_at(table, destinations[i], source, now) {
                Ok(step) => {
                    assert(step_views(steps@.push(step)) =~= step_views(steps@).push(step@));
                    steps.push(step);
                },
                Err(e) => {
                    proof {
                        lemma_batch_stops(d0, t0, destinations@, i + 1, source, now);
                    }
                    return Err(e);
                },
            }
            i += 1;
        }
        assert(destinations@.take(i as int) =~= destinations@);
        Ok(steps)
    }

    /// Finds routes to several destinations by the machine's clock.
    pub fn discover_routes_batch(
        &mut self,
        table: &mut RoutingTable,
        destinations: &[NodeId],
        source: NodeId,
    ) -> (r: Result<Vec<DiscoveryStep>, MeshError>)
        requires
            old(self)@.well_formed(),
        ensures
            final(self)@.well_formed(),
            exists|now: u64|
                {
                    let outcome = #[trigger] discovery_batch(
                        old(self)@,
                        old(table)@,
                        destinations@,
                        source,
                        now,
                    );
                    &&& final(table)@ == outcome.table
                    &&& final(self)@ == outcome.discovery
                    &&& match r {
                        Ok(steps) => outcome.error is None && step_views(steps@) == outcome.steps,
                        Err(e) => outcome.error == Some(e@),
                    }
                },
    {
        let now = unix_now();
        self.discover_routes_batch_at(table, destinations, source, now)
    }

    /// Answers a route request from another node at time `now`. A message
    /// that is no request is dropped.
    pub fn handle_route_request(
        &self,
        table: &mut RoutingTable,
        request: &DiscoveryMessage,
        from_node: NodeId,
        my_node_id: &NodeId,
        now: u64,
    ) -> (r: Result<RequestAction, MeshError>)
        ensures
            r is Ok,
            match request@ {
                MessageView::RouteRequest { destination, source, request_id, max_hops } => {
                    &&& final(table)@ == old(table)@.after_lookup(destination, now)
                    &&& r->Ok_0@ == request_action(
                        old(table)@,
                        destination,
                        source,
                        request_id,
                        max_hops,
                        *my_node_id,
                        now,
                    )
                },
                _ => final(table)@ == old(table)@ && r->Ok_0@ == ActionView::Drop,
            },
    {
        match request {
            DiscoveryMessage::RouteRequest { destination, source, request_id, max_hops } => {
                match table.find_route_at(destination, now) {
                    Some(route) => {
                        let hops: u128 = route.len() as u128;
                        let cost: u64 = if hops * 100 <= u64::MAX as u128 {
                            (hops * 100) as u64
                        } else {
                            u64::MAX
                        };
                        return Ok(
                            RequestAction::Respond(
                                DiscoveryMessage::RouteResponse {
                                    destination: *destination,
                                    source: *source,
                                    request_id: *request_id,
                                    route,
                                    cost,
                                },
                            ),
                        );
                    },
                    None => {},
                }
                if array32_eq(destination, my_node_id) {
                    let mut route: Vec<NodeId> = Vec::new();
                    route.push(*source);
                    route.push(*destination);
                    assert(route@ =~= seq![*source, *destination]);
                    return Ok(
                        RequestAction::Respond(
                            DiscoveryMessage::RouteResponse {
                                destination: *destination,
                                source: *source,
                                request_id: *request_id,
                                route,
                                cost: 0,
                            },
                        ),
                    );
                }
                if *max_hops > 0 {
                    return Ok(
                        RequestAction::Forward(
                            DiscoveryMessage::RouteRequest {
                                destination: *destination,
                                source: *source,
                                request_id: *request_id,
                                max_hops: *max_hops - 1,
                            },
                        ),
                    );
                }
                Ok(RequestAction::Drop)
            },
            _ => Ok(RequestAction::Drop),
        }
    }

    /// Takes in a route response at time `now`.
    ///
    /// A response to a pending request puts its route into the table, as a
    /// discovered route whose next hop is the second node of the route, and
    /// ends the request. A response to no pending request, and a message
    /// that is no response, change nothing.
    pub fn handle_route_response_at(
        &mut self,
        table: &mut RoutingTable,
        response: &DiscoveryMessage,
        from_node: NodeId,
        now: u64,
    ) -> (r: Result<(), MeshError>)
        requires
            old(self)@.well_formed(),
            response@ matches MessageView::RouteResponse { request_id, route, .. } ==> (is_pending(
                old(self)@.pending,
                request_id,
            ) ==> route.len() >= 2),
        ensures
            r is Ok,
            final(self)@.well_formed(),
            match response@ {
                MessageView::RouteResponse { destination, request_id, route, cost, .. } => {
                    if is_pending(old(self)@.pending, request_id) {
                        &&& final(table)@ == old(table)@.with_route(
                            discovered_route(destination, route, cost, now),
                        )
                        &&& final(self)@ == DiscoveryModel {
                            pending: without_request(old(self)@.pending, request_id),
                            ..old(self)@
                        }
                        &&& !is_pending(final(self)@.pending, request_id)
                    } else {
                        final(table)@ == old(table)@ && final(self)@ == old(self)@
                    }
                },
                _ => final(table)@ == old(table)@ && final(self)@ == old(self)@,
            },
    {
        broadcast use vstd::std_specs::hash::group_hash_axioms;

        match response {
            DiscoveryMessage::RouteResponse { destination, source, request_id, route, cost } => {
                if self.pending_requests.contains_key(request_id) {
                    let ghost before = self@;
                    let entry = RoutingEntry {
                        node_id: *destination,
                        direct_address: None,
                        next_hop: Some(route[1]),
                        route_path: copy_ids(route.as_slice()),
                        route_cost: *cost,
                        last_updated: now,
                        quality_score: QUALITY_DISCOVERED,
                    };
                    table.add_route(entry);
                    self.pending_requests.remove(request_id);
                    assert(self@.pending =~= before.pending.remove(*request_id));
                    assert(self@.pending.dom() =~= before.pending.dom().remove(*request_id));
                }
                Ok(())
            },
            _ => Ok(()),
        }
    }

    /// Takes in a route response by the machine's clock.
    pub fn handle_route_response(
        &mut self,
        table: &mut RoutingTable,
        response: &DiscoveryMessage,
        from_node: NodeId,
    ) -> (r: Result<(), MeshError>)
        requires
            old(self)@.well_formed(),
            response@ matches MessageView::RouteResponse { request_id, route, .. } ==> (is_pending(
                old(self)@.pending,
                request_id,
            ) ==> route.len() >= 2),
        ensures
            r is Ok,
            final(self)@.well_formed(),
            final(self)@ == (DiscoveryModel {
                pending: match response@ {
                    MessageView::RouteResponse { request_id, .. } => without_request(
                        old(self)@.pending,
                        request_id,
                    ),
                    _ => old(self)@.pending,
                },
                ..old(self)@
            }),
            match response@ {
                MessageView::RouteResponse { destination, request_id, route, cost, .. } => {
                    if is_pending(old(self)@.pending, request_id) {
                        exists|now: u64|
                            final(table)@ == old(table)@.with_route(
                                #[trigger] discovered_route(destination, route, cost, now),
                            )
                    } else {
                        final(table)@ == old(table)@
                    }
                },
                _ => final(table)@ == old(table)@,
            },
    {
        proof {
            match response@ {
                MessageView::RouteResponse { request_id, .. } => {
                    if !is_pending(self@.pending, request_id) {
                        assert(without_request(self@.pending, request_id) =~= self@.pending);
                    }
                },
                _ => {},
            }
        }
        let now = unix_now();
        self.handle_route_response_at(table, response, from_node, now)
    }

    /// Takes in a route advertisement at time `now`: each advertised route
    /// is put into the table, in place of whatever its destination had. A
    /// message that is no advertisement changes nothing.
    pub fn handle_route_advertisement_at(
        &self,
        table: &mut RoutingTable,
        advertisement: &DiscoveryMessage,
        from_node: NodeId,
        now: u64,
    ) -> (r: Result<(), MeshError>)
        ensures
            r is Ok,
            final(table)@ == match advertisement@ {
                MessageView::RouteAdvertisement { routes, source } => with_advertised(
                    old(table)@,
                    source,
                    routes,
                    now,
                ),
                _ => old(table)@,
            },
    {
        match advertisement {
            DiscoveryMessage::RouteAdvertisement { routes, source } => {
                let ghost start = table@;
                let mut i: usize = 0;
                assert(routes@.take(0) =~= Seq::<RouteAdvertisementEntry>::empty());
                while i < routes.len()
                    invariant
                        i <= routes@.len(),
                        table@ == with_advertised(start, *source, routes@.take(i as int), now),
                    decreases routes@.len() - i,
                {
                    let ad = routes[i];
                    let mut route_path: Vec<NodeId> = Vec::new();
                    route_path.push(*source);
                    route_path.push(ad.next_hop);
                    route_path.push(ad.destination);
                    let entry = RoutingEntry {
                        node_id: ad.destination,
                        direct_address: None,
                        next_hop: Some(ad.next_hop),
                        route_path,
                        route_cost: ad.cost,
                        last_updated: now,
                        quality_score: QUALITY_ADVERTISED,
                    };
                    assert(entry@ =~= advertised_route(*source, ad, now)) by {
                        assert(entry@.route_path =~= seq![*source, ad.next_hop, ad.destination]);
                    }
                    table.add_route(entry);
                    proof {
                        assert(routes@.take(i + 1).drop_last() =~= routes@.take(i as int));
                        assert(routes@.take(i + 1).last() == ad);
                    }
                    i += 1;
                }
                assert(routes@.take(i as int) =~= routes@);
                Ok(())
            },
            _ => Ok(()),
        }
    }

    /// Takes in a route advertisement by the machine's clock.
    pub fn handle_route_advertisement(
        &self,
        table: &mut RoutingTable,
        advertisement: &DiscoveryMessage,
        from_node: NodeId,
    ) -> (r: Result<(), MeshError>)
        ensures
            r is Ok,
            match advertisement@ {
                MessageView::RouteAdvertisement { routes, source } => exists|now: u64|
                    final(table)@ == #[trigger] with_advertised(old(table)@, source, routes, now),
                _ => final(table)@ == old(table)@,
            },
    {
        let now = unix_now();
        self.handle_route_advertisement_at(table, advertisement, from_node, now)
    }

    /// Gives up the pending requests that are older than the timeout at
    /// time `now`.
    pub fn cleanup_expired_at(&mut self, now: u64)
        requires
            old(self)@.well_formed(),
        ensures
            final(self)@ == (DiscoveryModel {
                pending: unexpired(old(self)@.pending, old(self)@.timeout_seconds, now),
                ..old(self)@
            }),
            final(self)@.well_formed(),
    {
        broadcast use vstd::std_specs::hash::group_hash_axioms;

        let ids = self.pending_ids();
        let ghost before = self@;
        let mut i: usize = 0;
        while i < ids.len()
            invariant
                i <= ids@.len(),
                forall|id: u64| ids@.contains(id) <==> before.pending.contains_key(id),
                before.well_formed(),
                self@.counter == before.counter,
                self@.max_hops == before.max_hops,
                self@.timeout_seconds == before.timeout_seconds,
                self@.pending.dom().finite(),
                forall|id: u64|
                    #[trigger] self@.pending.contains_key(id) <==> (before.pending.contains_key(
                        id,
                    ) && !(ids@.subrange(0, i as int).contains(id) && older_than(
                        before.pending[id].timestamp,
                        before.timeout_seconds,
                        now,
                    ))),
                forall|id: u64|
                    self@.pending.contains_key(id) ==> #[trigger] self@.pending[id]
                        == before.pending[id],
            decreases ids@.len() - i,
        {
            let id = ids[i];
            let ghost done = ids@.subrange(0, i as int);
            let ghost prev = self@.pending;
            assert(ids@.subrange(0, i + 1) =~= done.push(id));
            assert forall|k: u64| done.push(id).contains(k) <==> (done.contains(k) || k == id) by {
                lemma_push_contains(done, id, k);
            }
            assert(ids@.contains(id));
            let ghost old_enough = older_than(
                before.pending[id].timestamp,
                before.timeout_seconds,
                now,
            );
            let stale = match self.pending_requests.get(&id) {
                Some(p) => {
                    assert(prev.contains_key(id) && p@ == prev[id]);
                    is_older_than(p.timestamp, self.timeout_seconds, now)
                },
                None => {
                    assert(!prev.contains_key(id));
                    false
                },
            };
            assert(stale == (prev.contains_key(id) && old_enough));
            if stale {
                self.pending_requests.remove(&id);
                assert(self@.pending =~= prev.remove(id));
                assert(self@.pending.dom() =~= prev.dom().remove(id));
            }
            assert(self@.pending == if prev.contains_key(id) && old_enough {
                prev.remove(id)
            } else {
                prev
            });
            i += 1;
        }
        assert(ids@.subrange(0, i as int) =~= ids@);
        assert(self@.pending =~= unexpired(before.pending, before.timeout_seconds, now));
    }

    /// Gives up the pending requests that are older than the timeout by the
    /// machine's clock.
    pub fn cleanup_expired(&mut self)
        requires
            old(self)@.well_formed(),
        ensures
            exists|now: u64|
                final(self)@ == (DiscoveryModel {
                    pending: #[trigger] unexpired(
                        old(self)@.pending,
                        old(self)@.timeout_seconds,
                        now,
                    ),
                    ..old(self)@
                }),
            final(self)@.well_formed(),
    {
        let now = unix_now();
        self.cleanup_expired_at(now);
    }
}

/// A series that an error ended stays as it is, however many destinations
/// follow.
proof fn lemma_batch_stops(
    d: DiscoveryModel,
    t: TableModel,
    destinations: Seq<NodeId>,
    k: int,
    source: NodeId,
    now: u64,
)
    requires
        0 <= k <= destinations.len(),
        discovery_batch(d, t, destinations.take(k), source, now).error is Some,
    ensures
        discovery_batch(d, t, destinations, source, now) == discovery_batch(
            d,
            t,
            destinations.take(k),
            source,
            now,
        ),
    decreases destinations.len() - k,
{
    if k < destinations.len() {
        assert(destinations.take(k + 1).drop_last() =~= destinations.take(k));
        lemma_batch_stops(d, t, destinations, k + 1, source, now);
    } else {
        assert(destinations.take(k) =~= destinations);
    }
}

/// The entries that discovery and direct peers give keep the rules of an
/// entry: that of a direct peer, that of a response whose route names a
/// next hop, and that of an advertised route.
pub proof fn lemma_made_routes_well_formed(
    node_id: NodeId,
    address: Seq<u8>,
    route: Seq<NodeId>,
    cost: u64,
    source: NodeId,
    ad: RouteAdvertisementEntry,
    now: u64,
)
    ensures
        crate::routing::direct_route(node_id, address, now).well_formed(),
        route.len() >= 2 ==> discovered_route(node_id, route, cost, now).well_formed(),
        advertised_route(source, ad, now).well_formed(),
{
}

} // verus!
