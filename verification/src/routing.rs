//! The routing table: routes by destination, the direct peers among them,
//! and a cache of the paths last looked up.
//!
//! The cache is advisory: every sweep empties it, and until then it may
//! name a path that the routes no longer hold. Whatever changes the table
//! takes it by exclusive reference.

use crate::bytes::lemma_push_contains;
use crate::clock::{is_older_than, older_than, unix_now};
use crate::concurrent_map::{
    cached_paths, has_count, map_clear, map_get, map_insert, map_keys, map_len, map_remove, new_address_map,
    new_path_map, new_route_map, peer_addresses, route_entries, MapValue,
};
use crate::packet::NodeId;
use crate::wire::{copy_bytes, copy_ids};
use dashmap::DashMap;
use vstd::prelude::*;

verus! {

/// Quality of a route to a direct peer, in thousandths.
pub const QUALITY_DIRECT: u16 = 1000;

/// Quality of a route that a responder confirmed, in thousandths.
pub const QUALITY_DISCOVERED: u16 = 800;

/// Quality of a route that a neighbour advertised, in thousandths.
pub const QUALITY_ADVERTISED: u16 = 700;

/// Routing entry for a mesh node.
#[derive(Debug, Clone)]
pub struct RoutingEntry {
    /// The node that the entry leads to.
    pub node_id: NodeId,
    /// Transport address, where the node is directly connected.
    pub direct_address: Option<Vec<u8>>,
    /// Next hop, where the route has more than one.
    pub next_hop: Option<NodeId>,
    /// The nodes on the way to the destination.
    pub route_path: Vec<NodeId>,
    /// Cost of the route in satoshis.
    pub route_cost: u64,
    /// Time of the last update, seconds since the epoch.
    pub last_updated: u64,
    /// Quality of the route in thousandths, from 0 to 1000.
    pub quality_score: u16,
}

/// What a routing entry holds, as mathematical values.
pub struct RouteView {
    pub node_id: NodeId,
    pub direct_address: Option<Seq<u8>>,
    pub next_hop: Option<NodeId>,
    pub route_path: Seq<NodeId>,
    pub route_cost: u64,
    pub last_updated: u64,
    pub quality_score: u16,
}

impl View for RoutingEntry {
    type V = RouteView;

    open spec fn view(&self) -> RouteView {
        RouteView {
            node_id: self.node_id,
            direct_address: match self.direct_address {
                Some(a) => Some(a@),
                None => None,
            },
            next_hop: self.next_hop,
            route_path: self.route_path@,
            route_cost: self.route_cost,
            last_updated: self.last_updated,
            quality_score: self.quality_score,
        }
    }
}

impl RouteView {
    /// A direct peer's entry: it has an address and no next hop. Such an
    /// entry is pinned: no sweep removes it.
    pub open spec fn is_pinned(self) -> bool {
        self.direct_address is Some && self.next_hop is None
    }

    /// The rules of an entry: its path is not empty and its quality is at
    /// most 1000; a direct peer's entry has full quality and no cost; any
    /// other entry names as its next hop the second node of its path.
    pub open spec fn well_formed(self) -> bool {
        &&& self.route_path.len() > 0
        &&& self.quality_score <= 1000
        &&& if self.is_pinned() {
            self.quality_score == QUALITY_DIRECT && self.route_cost == 0
        } else {
            self.next_hop is Some && self.route_path.len() >= 2 && self.next_hop->0
                == self.route_path[1]
        }
    }
}

/// The entry that stands for a direct peer connected at time `now`.
pub open spec fn direct_route(node_id: NodeId, address: Seq<u8>, now: u64) -> RouteView {
    RouteView {
        node_id,
        direct_address: Some(address),
        next_hop: None,
        route_path: seq![node_id],
        route_cost: 0,
        last_updated: now,
        quality_score: QUALITY_DIRECT,
    }
}

/// What a routing table holds.
pub struct TableModel {
    /// Routes, by destination.
    pub routes: Map<NodeId, RouteView>,
    /// Addresses of the direct peers.
    pub direct_peers: Map<NodeId, Seq<u8>>,
    /// Paths of the last successful lookups.
    pub cache: Map<NodeId, Seq<NodeId>>,
    /// Seconds after which a route is stale.
    pub route_expiry_seconds: u64,
}

impl TableModel {
    /// The table with a direct peer added or renewed at time `now`.
    pub open spec fn with_direct_peer(self, node_id: NodeId, address: Seq<u8>, now: u64)
        -> TableModel {
        TableModel {
            routes: self.routes.insert(node_id, direct_route(node_id, address, now)),
            direct_peers: self.direct_peers.insert(node_id, address),
            ..self
        }
    }

    /// The table without a direct peer: its address is dropped, and its
    /// route too if that is a direct peer's entry.
    pub open spec fn without_direct_peer(self, node_id: NodeId) -> TableModel {
        TableModel {
            routes: if self.routes.contains_key(node_id) && self.routes[node_id].is_pinned() {
                self.routes.remove(node_id)
            } else {
                self.routes
            },
            direct_peers: self.direct_peers.remove(node_id),
            ..self
        }
    }

    /// The table with an entry put in place of whatever its node had.
    pub open spec fn with_route(self, entry: RouteView) -> TableModel {
        TableModel { routes: self.routes.insert(entry.node_id, entry), ..self }
    }

    /// The entry's age at time `now` is within the expiry.
    pub open spec fn fresh(self, node_id: NodeId, now: u64) -> bool {
        self.routes.contains_key(node_id) && !older_than(
            self.routes[node_id].last_updated,
            self.route_expiry_seconds,
            now,
        )
    }

    /// The path that a lookup at time `now` gives: the cached one if there
    /// is one, else that of a fresh entry, else none.
    pub open spec fn lookup(self, destination: NodeId, now: u64) -> Option<Seq<NodeId>> {
        if self.cache.contains_key(destination) {
            Some(self.cache[destination])
        } else if self.fresh(destination, now) {
            Some(self.routes[destination].route_path)
        } else {
            None
        }
    }

    /// The table after a lookup: a path found among the routes is now
    /// cached.
    pub open spec fn after_lookup(self, destination: NodeId, now: u64) -> TableModel {
        if !self.cache.contains_key(destination) && self.fresh(destination, now) {
            TableModel {
                cache: self.cache.insert(destination, self.routes[destination].route_path),
                ..self
            }
        } else {
            self
        }
    }

    /// Whether a sweep at time `now` removes an entry: it is stale and not
    /// pinned.
    pub open spec fn swept_away(self, node_id: NodeId, now: u64) -> bool {
        self.routes.contains_key(node_id) && older_than(
            self.routes[node_id].last_updated,
            self.route_expiry_seconds,
            now,
        ) && !self.routes[node_id].is_pinned()
    }

    /// The table after a sweep at time `now`: stale entries are gone, but
    /// for the pinned ones, and the cache is empty.
    pub open spec fn swept(self, now: u64) -> TableModel {
        TableModel {
            routes: Map::new(
                |k: NodeId| self.routes.contains_key(k) && !self.swept_away(k, now),
                |k: NodeId| self.routes[k],
            ),
            cache: Map::empty(),
            ..self
        }
    }

    /// Every direct peer has a pinned entry among the routes, with the
    /// peer's address.
    pub open spec fn peers_indexed(self) -> bool {
        forall|k: NodeId| #[trigger]
            self.direct_peers.contains_key(k) ==> self.routes.contains_key(k)
                && self.routes[k].is_pinned() && self.routes[k].direct_address == Some(
                self.direct_peers[k],
            )
    }

    /// Every entry stands under its own node, and keeps the rules of an
    /// entry.
    pub open spec fn entries_well_formed(self) -> bool {
        forall|k: NodeId| #[trigger]
            self.routes.contains_key(k) ==> self.routes[k].node_id == k
                && self.routes[k].well_formed()
    }
}

/// The shares of a routing fee.
pub struct FeeShares {
    pub destination: int,
    pub intermediate: int,
    pub source: int,
}

/// How a fee is shared along a route of `hops` nodes: the destination gets
/// 60 percent, the source 10 percent, and each node between them an equal
/// part of 30 percent. Every share is rounded down.
pub open spec fn fee_shares(hops: nat, base_fee_sats: u64) -> FeeShares {
    FeeShares {
        destination: (base_fee_sats * 60) / 100,
        intermediate: if hops > 2 {
            ((base_fee_sats * 30) / 100) / (hops - 2)
        } else {
            0
        },
        source: (base_fee_sats * 10) / 100,
    }
}

/// Routing fee breakdown.
#[derive(Debug, Clone)]
pub struct RoutingFee {
    /// Total fee in satoshis.
    pub total: u64,
    /// Fee to the destination.
    pub destination: u64,
    /// Fee to each intermediate node.
    pub intermediate: u64,
    /// Fee to the source node.
    pub source: u64,
    /// Number of nodes on the route.
    pub hop_count: usize,
}

/// Routing statistics.
#[derive(Debug, Clone)]
pub struct RoutingStats {
    /// Total number of routes.
    pub total_routes: usize,
    /// Number of direct peers.
    pub direct_peers: usize,
    /// Number of cached routes.
    pub cached_routes: usize,
    /// Route expiry time in seconds.
    pub route_expiry_seconds: u64,
}

/// Routing table for mesh networking.
pub struct RoutingTable {
    routes: DashMap<[u8; 32], RoutingEntry>,
    direct_peers: DashMap<[u8; 32], Vec<u8>>,
    route_cache: DashMap<[u8; 32], Vec<[u8; 32]>>,
    route_expiry_seconds: u64,
}

impl View for RoutingTable {
    type V = TableModel;

    closed spec fn view(&self) -> TableModel {
        TableModel {
            routes: route_entries(self.routes),
            direct_peers: peer_addresses(self.direct_peers),
            cache: cached_paths(self.route_cache),
            route_expiry_seconds: self.route_expiry_seconds,
        }
    }
}

/// The view of an optional path.
pub open spec fn path_option_view(o: Option<Vec<NodeId>>) -> Option<Seq<NodeId>> {
    match o {
        Some(p) => Some(p@),
        None => None,
    }
}

/// The view of an optional entry.
pub open spec fn entry_option_view(o: Option<RoutingEntry>) -> Option<RouteView> {
    match o {
        Some(e) => Some(e@),
        None => None,
    }
}

impl RoutingTable {
    /// Creates an empty table.
    pub fn new(route_expiry_seconds: u64) -> (r: Self)
        ensures
            r@.routes == Map::<NodeId, RouteView>::empty(),
            r@.direct_peers == Map::<NodeId, Seq<u8>>::empty(),
            r@.cache == Map::<NodeId, Seq<NodeId>>::empty(),
            r@.route_expiry_seconds == route_expiry_seconds,
    {
        let r = Self {
            routes: new_route_map(),
            direct_peers: new_address_map(),
            route_cache: new_path_map(),
            route_expiry_seconds,
        };
        assert(r@.routes =~= Map::<NodeId, RouteView>::empty());
        assert(r@.direct_peers =~= Map::<NodeId, Seq<u8>>::empty());
        assert(r@.cache =~= Map::<NodeId, Seq<NodeId>>::empty());
        r
    }

    /// Adds or renews a direct peer at time `now`.
    pub fn add_direct_peer_at(&mut self, node_id: NodeId, address: Vec<u8>, now: u64)
        ensures
            final(self)@ == old(self)@.with_direct_peer(node_id, address@, now),
    {
        let held = copy_bytes(address.as_slice());
        map_insert(&mut self.direct_peers, node_id, held);
        let mut route_path: Vec<NodeId> = Vec::new();
        route_path.push(node_id);
        let entry = RoutingEntry {
            node_id,
            direct_address: Some(address),
            next_hop: None,
            route_path,
            route_cost: 0,
            last_updated: now,
            quality_score: QUALITY_DIRECT,
        };
        assert(entry@.route_path =~= seq![node_id]);
        map_insert(&mut self.routes, node_id, entry);
    }

    /// Adds or renews a direct peer, stamped with the machine's time.
    pub fn add_direct_peer(&mut self, node_id: NodeId, address: Vec<u8>)
        ensures
            exists|now: u64|
                final(self)@ == #[trigger] old(self)@.with_direct_peer(node_id, address@, now),
    {
        let now = unix_now();
        self.add_direct_peer_at(node_id, address, now);
    }

    /// Removes a direct peer.
    pub fn remove_direct_peer(&mut self, node_id: &NodeId)
        ensures
            final(self)@ == old(self)@.without_direct_peer(*node_id),
    {
        map_remove(&mut self.direct_peers, node_id);
        match map_get(&self.routes, node_id) {
            Some(entry) => {
                if entry.direct_address.is_some() && entry.next_hop.is_none() {
                    map_remove(&mut self.routes, node_id);
                }
            },
            None => {},
        }
    }

    /// Adds an entry, in place of whatever its node had.
    pub fn add_route(&mut self, entry: RoutingEntry)
        ensures
            final(self)@ == old(self)@.with_route(entry@),
    {
        let node_id = entry.node_id;
        map_insert(&mut self.routes, node_id, entry);
    }

    /// The entry of a node.
    pub fn get_route(&self, node_id: &NodeId) -> (r: Option<RoutingEntry>)
        ensures
            entry_option_view(r) == if self@.routes.contains_key(*node_id) {
                Some(self@.routes[*node_id])
            } else {
                None
            },
    {
        map_get(&self.routes, node_id)
    }

    /// Looks up the path to a destination at time `now`.
    pub fn find_route_at(&mut self, destination: &NodeId, now: u64) -> (r: Option<Vec<NodeId>>)
        ensures
            path_option_view(r) == old(self)@.lookup(*destination, now),
            final(self)@ == old(self)@.after_lookup(*destination, now),
    {
        match map_get(&self.route_cache, destination) {
            Some(route) => {
                return Some(route);
            },
            None => {},
        }
        match map_get(&self.routes, destination) {
            Some(entry) => {
                if !is_older_than(entry.last_updated, self.route_expiry_seconds, now) {
                    let route = copy_ids(entry.route_path.as_slice());
                    map_insert(&mut self.route_cache, *destination, entry.route_path);
                    return Some(route);
                }
            },
            None => {},
        }
        None
    }

    /// Looks up the path to a destination by the machine's clock.
    pub fn find_route(&mut self, destination: &NodeId) -> (r: Option<Vec<NodeId>>)
        ensures
            exists|now: u64|
                {
                    &&& path_option_view(r) == #[trigger] old(self)@.lookup(*destination, now)
                    &&& final(self)@ == old(self)@.after_lookup(*destination, now)
                },
    {
        let now = unix_now();
        self.find_route_at(destination, now)
    }

    /// Splits a fee along a route.
    pub fn calculate_routing_fee(&self, route: &[NodeId], base_fee_sats: u64) -> (r: RoutingFee)
        ensures
            r.total == base_fee_sats,
            r.destination == fee_shares(route@.len(), base_fee_sats).destination,
            r.intermediate == fee_shares(route@.len(), base_fee_sats).intermediate,
            r.source == fee_shares(route@.len(), base_fee_sats).source,
            r.hop_count == route@.len(),
    {
        let total: u128 = base_fee_sats as u128;
        let destination: u128 = (total * 60) / 100;
        let pool: u128 = (total * 30) / 100;
        let intermediate: u128 = if route.len() > 2 {
            pool / ((route.len() - 2) as u128)
        } else {
            0
        };
        let source: u128 = (total * 10) / 100;
        RoutingFee {
            total: base_fee_sats,
            destination: destination as u64,
            intermediate: intermediate as u64,
            source: source as u64,
            hop_count: route.len(),
        }
    }

    /// Removes the stale entries at time `now`, but for the pinned ones, and
    /// empties the cache.
    pub fn cleanup_expired_at(&mut self, now: u64)
        ensures
            final(self)@ == old(self)@.swept(now),
    {
        let keys = map_keys(&self.routes);
        let ghost before = self@;
        let mut i: usize = 0;
        while i < keys.len()
            invariant
                i <= keys@.len(),
                forall|k: NodeId| keys@.contains(k) <==> before.routes.contains_key(k),
                self@.direct_peers == before.direct_peers,
                self@.cache == before.cache,
                self@.route_expiry_seconds == before.route_expiry_seconds,
                forall|k: NodeId|
                    #[trigger] self@.routes.contains_key(k) <==> (before.routes.contains_key(k)
                        && !(keys@.subrange(0, i as int).contains(k) && before.swept_away(
                        k,
                        now,
                    ))),
                forall|k: NodeId|
                    self@.routes.contains_key(k) ==> #[trigger] self@.routes[k]
                        == before.routes[k],
            decreases keys@.len() - i,
        {
            let key = keys[i];
            let ghost done = keys@.subrange(0, i as int);
            let ghost prev = self@.routes;
            assert(keys@.subrange(0, i + 1) =~= done.push(key));
            assert forall|k: NodeId| done.push(key).contains(k) <==> (done.contains(k) || k
                == key) by {
                lemma_push_contains(done, key, k);
            }
            assert(keys@.contains(key));
            match map_get(&self.routes, &key) {
                Some(entry) => {
                    assert(entry@ == prev[key]);
                    if is_older_than(entry.last_updated, self.route_expiry_seconds, now) && (
                    entry.direct_address.is_none() || entry.next_hop.is_some()) {
                        map_remove(&mut self.routes, &key);
                        assert(self@.routes == prev.remove(key));
                    } else {
                        assert(self@.routes == prev);
                    }
                },
                None => {
                    assert(self@.routes == prev);
                },
            }
            assert(self@.routes == if prev.contains_key(key) && before.swept_away(key, now) {
                prev.remove(key)
            } else {
                prev
            });
            i += 1;
        }
        assert(keys@.subrange(0, i as int) =~= keys@);
        let ghost kept = self@.routes;
        assert(kept =~= before.swept(now).routes);
        map_clear(&mut self.route_cache);
        assert(self@.routes == kept);
        assert forall|k: NodeId| !self@.cache.contains_key(k) by {
            assert(!<Vec<NodeId> as MapValue>::held(&self.route_cache).contains_key(k));
        }
        assert(self@.cache =~= Map::<NodeId, Seq<NodeId>>::empty());
    }

    /// Removes the stale entries by the machine's clock.
    pub fn cleanup_expired(&mut self)
        ensures
            exists|now: u64| final(self)@ == #[trigger] old(self)@.swept(now),
    {
        let now = unix_now();
        self.cleanup_expired_at(now);
    }

    /// The sizes of the table's three maps, and the expiry.
    pub fn stats(&self) -> (r: RoutingStats)
        ensures
            has_count(self@.routes, r.total_routes),
            has_count(self@.direct_peers, r.direct_peers),
            has_count(self@.cache, r.cached_routes),
            r.route_expiry_seconds == self@.route_expiry_seconds,
    {
        RoutingStats {
            total_routes: map_len(&self.routes),
            direct_peers: map_len(&self.direct_peers),
            cached_routes: map_len(&self.route_cache),
            route_expiry_seconds: self.route_expiry_seconds,
        }
    }
}

/// An entry that was added is the entry that is then found under its node.
pub proof fn lemma_added_route_is_found(t: TableModel, entry: RouteView)
    ensures
        t.with_route(entry).routes.contains_key(entry.node_id),
        t.with_route(entry).routes[entry.node_id] == entry,
{
}

/// A direct peer that was added and then removed leaves no route behind: a
/// lookup finds nothing, unless a path to it was cached before.
pub proof fn lemma_removed_peer_is_not_found(
    t: TableModel,
    node_id: NodeId,
    address: Seq<u8>,
    added: u64,
    now: u64,
)
    requires
        !t.cache.contains_key(node_id),
    ensures
        t.with_direct_peer(node_id, address, added).without_direct_peer(node_id).lookup(
            node_id,
            now,
        ) is None,
{
}

/// No sweep removes a direct peer: an entry with an address and no next hop
/// is the same after a sweep at any time.
pub proof fn lemma_sweep_keeps_direct_peers(t: TableModel, node_id: NodeId, now: u64)
    requires
        t.routes.contains_key(node_id),
        t.routes[node_id].is_pinned(),
    ensures
        t.swept(now).routes.contains_key(node_id),
        t.swept(now).routes[node_id] == t.routes[node_id],
{
}

/// A direct peer that was added stays among the routes through any sweep,
/// and a lookup within the expiry finds the path that is the peer alone.
pub proof fn lemma_added_peer_stays(
    t: TableModel,
    node_id: NodeId,
    address: Seq<u8>,
    added: u64,
    sweep: u64,
    now: u64,
)
    ensures
        ({
            let after = t.with_direct_peer(node_id, address, added).swept(sweep);
            &&& after.routes.contains_key(node_id)
            &&& after.routes[node_id] == direct_route(node_id, address, added)
            &&& now <= added + t.route_expiry_seconds ==> after.lookup(node_id, now) == Some(
                seq![node_id],
            )
            &&& now > added + t.route_expiry_seconds ==> after.lookup(node_id, now) is None
        }),
{
}

/// The index of direct peers is kept by adding and removing direct peers,
/// by lookups and by sweeps; and by adding a route, unless that puts another
/// kind of entry in a direct peer's place.
pub proof fn lemma_peers_stay_indexed(
    t: TableModel,
    node_id: NodeId,
    address: Seq<u8>,
    entry: RouteView,
    now: u64,
)
    requires
        t.peers_indexed(),
    ensures
        t.with_direct_peer(node_id, address, now).peers_indexed(),
        t.without_direct_peer(node_id).peers_indexed(),
        t.after_lookup(node_id, now).peers_indexed(),
        t.swept(now).peers_indexed(),
        !t.direct_peers.contains_key(entry.node_id) ==> t.with_route(entry).peers_indexed(),
{
    let a = t.with_direct_peer(node_id, address, now);
    assert forall|k: NodeId| #[trigger] a.direct_peers.contains_key(k) implies a.routes.contains_key(
        k,
    ) && a.routes[k].is_pinned() && a.routes[k].direct_address == Some(a.direct_peers[k]) by {
        if k != node_id {
            assert(t.direct_peers.contains_key(k));
        }
    }
    let b = t.without_direct_peer(node_id);
    assert forall|k: NodeId| #[trigger] b.direct_peers.contains_key(k) implies b.routes.contains_key(
        k,
    ) && b.routes[k].is_pinned() && b.routes[k].direct_address == Some(b.direct_peers[k]) by {
        assert(t.direct_peers.contains_key(k));
    }
    let c = t.swept(now);
    assert forall|k: NodeId| #[trigger] c.direct_peers.contains_key(k) implies c.routes.contains_key(
        k,
    ) && c.routes[k].is_pinned() && c.routes[k].direct_address == Some(c.direct_peers[k]) by {
        assert(t.direct_peers.contains_key(k));
    }
    if !t.direct_peers.contains_key(entry.node_id) {
        let d = t.with_route(entry);
        assert forall|k: NodeId| #[trigger]
            d.direct_peers.contains_key(k) implies d.routes.contains_key(k)
            && d.routes[k].is_pinned() && d.routes[k].direct_address == Some(
            d.direct_peers[k],
        ) by {
            assert(t.direct_peers.contains_key(k));
        }
    }
}

/// The rules of entries are kept by adding and removing direct peers, by
/// lookups and by sweeps; and by adding a route that keeps them itself.
pub proof fn lemma_entries_stay_well_formed(
    t: TableModel,
    node_id: NodeId,
    address: Seq<u8>,
    entry: RouteView,
    now: u64,
)
    requires
        t.entries_well_formed(),
    ensures
        t.with_direct_peer(node_id, address, now).entries_well_formed(),
        t.without_direct_peer(node_id).entries_well_formed(),
        t.after_lookup(node_id, now).entries_well_formed(),
        t.swept(now).entries_well_formed(),
        entry.well_formed() ==> t.with_route(entry).entries_well_formed(),
{
    let a = t.with_direct_peer(node_id, address, now);
    assert forall|k: NodeId| #[trigger] a.routes.contains_key(k) implies a.routes[k].node_id == k
        && a.routes[k].well_formed() by {
        if k != node_id {
            assert(t.routes.contains_key(k));
        }
    }
    let b = t.without_direct_peer(node_id);
    assert forall|k: NodeId| #[trigger] b.routes.contains_key(k) implies b.routes[k].node_id == k
        && b.routes[k].well_formed() by {
        assert(t.routes.contains_key(k));
    }
    let c = t.swept(now);
    assert forall|k: NodeId| #[trigger] c.routes.contains_key(k) implies c.routes[k].node_id == k
        && c.routes[k].well_formed() by {
        assert(t.routes.contains_key(k));
    }
    if entry.well_formed() {
        let d = t.with_route(entry);
        assert forall|k: NodeId| #[trigger] d.routes.contains_key(k) implies d.routes[k].node_id
            == k && d.routes[k].well_formed() by {
            if k != entry.node_id {
                assert(t.routes.contains_key(k));
            }
        }
    }
}

} // verus!
