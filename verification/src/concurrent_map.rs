//! The concurrent hash maps that hold the routing and replay state.
//!
//! The maps are `dashmap::DashMap`s keyed by a 32-byte identifier. What a
//! map holds is named here as a mathematical map, one name for each kind of
//! value, and the operations on it are stated over that name. The operations
//! take the map by exclusive reference where they change it, so that what it
//! holds changes only through them.

use crate::packet::NodeId;
use crate::replay::ReplayEntry;
use crate::routing::{RouteView, RoutingEntry};
use dashmap::DashMap;
use vstd::prelude::*;

verus! {

/// `dashmap::DashMap`, made known as a type: it can stand in fields and
/// signatures, and nothing is known of what is inside a value of it.
#[verifier::external_type_specification]
#[verifier::external_body]
#[verifier::reject_recursive_types(K)]
#[verifier::reject_recursive_types(V)]
#[verifier::reject_recursive_types(S)]
pub struct ExDashMap<K, V, S>(DashMap<K, V, S>);

/// The routes that a map of routing entries holds.
pub uninterp spec fn route_entries(m: DashMap<[u8; 32], RoutingEntry>) -> Map<[u8; 32], RouteView>;

/// The addresses that a map of direct peers holds.
pub uninterp spec fn peer_addresses(m: DashMap<[u8; 32], Vec<u8>>) -> Map<[u8; 32], Seq<u8>>;

/// The paths that a route cache holds.
pub uninterp spec fn cached_paths(m: DashMap<[u8; 32], Vec<[u8; 32]>>) -> Map<
    [u8; 32],
    Seq<[u8; 32]>,
>;

/// The uses of proofs that a replay map holds.
pub uninterp spec fn replay_entries(m: DashMap<[u8; 32], ReplayEntry>) -> Map<[u8; 32], ReplayEntry>;

/// The last sequence numbers that a map of peers holds.
pub uninterp spec fn peer_sequences(m: DashMap<[u8; 32], u64>) -> Map<[u8; 32], u64>;

/// A kind of value that the maps hold: its mathematical form, and the name
/// for what a map of such values holds.
///
/// The trait is closed: it rests on `Named`, which is private to this file,
/// so it can be implemented nowhere else. Its impls are the five below, one
/// for each name: the operations on the maps are stated over `held`, and
/// they hold of these five.
pub(crate) trait MapValue: Sized + Named {
    type Model;

    /// The value as a mathematical value.
    spec fn model(&self) -> Self::Model;

    /// What a map of such values holds.
    spec fn held(m: &DashMap<[u8; 32], Self>) -> Map<[u8; 32], Self::Model>;
}

/// The kinds of value for which a name is declared above.
trait Named {
}

impl Named for RoutingEntry {
}

impl Named for Vec<u8> {
}

impl Named for Vec<[u8; 32]> {
}

impl Named for ReplayEntry {
}

impl Named for u64 {
}

impl MapValue for RoutingEntry {
    type Model = RouteView;

    open spec fn model(&self) -> RouteView {
        self@
    }

    open spec fn held(m: &DashMap<[u8; 32], Self>) -> Map<[u8; 32], RouteView> {
        route_entries(*m)
    }
}

impl MapValue for Vec<u8> {
    type Model = Seq<u8>;

    open spec fn model(&self) -> Seq<u8> {
        self@
    }

    open spec fn held(m: &DashMap<[u8; 32], Self>) -> Map<[u8; 32], Seq<u8>> {
        peer_addresses(*m)
    }
}

impl MapValue for Vec<[u8; 32]> {
    type Model = Seq<[u8; 32]>;

    open spec fn model(&self) -> Seq<[u8; 32]> {
        self@
    }

    open spec fn held(m: &DashMap<[u8; 32], Self>) -> Map<[u8; 32], Seq<[u8; 32]>> {
        cached_paths(*m)
    }
}

impl MapValue for ReplayEntry {
    type Model = ReplayEntry;

    open spec fn model(&self) -> ReplayEntry {
        *self
    }

    open spec fn held(m: &DashMap<[u8; 32], Self>) -> Map<[u8; 32], ReplayEntry> {
        replay_entries(*m)
    }
}

impl MapValue for u64 {
    type Model = u64;

    open spec fn model(&self) -> u64 {
        *self
    }

    open spec fn held(m: &DashMap<[u8; 32], Self>) -> Map<[u8; 32], u64> {
        peer_sequences(*m)
    }
}

/// `DashMap::new`, for routing entries: a map that holds nothing.
#[verifier::external_body]
pub(crate) fn new_route_map() -> (m: DashMap<[u8; 32], RoutingEntry>)
    ensures
        forall|k: NodeId| !route_entries(m).contains_key(k),
{
    DashMap::new()
}

/// `DashMap::new`, for peer addresses: a map that holds nothing.
#[verifier::external_body]
pub(crate) fn new_address_map() -> (m: DashMap<[u8; 32], Vec<u8>>)
    ensures
        forall|k: NodeId| !peer_addresses(m).contains_key(k),
{
    DashMap::new()
}

/// `DashMap::new`, for cached paths: a map that holds nothing.
#[verifier::external_body]
pub(crate) fn new_path_map() -> (m: DashMap<[u8; 32], Vec<[u8; 32]>>)
    ensures
        forall|k: NodeId| !cached_paths(m).contains_key(k),
{
    DashMap::new()
}

/// `DashMap::new`, for uses of proofs: a map that holds nothing.
#[verifier::external_body]
pub(crate) fn new_replay_map() -> (m: DashMap<[u8; 32], ReplayEntry>)
    ensures
        forall|k: NodeId| !replay_entries(m).contains_key(k),
{
    DashMap::new()
}

/// `DashMap::new`, for sequence numbers: a map that holds nothing.
#[verifier::external_body]
pub(crate) fn new_sequence_map() -> (m: DashMap<[u8; 32], u64>)
    ensures
        forall|k: NodeId| !peer_sequences(m).contains_key(k),
{
    DashMap::new()
}

/// `DashMap::insert`: afterwards the key stands for the value, whatever it
/// stood for before, and every other key is as it was.
#[verifier::external_body]
pub(crate) fn map_insert<V: MapValue>(m: &mut DashMap<[u8; 32], V>, key: NodeId, value: V)
    ensures
        V::held(final(m)) == V::held(old(m)).insert(key, value.model()),
{
    m.insert(key, value);
}

/// `DashMap::get`, with the value cloned out of the guard: the value that
/// the key stands for, if it stands for one.
#[verifier::external_body]
pub(crate) fn map_get<V: MapValue + Clone>(m: &DashMap<[u8; 32], V>, key: &NodeId) -> (r: Option<V>)
    ensures
        r is Some <==> V::held(m).contains_key(*key),
        r matches Some(v) ==> v.model() == V::held(m)[*key],
{
    m.get(key).map(|e| e.value().clone())
}

/// `DashMap::contains_key`: whether the key stands for a value.
#[verifier::external_body]
pub(crate) fn map_contains<V: MapValue>(m: &DashMap<[u8; 32], V>, key: &NodeId) -> (r: bool)
    ensures
        r == V::held(m).contains_key(*key),
{
    m.contains_key(key)
}

/// `DashMap::remove`: afterwards the key stands for nothing, and every other
/// key is as it was.
#[verifier::external_body]
pub(crate) fn map_remove<V: MapValue>(m: &mut DashMap<[u8; 32], V>, key: &NodeId)
    ensures
        V::held(final(m)) == V::held(old(m)).remove(*key),
{
    m.remove(key);
}

/// `DashMap::clear`: afterwards the map holds nothing.
#[verifier::external_body]
pub(crate) fn map_clear<V: MapValue>(m: &mut DashMap<[u8; 32], V>)
    ensures
        forall|k: NodeId| !V::held(final(m)).contains_key(k),
{
    m.clear();
}

/// A map has finitely many keys, `n` of them.
pub open spec fn has_count<T>(m: Map<NodeId, T>, n: usize) -> bool {
    m.dom().finite() && m.dom().len() == n
}

/// `DashMap::len`: the number of keys, of which there are finitely many.
#[verifier::external_body]
pub(crate) fn map_len<V: MapValue>(m: &DashMap<[u8; 32], V>) -> (r: usize)
    ensures
        has_count(V::held(m), r),
{
    m.len()
}

/// `DashMap::iter`, with the keys copied out: every key of the map, each
/// once, in an order of which nothing is known.
#[verifier::external_body]
pub(crate) fn map_keys<V: MapValue>(m: &DashMap<[u8; 32], V>) -> (r: Vec<NodeId>)
    ensures
        r@.no_duplicates(),
        forall|k: NodeId| r@.contains(k) <==> V::held(m).contains_key(k),
{
    m.iter().map(|e| *e.key()).collect()
}

} // verus!
