use bllvm_mesh::discovery::{
    DiscoveryMessage, DiscoveryStep, RequestAction, RouteAdvertisementEntry, RouteDiscovery,
};
use bllvm_mesh::error::MeshError;
use bllvm_mesh::routing::{RoutingEntry, RoutingTable, QUALITY_ADVERTISED, QUALITY_DISCOVERED};

const ME: [u8; 32] = [1u8; 32];
const PEER: [u8; 32] = [2u8; 32];
const FAR: [u8; 32] = [9u8; 32];

fn request(destination: [u8; 32], max_hops: u8) -> DiscoveryMessage {
    DiscoveryMessage::RouteRequest { destination, source: PEER, request_id: 77, max_hops }
}

#[test]
fn a_known_route_is_found_at_once() {
    let mut table = RoutingTable::new(3600);
    let mut discovery = RouteDiscovery::new(10, 30);
    table.add_direct_peer_at(PEER, vec![1], 1000);
    let step = discovery.discover_route_at(&mut table, PEER, ME, 1000).unwrap();
    assert!(matches!(step, DiscoveryStep::Found(p) if p == vec![PEER]));
    assert_eq!(discovery.pending_count(), 0);
}

#[test]
fn a_stale_entry_with_an_address_gives_the_path_straight_to_it() {
    let mut table = RoutingTable::new(3600);
    let mut discovery = RouteDiscovery::new(10, 30);
    table.add_direct_peer_at(PEER, vec![1], 1000);
    let step = discovery.discover_route_at(&mut table, PEER, ME, 9000).unwrap();
    assert!(matches!(step, DiscoveryStep::Found(p) if p == vec![ME, PEER]));
    assert_eq!(discovery.pending_count(), 0);
}

#[test]
fn an_unknown_destination_records_a_request_for_broadcast() {
    let mut table = RoutingTable::new(3600);
    let mut discovery = RouteDiscovery::new(10, 30);
    let step = discovery.discover_route_at(&mut table, FAR, ME, 1000).unwrap();
    match step {
        DiscoveryStep::Broadcast(DiscoveryMessage::RouteRequest {
            destination,
            source,
            request_id,
            max_hops,
        }) => {
            assert_eq!(destination, FAR);
            assert_eq!(source, ME);
            assert_eq!(request_id, 1);
            assert_eq!(max_hops, 10);
        },
        other => panic!("unexpected step {:?}", other),
    }
    assert_eq!(discovery.pending_count(), 1);
    assert!(discovery.has_pending(1));
    assert!(!discovery.has_pending(2));
    // Each request gets the next identifier.
    let step = discovery.discover_route_at(&mut table, FAR, ME, 1001).unwrap();
    assert!(matches!(
        step,
        DiscoveryStep::Broadcast(DiscoveryMessage::RouteRequest { request_id: 2, .. })
    ));
    assert_eq!(discovery.pending_count(), 2);
}

#[test]
fn pending_requests_are_given_up_after_the_timeout() {
    let mut table = RoutingTable::new(3600);
    let mut discovery = RouteDiscovery::new(10, 30);
    discovery.discover_route_at(&mut table, FAR, ME, 1000).unwrap();
    discovery.discover_route_at(&mut table, [8u8; 32], ME, 1010).unwrap();
    discovery.discover_route_at(&mut table, [7u8; 32], ME, 1005).unwrap();
    discovery.cleanup_expired_at(1030);
    assert_eq!(discovery.pending_count(), 3);
    discovery.cleanup_expired_at(1031);
    assert_eq!(discovery.pending_count(), 2);
    assert!(!discovery.has_pending(1));
    assert!(discovery.has_pending(2) && discovery.has_pending(3));
    discovery.cleanup_expired_at(1036);
    assert!(discovery.has_pending(2) && !discovery.has_pending(3));
    discovery.cleanup_expired_at(u64::MAX);
    assert_eq!(discovery.pending_count(), 0);
    // Identifiers are not given out again.
    let step = discovery.discover_route_at(&mut table, FAR, ME, 2000).unwrap();
    assert!(matches!(
        step,
        DiscoveryStep::Broadcast(DiscoveryMessage::RouteRequest { request_id: 4, .. })
    ));
}

#[test]
fn a_request_for_a_known_route_is_answered_at_100_a_hop() {
    let mut table = RoutingTable::new(3600);
    let discovery = RouteDiscovery::new(10, 30);
    table.add_route(RoutingEntry {
        node_id: FAR,
        direct_address: None,
        next_hop: Some(PEER),
        route_path: vec![ME, PEER, FAR],
        route_cost: 5,
        last_updated: 1000,
        quality_score: QUALITY_DISCOVERED,
    });
    let action = discovery.handle_route_request(&mut table, &request(FAR, 0), PEER, &ME, 1000);
    match action.unwrap() {
        RequestAction::Respond(DiscoveryMessage::RouteResponse {
            destination,
            source,
            request_id,
            route,
            cost,
        }) => {
            assert_eq!(destination, FAR);
            assert_eq!(source, PEER);
            assert_eq!(request_id, 77);
            assert_eq!(route, vec![ME, PEER, FAR]);
            assert_eq!(cost, 300);
        },
        other => panic!("unexpected action {:?}", other),
    }
}

#[test]
fn a_request_for_this_node_is_answered_with_the_straight_path() {
    let mut table = RoutingTable::new(3600);
    let discovery = RouteDiscovery::new(10, 30);
    let action = discovery.handle_route_request(&mut table, &request(ME, 0), PEER, &ME, 1000);
    match action.unwrap() {
        RequestAction::Respond(DiscoveryMessage::RouteResponse { route, cost, request_id, .. }) => {
            assert_eq!(route, vec![PEER, ME]);
            assert_eq!(cost, 0);
            assert_eq!(request_id, 77);
        },
        other => panic!("unexpected action {:?}", other),
    }
}

#[test]
fn a_request_for_an_unknown_node_travels_on_while_hops_are_left() {
    let mut table = RoutingTable::new(3600);
    let discovery = RouteDiscovery::new(10, 30);
    let action = discovery.handle_route_request(&mut table, &request(FAR, 3), PEER, &ME, 1000);
    match action.unwrap() {
        RequestAction::Forward(DiscoveryMessage::RouteRequest {
            destination,
            source,
            request_id,
            max_hops,
        }) => {
            assert_eq!((destination, source, request_id, max_hops), (FAR, PEER, 77, 2));
        },
        other => panic!("unexpected action {:?}", other),
    }
    let action = discovery.handle_route_request(&mut table, &request(FAR, 1), PEER, &ME, 1000);
    assert!(matches!(
        action.unwrap(),
        RequestAction::Forward(DiscoveryMessage::RouteRequest { max_hops: 0, .. })
    ));
    let action = discovery.handle_route_request(&mut table, &request(FAR, 0), PEER, &ME, 1000);
    assert!(matches!(action.unwrap(), RequestAction::Drop));
    // A message that is no request is dropped.
    let ad = DiscoveryMessage::RouteAdvertisement { routes: vec![], source: PEER };
    let action = discovery.handle_route_request(&mut table, &ad, PEER, &ME, 1000);
    assert!(matches!(action.unwrap(), RequestAction::Drop));
}

fn response(request_id: u64, route: Vec<[u8; 32]>) -> DiscoveryMessage {
    DiscoveryMessage::RouteResponse { destination: FAR, source: ME, request_id, route, cost: 250 }
}

#[test]
fn a_response_to_a_pending_request_gives_a_route_and_ends_the_request() {
    let mut table = RoutingTable::new(3600);
    let mut discovery = RouteDiscovery::new(10, 30);
    discovery.discover_route_at(&mut table, FAR, ME, 1000).unwrap();
    discovery.discover_route_at(&mut table, [8u8; 32], ME, 1000).unwrap();
    let r = discovery.handle_route_response_at(
        &mut table,
        &response(1, vec![ME, PEER, FAR]),
        PEER,
        1234,
    );
    assert!(r.is_ok());
    assert!(!discovery.has_pending(1));
    assert!(discovery.has_pending(2));
    let e = table.get_route(&FAR).unwrap();
    assert_eq!(e.node_id, FAR);
    assert_eq!(e.direct_address, None);
    assert_eq!(e.next_hop, Some(PEER));
    assert_eq!(e.route_path, vec![ME, PEER, FAR]);
    assert_eq!(e.route_cost, 250);
    assert_eq!(e.last_updated, 1234);
    assert_eq!(e.quality_score, QUALITY_DISCOVERED);
    assert_eq!(e.quality_score, 800);
    // The route is now found.
    let step = discovery.discover_route_at(&mut table, FAR, ME, 1300).unwrap();
    assert!(matches!(step, DiscoveryStep::Found(p) if p == vec![ME, PEER, FAR]));
}

#[test]
fn a_response_to_no_pending_request_changes_nothing() {
    let mut table = RoutingTable::new(3600);
    let mut discovery = RouteDiscovery::new(10, 30);
    discovery.discover_route_at(&mut table, FAR, ME, 1000).unwrap();
    assert!(!discovery.has_pending(5));
    let r = discovery.handle_route_response_at(&mut table, &response(5, vec![ME]), PEER, 1234);
    assert!(r.is_ok());
    assert!(table.get_route(&FAR).is_none());
    assert_eq!(discovery.pending_count(), 1);
    // Nor does a message that is no response.
    let r = discovery.handle_route_response_at(&mut table, &request(FAR, 1), PEER, 1234);
    assert!(r.is_ok());
    assert_eq!(discovery.pending_count(), 1);
    assert_eq!(table.stats().total_routes, 0);
    let r = discovery.handle_route_response(&mut table, &response(5, vec![ME]), PEER);
    assert!(r.is_ok());
    assert_eq!(table.stats().total_routes, 0);
}

#[test]
fn advertised_routes_take_the_place_of_what_was_there() {
    let mut table = RoutingTable::new(3600);
    let discovery = RouteDiscovery::new(10, 30);
    table.add_direct_peer_at([5u8; 32], vec![1], 1000);
    let ad = DiscoveryMessage::RouteAdvertisement {
        routes: vec![
            RouteAdvertisementEntry { destination: FAR, next_hop: [3u8; 32], cost: 10, hop_count: 2 },
            RouteAdvertisementEntry {
                destination: [5u8; 32],
                next_hop: [3u8; 32],
                cost: 20,
                hop_count: 2,
            },
            RouteAdvertisementEntry { destination: FAR, next_hop: [4u8; 32], cost: 30, hop_count: 3 },
        ],
        source: PEER,
    };
    assert!(discovery.handle_route_advertisement_at(&mut table, &ad, PEER, 2000).is_ok());
    let e = table.get_route(&FAR).unwrap();
    assert_eq!(e.next_hop, Some([4u8; 32]));
    assert_eq!(e.route_path, vec![PEER, [4u8; 32], FAR]);
    assert_eq!(e.route_cost, 30);
    assert_eq!(e.last_updated, 2000);
    assert_eq!(e.direct_address, None);
    assert_eq!(e.quality_score, QUALITY_ADVERTISED);
    assert_eq!(e.quality_score, 700);
    // The last writer wins, also over a direct peer's entry.
    let e = table.get_route(&[5u8; 32]).unwrap();
    assert_eq!(e.next_hop, Some([3u8; 32]));
    assert_eq!(e.direct_address, None);
    assert_eq!(table.stats().total_routes, 2);
    // A message that is no advertisement changes nothing.
    assert!(discovery.handle_route_advertisement_at(&mut table, &request(FAR, 1), PEER, 1).is_ok());
    assert_eq!(table.stats().total_routes, 2);
    assert!(discovery.handle_route_advertisement(&mut table, &ad, PEER).is_ok());
    assert!(table.get_route(&FAR).unwrap().last_updated > 2000);
}

#[test]
fn a_batch_searches_one_destination_after_the_other() {
    let mut table = RoutingTable::new(3600);
    let mut discovery = RouteDiscovery::new(10, 30);
    table.add_direct_peer_at(PEER, vec![1], 1000);
    let steps = discovery
        .discover_routes_batch_at(&mut table, &[FAR, PEER, FAR], ME, 1000)
        .unwrap();
    assert_eq!(steps.len(), 3);
    assert!(matches!(
        &steps[0],
        DiscoveryStep::Broadcast(DiscoveryMessage::RouteRequest { request_id: 1, .. })
    ));
    assert!(matches!(&steps[1], DiscoveryStep::Found(p) if *p == vec![PEER]));
    assert!(matches!(
        &steps[2],
        DiscoveryStep::Broadcast(DiscoveryMessage::RouteRequest { request_id: 2, .. })
    ));
    assert_eq!(discovery.pending_count(), 2);
    assert!(discovery.discover_routes_batch_at(&mut table, &[], ME, 1000).unwrap().is_empty());
    let by_clock: Result<Vec<DiscoveryStep>, MeshError> =
        discovery.discover_routes_batch(&mut table, &[PEER], ME);
    assert_eq!(by_clock.unwrap().len(), 1);
    assert!(discovery.discover_route(&mut table, FAR, ME).is_ok());
    discovery.cleanup_expired();
    assert_eq!(discovery.pending_count(), 1);
}
