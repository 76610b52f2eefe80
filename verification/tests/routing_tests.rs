use bllvm_mesh::routing::{
    RoutingEntry, RoutingTable, QUALITY_ADVERTISED, QUALITY_DIRECT, QUALITY_DISCOVERED,
};

#[test]
fn test_direct_peer() {
    let mut table = RoutingTable::new(3600);
    let node_id = [1u8; 32];
    let address = vec![127, 0, 0, 1, 0, 80]; // Example address

    table.add_direct_peer(node_id, address);

    let route = table.get_route(&node_id);
    assert!(route.is_some());
    let route = route.unwrap();
    assert_eq!(route.node_id, node_id);
    assert!(route.direct_address.is_some());
    assert_eq!(route.route_path, vec![node_id]);
}

#[test]
fn test_route_discovery() {
    let mut table = RoutingTable::new(3600);
    let destination = [2u8; 32];

    // Route not found (no route discovery yet)
    let route = table.find_route(&destination);
    assert!(route.is_none());
}

#[test]
fn test_fee_calculation() {
    let table = RoutingTable::new(3600);
    let route = vec![[1u8; 32], [2u8; 32], [3u8; 32]]; // 3-hop route
    let base_fee = 1000; // 1000 sats

    let fee = table.calculate_routing_fee(&route, base_fee);
    assert_eq!(fee.total, 1000);
    assert_eq!(fee.destination, 600); // 60%
    assert_eq!(fee.intermediate, 300); // 30% / 1 intermediate
    assert_eq!(fee.source, 100); // 10%
    assert_eq!(fee.hop_count, 3);
}

#[test]
fn fee_shares_round_down() {
    let table = RoutingTable::new(3600);
    let hops = |n: usize| vec![[0u8; 32]; n];
    let fee = table.calculate_routing_fee(&hops(5), 1000);
    assert_eq!((fee.destination, fee.intermediate, fee.source), (600, 100, 100));
    let fee = table.calculate_routing_fee(&hops(2), 1000);
    assert_eq!((fee.destination, fee.intermediate, fee.source, fee.hop_count), (600, 0, 100, 2));
    let fee = table.calculate_routing_fee(&hops(0), 1000);
    assert_eq!((fee.destination, fee.intermediate, fee.source, fee.hop_count), (600, 0, 100, 0));
    let fee = table.calculate_routing_fee(&hops(4), 199);
    // 60% of 199 is 119.4; 30% is 59.7, halved 29.5; 10% is 19.9.
    assert_eq!((fee.destination, fee.intermediate, fee.source), (119, 29, 19));
    let fee = table.calculate_routing_fee(&hops(3), 9);
    assert_eq!((fee.destination, fee.intermediate, fee.source), (5, 2, 0));
    // No overflow on the largest fee.
    let fee = table.calculate_routing_fee(&hops(3), u64::MAX);
    assert_eq!(fee.total, u64::MAX);
    assert_eq!(fee.destination, 11_068_046_444_225_730_969);
    assert_eq!(fee.intermediate, 5_534_023_222_112_865_484);
    assert_eq!(fee.source, 1_844_674_407_370_955_161);
}

fn entry(node: u8, next: Option<u8>, address: Option<Vec<u8>>, updated: u64) -> RoutingEntry {
    RoutingEntry {
        node_id: [node; 32],
        direct_address: address,
        next_hop: next.map(|n| [n; 32]),
        route_path: match next {
            Some(n) => vec![[0u8; 32], [n; 32], [node; 32]],
            None => vec![[node; 32]],
        },
        route_cost: 7,
        last_updated: updated,
        quality_score: QUALITY_DISCOVERED,
    }
}

#[test]
fn an_added_route_is_found_as_it_was_added() {
    let mut table = RoutingTable::new(3600);
    let e = entry(5, Some(4), None, 1000);
    table.add_route(e.clone());
    let got = table.get_route(&[5u8; 32]).unwrap();
    assert_eq!(format!("{:?}", got), format!("{:?}", e));
    assert!(table.get_route(&[4u8; 32]).is_none());
    // A later entry takes the place of an earlier one.
    let later = entry(5, Some(3), Some(vec![1]), 2000);
    table.add_route(later.clone());
    let got = table.get_route(&[5u8; 32]).unwrap();
    assert_eq!(format!("{:?}", got), format!("{:?}", later));
    assert_eq!(table.stats().total_routes, 1);
}

#[test]
fn a_direct_peer_has_no_cost_and_full_quality() {
    let mut table = RoutingTable::new(3600);
    table.add_direct_peer_at([1u8; 32], vec![9, 9], 1234);
    let e = table.get_route(&[1u8; 32]).unwrap();
    assert_eq!(e.direct_address, Some(vec![9, 9]));
    assert_eq!(e.next_hop, None);
    assert_eq!(e.route_cost, 0);
    assert_eq!(e.last_updated, 1234);
    assert_eq!(e.quality_score, QUALITY_DIRECT);
    assert_eq!((QUALITY_DIRECT, QUALITY_DISCOVERED, QUALITY_ADVERTISED), (1000, 800, 700));
    let stats = table.stats();
    assert_eq!((stats.total_routes, stats.direct_peers, stats.cached_routes), (1, 1, 0));
    assert_eq!(stats.route_expiry_seconds, 3600);
}

#[test]
fn a_peer_added_and_removed_is_not_found() {
    let mut table = RoutingTable::new(3600);
    table.add_direct_peer_at([1u8; 32], vec![9], 1000);
    table.remove_direct_peer(&[1u8; 32]);
    assert!(table.find_route_at(&[1u8; 32], 1000).is_none());
    assert!(table.get_route(&[1u8; 32]).is_none());
    let stats = table.stats();
    assert_eq!((stats.total_routes, stats.direct_peers), (0, 0));
}

#[test]
fn a_cached_path_outlives_the_removal_until_the_next_sweep() {
    let mut table = RoutingTable::new(3600);
    table.add_direct_peer_at([1u8; 32], vec![9], 1000);
    assert_eq!(table.find_route_at(&[1u8; 32], 1000), Some(vec![[1u8; 32]]));
    table.remove_direct_peer(&[1u8; 32]);
    assert_eq!(table.find_route_at(&[1u8; 32], 1000), Some(vec![[1u8; 32]]));
    table.cleanup_expired_at(1000);
    assert!(table.find_route_at(&[1u8; 32], 1000).is_none());
}

#[test]
fn removing_a_peer_leaves_a_multi_hop_route_in_place() {
    let mut table = RoutingTable::new(3600);
    table.add_direct_peer_at([1u8; 32], vec![9], 1000);
    table.add_route(entry(1, Some(4), None, 1000));
    table.add_route(entry(6, Some(1), None, 1000));
    table.remove_direct_peer(&[1u8; 32]);
    assert!(table.get_route(&[1u8; 32]).is_some());
    assert!(table.get_route(&[6u8; 32]).is_some());
    assert_eq!(table.stats().direct_peers, 0);
    // An entry with both an address and a next hop is no direct peer's entry.
    table.add_route(entry(7, Some(1), Some(vec![1]), 1000));
    table.remove_direct_peer(&[7u8; 32]);
    assert!(table.get_route(&[7u8; 32]).is_some());
}

#[test]
fn a_lookup_caches_a_fresh_path_and_finds_no_stale_one() {
    let mut table = RoutingTable::new(100);
    table.add_route(entry(5, Some(4), None, 1000));
    assert!(table.find_route_at(&[5u8; 32], 1101).is_none());
    assert_eq!(table.stats().cached_routes, 0);
    let path = table.find_route_at(&[5u8; 32], 1100).unwrap();
    assert_eq!(path, vec![[0u8; 32], [4u8; 32], [5u8; 32]]);
    assert_eq!(table.stats().cached_routes, 1);
    // The cache answers without regard to age, and to later changes.
    table.add_route(entry(5, Some(3), None, 1000));
    assert_eq!(table.find_route_at(&[5u8; 32], 9999), Some(path));
    // No overflow at the end of time.
    let mut late = RoutingTable::new(u64::MAX);
    late.add_route(entry(5, Some(4), None, u64::MAX));
    assert!(late.find_route_at(&[5u8; 32], u64::MAX).is_some());
}

#[test]
fn a_sweep_removes_stale_routes_but_no_direct_peer() {
    let mut table = RoutingTable::new(3600);
    table.add_direct_peer_at([1u8; 32], vec![9], 1000);
    table.add_route(entry(2, Some(1), None, 1000));
    table.add_route(entry(3, Some(1), None, 5000));
    table.add_route(entry(4, Some(1), Some(vec![1]), 1000));
    table.add_route(entry(5, None, None, 1000));
    assert!(table.find_route_at(&[3u8; 32], 5000).is_some());
    table.cleanup_expired_at(4600);
    assert_eq!(table.stats().total_routes, 5);
    assert_eq!(table.stats().cached_routes, 0);
    table.cleanup_expired_at(4601);
    assert!(table.get_route(&[1u8; 32]).is_some());
    assert!(table.get_route(&[2u8; 32]).is_none());
    assert!(table.get_route(&[3u8; 32]).is_some());
    assert!(table.get_route(&[4u8; 32]).is_none());
    assert!(table.get_route(&[5u8; 32]).is_none());
    assert_eq!(table.stats().direct_peers, 1);
}

#[test]
fn a_direct_peer_stays_through_sweeps_long_after_the_expiry() {
    let mut table = RoutingTable::new(3600);
    table.add_direct_peer_at([1u8; 32], vec![9], 1000);
    assert_eq!(table.find_route_at(&[1u8; 32], 1000 + 3600), Some(vec![[1u8; 32]]));
    table.cleanup_expired_at(1000 + 2 * 3600);
    // The entry is pinned.
    let e = table.get_route(&[1u8; 32]).unwrap();
    assert_eq!(e.route_path, vec![[1u8; 32]]);
    assert_eq!(e.direct_address, Some(vec![9]));
    // A lookup goes by the age of the entry: within the expiry it gives
    // the path, past it none, until the peer is renewed.
    assert_eq!(table.find_route_at(&[1u8; 32], 1000 + 2 * 3600), None);
    table.add_direct_peer_at([1u8; 32], vec![9], 1000 + 2 * 3600);
    assert_eq!(table.find_route_at(&[1u8; 32], 1000 + 2 * 3600), Some(vec![[1u8; 32]]));
}

#[test]
fn clock_driven_calls() {
    let mut table = RoutingTable::new(3600);
    table.add_direct_peer([1u8; 32], vec![9]);
    table.add_route(entry(2, Some(1), None, 0));
    assert_eq!(table.find_route(&[1u8; 32]), Some(vec![[1u8; 32]]));
    assert_eq!(table.find_route(&[2u8; 32]), None);
    table.cleanup_expired();
    assert!(table.get_route(&[1u8; 32]).is_some());
    assert!(table.get_route(&[2u8; 32]).is_none());
}
