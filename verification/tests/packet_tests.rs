use bllvm_mesh::packet::{
    route_contains, MeshPacket, PacketMetadata, PacketType, MAX_PACKET_SIZE, MAX_ROUTE_LEN,
    MESH_PACKET_VERSION,
};
use bllvm_mesh::payment_proof::PaymentProof;

fn sample_proof() -> PaymentProof {
    PaymentProof::Lightning {
        invoice: "lnbc1".to_string(),
        preimage: [9u8; 32],
        amount_msats: 1000,
        timestamp: 10,
        expires_at: 20,
    }
}

fn valid_packet() -> MeshPacket {
    let mut p = MeshPacket::new_at(PacketType::BitcoinP2P, [1u8; 32], [3u8; 32], vec![7; 10], 99);
    p.route = vec![[1u8; 32], [2u8; 32], [3u8; 32]];
    p
}

#[test]
fn new_packet_has_the_stated_fields() {
    let p = MeshPacket::new_at(PacketType::StratumV2, [1u8; 32], [2u8; 32], vec![1, 2], 1234);
    assert_eq!(p.version, MESH_PACKET_VERSION);
    assert_eq!(p.version, 1);
    assert_eq!(p.packet_type, PacketType::StratumV2);
    assert_eq!(p.source, [1u8; 32]);
    assert_eq!(p.destination, [2u8; 32]);
    assert_eq!(p.route, vec![[1u8; 32]]);
    assert_eq!(p.sequence, 0);
    assert_eq!(p.timestamp, 1234);
    assert!(p.payment_proof.is_none());
    assert_eq!(p.payload, vec![1, 2]);
    assert!(p.metadata.is_none());

    let q = MeshPacket::new(PacketType::Paid, [1u8; 32], [2u8; 32], vec![5]);
    assert_eq!(q.route, vec![[1u8; 32]]);
    assert_eq!(q.sequence, 0);
    assert!(q.timestamp > 1_600_000_000);

    let r = MeshPacket::new_paid([1u8; 32], [2u8; 32], vec![5], sample_proof());
    assert_eq!(r.packet_type, PacketType::Paid);
    assert!(r.payment_proof.is_some());
}

#[test]
fn validate_names_the_first_broken_rule() {
    let p = valid_packet();
    assert_eq!(p.validate(), Ok(()));

    let mut q = valid_packet();
    q.version = 0;
    q.route.clear();
    assert_eq!(q.validate(), Err("Invalid packet version: 0".to_string()));
    q.version = 255;
    assert_eq!(q.validate(), Err("Invalid packet version: 255".to_string()));

    let mut q = valid_packet();
    q.route.clear();
    assert_eq!(q.validate(), Err("Route cannot be empty".to_string()));

    let mut q = valid_packet();
    q.route[0] = [8u8; 32];
    assert_eq!(q.validate(), Err("Route must start with source node".to_string()));

    let mut q = valid_packet();
    q.route[2] = [8u8; 32];
    assert_eq!(q.validate(), Err("Route must end with destination node".to_string()));

    let mut q = valid_packet();
    q.packet_type = PacketType::Paid;
    assert_eq!(q.validate(), Err("Paid packets require payment proof".to_string()));
    q.payment_proof = Some(sample_proof());
    assert_eq!(q.validate(), Ok(()));

    // The zero hash is no destination, also where the route ends at it.
    let mut q = valid_packet();
    q.destination = [0u8; 32];
    q.route[2] = [0u8; 32];
    assert_eq!(q.validate(), Err("Invalid destination (zero hash)".to_string()));
    q.packet_type = PacketType::Paid;
    assert_eq!(q.validate(), Err("Paid packets require payment proof".to_string()));
}

#[test]
fn the_zero_hash_is_no_destination() {
    let p = MeshPacket {
        version: 1,
        packet_type: PacketType::BitcoinP2P,
        source: [0u8; 32],
        destination: [0u8; 32],
        route: vec![[0u8; 32]],
        sequence: 0,
        timestamp: 0,
        payment_proof: None,
        payload: vec![1],
        metadata: None,
    };
    assert_eq!(p.validate(), Err("Invalid destination (zero hash)".to_string()));
    // One byte that is not zero is enough, wherever it stands.
    for place in [0usize, 15, 31] {
        let mut id = [0u8; 32];
        id[place] = 1;
        let mut q = MeshPacket::new_at(PacketType::BitcoinP2P, id, id, vec![1], 0);
        assert_eq!(q.validate(), Ok(()));
        q.destination = [0u8; 32];
        assert!(q.validate().is_err());
    }
}

fn encoded(p: &MeshPacket) -> usize {
    let mut bytes = Vec::new();
    p.encode(&mut bytes);
    bytes.len()
}

#[test]
fn the_estimate_counts_header_route_payload_and_flat_sums() {
    let mut p = valid_packet();
    assert_eq!(p.serialized_size(), 82 + 3 * 32 + 10);
    p.payment_proof = Some(sample_proof());
    assert_eq!(p.serialized_size(), 82 + 3 * 32 + 500 + 10);
    p.metadata = Some(PacketMetadata { protocol: None, fields: vec![] });
    assert_eq!(p.serialized_size(), 82 + 3 * 32 + 500 + 10 + 100);
    let small = MeshPacket::new_at(PacketType::BitcoinP2P, [1u8; 32], [2u8; 32], vec![1, 2, 3, 4], 0);
    assert_eq!(small.serialized_size(), 118);
}

#[test]
fn the_size_is_the_length_of_the_encoding() {
    let mut p = valid_packet();
    assert_eq!(p.encoded_len(), 103 + 3 * 32 + 10);
    assert_eq!(p.encoded_len(), encoded(&p));
    p.payment_proof = Some(sample_proof());
    assert_eq!(p.encoded_len(), 103 + 3 * 32 + 10 + 68 + 5);
    assert_eq!(p.encoded_len(), encoded(&p));
    assert_eq!(sample_proof().encoded_len(), 73);
    p.metadata = Some(PacketMetadata { protocol: None, fields: vec![] });
    assert_eq!(p.encoded_len(), 103 + 3 * 32 + 10 + 73 + 9);
    assert_eq!(p.encoded_len(), encoded(&p));
    let mut m = PacketMetadata::new(Some("stratum-v2".to_string()));
    m.set_field("a".to_string(), "bc".to_string());
    m.set_field("é".to_string(), "".to_string());
    assert_eq!(m.encoded_len(), 1 + 8 + 10 + 8 + (8 + 1 + 8 + 2) + (8 + 2 + 8));
    p.metadata = Some(m);
    assert_eq!(p.encoded_len(), encoded(&p));
    p.payment_proof = Some(PaymentProof::InstantSettlement {
        covenant_proof: vec![1, 2, 3],
        output_index: 0,
        merkle_proof: vec![[0u8; 32]; 2],
        amount_sats: 1,
        timestamp: 1,
    });
    assert_eq!(p.payment_proof.as_ref().unwrap().encoded_len(), 40 + 3 + 64);
    assert_eq!(p.encoded_len(), encoded(&p));
}

#[test]
fn a_packet_of_a_million_bytes_validates_and_one_more_does_not() {
    let mut p = MeshPacket::new_at(PacketType::BitcoinP2P, [1u8; 32], [1u8; 32], vec![], 0);
    p.payload = vec![0u8; MAX_PACKET_SIZE - 103 - 32];
    assert_eq!(p.encoded_len(), 1_000_000);
    assert_eq!(encoded(&p), 1_000_000);
    assert_eq!(p.validate(), Ok(()));
    p.payload.push(0);
    assert_eq!(p.encoded_len(), 1_000_001);
    assert_eq!(
        p.validate(),
        Err("Packet size exceeds maximum: 1000001 > 1000000".to_string())
    );
}

#[test]
fn proof_and_metadata_count_with_their_length() {
    // A template commitment with an empty covenant takes 40 bytes.
    let settlement = |covenant: Vec<u8>| PaymentProof::InstantSettlement {
        covenant_proof: covenant,
        output_index: 0,
        merkle_proof: vec![],
        amount_sats: 1,
        timestamp: 1,
    };
    let mut p = MeshPacket::new_paid([1u8; 32], [1u8; 32], vec![], settlement(vec![]));
    p.payload = vec![0u8; MAX_PACKET_SIZE - 103 - 32 - 40];
    assert_eq!(encoded(&p), 1_000_000);
    assert_eq!(p.validate(), Ok(()));
    p.payload.push(0);
    assert!(p.validate().is_err());
    // A long covenant is not counted as a flat sum.
    let mut q = MeshPacket::new_paid([1u8; 32], [1u8; 32], vec![1], settlement(vec![0u8; 1_000_000]));
    assert_eq!(
        q.validate(),
        Err("Packet size exceeds maximum: 1000176 > 1000000".to_string())
    );
    q.payment_proof = Some(settlement(vec![0u8; 10]));
    assert_eq!(q.validate(), Ok(()));
    // Nor is long metadata.
    let mut m = PacketMetadata::new(None);
    m.set_field("k".to_string(), "v".repeat(1_000_000));
    q.metadata = Some(m);
    assert!(q.validate().is_err());
    q.metadata = Some(PacketMetadata::new(Some("p".repeat(1000))));
    assert_eq!(q.validate(), Ok(()));
}

#[test]
fn the_longest_route_of_a_valid_packet() {
    let longest = (MAX_PACKET_SIZE - 103) / 32;
    assert!(longest <= MAX_ROUTE_LEN);
    let mut p = MeshPacket::new_at(PacketType::BitcoinP2P, [1u8; 32], [1u8; 32], vec![], 0);
    p.route = vec![[1u8; 32]; longest];
    assert_eq!(p.validate(), Ok(()));
    p.route.push([1u8; 32]);
    assert!(p.validate().is_err());
}

#[test]
fn a_route_of_one_passes_exactly_if_source_is_destination() {
    let to_self = MeshPacket::new_at(PacketType::BitcoinP2P, [4u8; 32], [4u8; 32], vec![1], 0);
    assert_eq!(to_self.validate(), Ok(()));
    let to_other = MeshPacket::new_at(PacketType::BitcoinP2P, [4u8; 32], [5u8; 32], vec![1], 0);
    assert_eq!(to_other.validate(), Err("Route must end with destination node".to_string()));
}

#[test]
fn is_for_me_and_should_forward() {
    let p = valid_packet();
    assert!(p.is_for_me(&[3u8; 32]));
    assert!(!p.is_for_me(&[2u8; 32]));
    assert!(!p.should_forward(&[3u8; 32]));
    assert!(p.should_forward(&[2u8; 32]));
    assert!(p.should_forward(&[1u8; 32]));
    assert!(!p.should_forward(&[9u8; 32]));
    assert!(route_contains(&p.route, &[2u8; 32]));
    assert!(!route_contains(&p.route, &[9u8; 32]));
    assert!(!route_contains(&[], &[9u8; 32]));
}

#[test]
fn next_hop_follows_the_first_place_of_the_node() {
    let mut p = valid_packet();
    assert_eq!(p.get_next_hop(&[1u8; 32]), Some([2u8; 32]));
    assert_eq!(p.get_next_hop(&[2u8; 32]), Some([3u8; 32]));
    assert_eq!(p.get_next_hop(&[3u8; 32]), None);
    assert_eq!(p.get_next_hop(&[9u8; 32]), None);
    p.route = vec![[1u8; 32], [2u8; 32], [1u8; 32], [3u8; 32]];
    assert_eq!(p.get_next_hop(&[1u8; 32]), Some([2u8; 32]));
}

#[test]
fn add_to_route_puts_the_node_before_the_destination_once() {
    let mut p = valid_packet();
    p.add_to_route([7u8; 32]);
    assert_eq!(p.route, vec![[1u8; 32], [2u8; 32], [7u8; 32], [3u8; 32]]);
    p.add_to_route([7u8; 32]);
    assert_eq!(p.route, vec![[1u8; 32], [2u8; 32], [7u8; 32], [3u8; 32]]);
    p.add_to_route([3u8; 32]);
    assert_eq!(p.route.len(), 4);
    assert_eq!(p.validate(), Ok(()));

    let mut q = MeshPacket::new_at(PacketType::BitcoinP2P, [1u8; 32], [1u8; 32], vec![1], 0);
    q.add_to_route([5u8; 32]);
    assert_eq!(q.route, vec![[5u8; 32], [1u8; 32]]);
}

#[test]
fn clone_keeps_every_field() {
    let mut p = valid_packet();
    p.payment_proof = Some(sample_proof());
    p.metadata = Some(PacketMetadata {
        protocol: Some("x".to_string()),
        fields: vec![("a".to_string(), "b".to_string())],
    });
    let q = p.clone();
    assert_eq!(format!("{:?}", p), format!("{:?}", q));
}

#[test]
fn a_key_of_the_metadata_stands_for_one_field() {
    let mut m = PacketMetadata::new(Some("stratum-v2".to_string()));
    assert_eq!(m.protocol, Some("stratum-v2".to_string()));
    assert!(m.fields.is_empty());
    assert_eq!(m.field("a"), None);
    m.set_field("a".to_string(), "1".to_string());
    m.set_field("b".to_string(), "2".to_string());
    m.set_field("a".to_string(), "3".to_string());
    assert_eq!(
        m.fields,
        vec![("a".to_string(), "3".to_string()), ("b".to_string(), "2".to_string())]
    );
    assert_eq!(m.field("a"), Some(&"3".to_string()));
    assert_eq!(m.field("b"), Some(&"2".to_string()));
    assert_eq!(m.field("B"), None);
    assert_eq!(m.field(""), None);
    m.set_field("".to_string(), "é".to_string());
    assert_eq!(m.field(""), Some(&"é".to_string()));
    assert_eq!(m.fields.len(), 3);

    // In a list that was put together by hand the last pair of a key counts.
    let by_hand = PacketMetadata {
        protocol: None,
        fields: vec![
            ("a".to_string(), "1".to_string()),
            ("b".to_string(), "2".to_string()),
            ("a".to_string(), "3".to_string()),
        ],
    };
    assert_eq!(by_hand.field("a"), Some(&"3".to_string()));
    let mut by_hand = by_hand;
    by_hand.set_field("a".to_string(), "4".to_string());
    assert_eq!(by_hand.field("a"), Some(&"4".to_string()));
    assert_eq!(by_hand.fields.len(), 3);
}
