use bllvm_mesh::routing_policy::{DetectedProtocol, MeshMode, RoutingPolicy, RoutingPolicyEngine};

#[test]
fn test_bitcoin_p2p_detection() {
    let engine = RoutingPolicyEngine::new(MeshMode::PaymentGated);

    // Bitcoin mainnet magic + version command
    let bitcoin_message = vec![
        0xf9, 0xbe, 0xb4, 0xd9, // magic
        0x76, 0x65, 0x72, 0x73, 0x69, 0x6f, 0x6e, 0x00, // "version\0"
        0x00, 0x00, 0x00, 0x00, // payload length
        0x00, 0x00, 0x00, 0x00, // checksum
    ];

    let protocol = engine.detect_protocol(&bitcoin_message);
    assert_eq!(protocol, DetectedProtocol::BitcoinP2P);

    let policy = engine.determine_policy(protocol);
    assert_eq!(policy, RoutingPolicy::Free);
}

#[test]
fn test_mesh_packet_detection() {
    let engine = RoutingPolicyEngine::new(MeshMode::PaymentGated);

    // Mesh packet magic
    let mesh_message = vec![
        b'M', b'E', b'S', b'H', // mesh magic
        0x00, 0x00, 0x00, 0x00, // rest of header
    ];

    let protocol = engine.detect_protocol(&mesh_message);
    assert_eq!(protocol, DetectedProtocol::MeshPacket);

    let policy = engine.determine_policy(protocol);
    assert_eq!(policy, RoutingPolicy::PaymentRequired);
}

#[test]
fn test_unknown_protocol() {
    let engine = RoutingPolicyEngine::new(MeshMode::PaymentGated);

    // Random data
    let unknown_message = vec![0x12, 0x34, 0x56, 0x78];

    let protocol = engine.detect_protocol(&unknown_message);
    assert_eq!(protocol, DetectedProtocol::Unknown);

    let policy = engine.determine_policy(protocol);
    assert_eq!(policy, RoutingPolicy::PaymentRequired);
}

#[test]
fn test_open_mode() {
    let engine = RoutingPolicyEngine::new(MeshMode::Open);

    // Unknown protocol in open mode should be free
    let protocol = DetectedProtocol::Unknown;
    let policy = engine.determine_policy(protocol);
    assert_eq!(policy, RoutingPolicy::Free);
}

fn bitcoin_framed(magic: [u8; 4], command: &str) -> Vec<u8> {
    let mut m = magic.to_vec();
    let mut field = [0u8; 8];
    field[..command.len()].copy_from_slice(command.as_bytes());
    m.extend_from_slice(&field);
    m.extend_from_slice(&[0u8; 8]);
    m
}

#[test]
fn detects_every_short_bitcoin_command_on_each_network() {
    let engine = RoutingPolicyEngine::new(MeshMode::BitcoinOnly);
    let magics = [[0xf9, 0xbe, 0xb4, 0xd9], [0x0b, 0x11, 0x09, 0x07], [0xfa, 0xbf, 0xb5, 0xda]];
    let commands = [
        "version", "verack", "ping", "pong", "headers", "block", "getdata", "inv", "tx",
        "notfound", "getaddr", "addr", "mempool", "blocktxn", "cfilter", "pkgtxn",
    ];
    for magic in magics {
        for command in commands {
            let m = bitcoin_framed(magic, command);
            assert_eq!(engine.detect_protocol(&m), DetectedProtocol::BitcoinP2P);
        }
    }
}

#[test]
fn detects_governance_commands() {
    let engine = RoutingPolicyEngine::new(MeshMode::PaymentGated);
    for command in ["econreg", "econveto", "econstat", "econfork", "banlist"] {
        let m = bitcoin_framed([0xf9, 0xbe, 0xb4, 0xd9], command);
        assert_eq!(engine.detect_protocol(&m), DetectedProtocol::CommonsGovernance);
        assert_eq!(
            engine.determine_policy(DetectedProtocol::CommonsGovernance),
            RoutingPolicy::Free
        );
    }
}

#[test]
fn command_window_is_eight_bytes() {
    // A name longer than the window never fits it.
    let engine = RoutingPolicyEngine::new(MeshMode::PaymentGated);
    let mut m = vec![0xf9, 0xbe, 0xb4, 0xd9];
    m.extend_from_slice(b"getheaders\0\0");
    assert_eq!(engine.detect_protocol(&m), DetectedProtocol::Unknown);
    assert!(engine.is_bitcoin_command("getheaders"));
    assert!(engine.is_governance_command("getbanlist"));
    assert!(!engine.is_bitcoin_command("econreg"));
    assert!(!engine.is_governance_command("version"));
    assert!(!engine.is_bitcoin_command("Version"));
}

#[test]
fn bitcoin_magic_needs_twelve_bytes_and_a_known_command() {
    let engine = RoutingPolicyEngine::new(MeshMode::PaymentGated);
    // Magic alone: too short for a command.
    assert_eq!(
        engine.detect_protocol(&[0xf9, 0xbe, 0xb4, 0xd9, b'p', b'i', b'n', b'g']),
        DetectedProtocol::Unknown
    );
    // Unknown command.
    let m = bitcoin_framed([0xf9, 0xbe, 0xb4, 0xd9], "bogus");
    assert_eq!(engine.detect_protocol(&m), DetectedProtocol::Unknown);
    // A NUL inside the command is kept, so the name does not match.
    let mut n = vec![0xf9, 0xbe, 0xb4, 0xd9];
    n.extend_from_slice(b"pi\0ng\0\0\0");
    n.extend_from_slice(&[0u8; 8]);
    assert_eq!(engine.detect_protocol(&n), DetectedProtocol::Unknown);
}

#[test]
fn detects_stratum_v2_by_tag() {
    let engine = RoutingPolicyEngine::new(MeshMode::PaymentGated);
    assert_eq!(engine.detect_protocol(&[0x00, 0x01]), DetectedProtocol::StratumV2);
    assert_eq!(engine.detect_protocol(&[0xff, 0x01, 0x33]), DetectedProtocol::StratumV2);
    assert_eq!(engine.detect_protocol(&[0x00, 0x02]), DetectedProtocol::StratumV2);
    assert_eq!(engine.detect_protocol(&[0xff, 0x02]), DetectedProtocol::StratumV2);
    assert_eq!(engine.detect_protocol(&[0xff, 0x00]), DetectedProtocol::Unknown);
    assert_eq!(engine.detect_protocol(&[0x00, 0x03]), DetectedProtocol::Unknown);
    assert_eq!(engine.detect_protocol(&[0x01]), DetectedProtocol::Unknown);
    assert_eq!(engine.detect_protocol(&[]), DetectedProtocol::Unknown);
    assert!(engine.is_stratum_v2_message(&[0x10, 0x01]));
    assert!(!engine.is_stratum_v2_message(&[0x01, 0x10]));
}

#[test]
fn policy_table_is_as_stated() {
    let protocols = [
        DetectedProtocol::BitcoinP2P,
        DetectedProtocol::CommonsGovernance,
        DetectedProtocol::StratumV2,
        DetectedProtocol::MeshPacket,
        DetectedProtocol::Unknown,
    ];
    let table = [
        (MeshMode::BitcoinOnly, [true, true, true, false, false]),
        (MeshMode::PaymentGated, [true, true, true, false, false]),
        (MeshMode::Open, [true, true, true, true, true]),
    ];
    for (mode, free) in table {
        let engine = RoutingPolicyEngine::new(mode);
        for (i, protocol) in protocols.iter().enumerate() {
            let expected = if free[i] { RoutingPolicy::Free } else { RoutingPolicy::PaymentRequired };
            assert_eq!(engine.determine_policy(*protocol), expected);
        }
    }
}

#[test]
fn classification_ignores_bytes_after_the_prefix() {
    let engine = RoutingPolicyEngine::new(MeshMode::PaymentGated);
    let heads: [Vec<u8>; 4] = [
        bitcoin_framed([0xf9, 0xbe, 0xb4, 0xd9], "ping")[..12].to_vec(),
        vec![b'M', b'E', b'S', b'H', 1, 2, 3, 4, 5, 6, 7, 8],
        vec![0x05, 0x02, 9, 9, 9, 9, 9, 9, 9, 9, 9, 9],
        vec![9, 9, 9, 9, 9, 9, 9, 9, 9, 9, 9, 9],
    ];
    for head in heads {
        let mut a = head.clone();
        a.extend_from_slice(&[0u8; 40]);
        let mut b = head.clone();
        b.extend_from_slice(&[0xffu8; 7]);
        let p = engine.detect_protocol(&head);
        assert_eq!(engine.detect_protocol(&a), p);
        assert_eq!(engine.detect_protocol(&b), p);
        assert_eq!(engine.determine_policy(engine.detect_protocol(&a)), engine.determine_policy(p));
    }
}

#[test]
fn mode_is_read_and_set() {
    let mut engine = RoutingPolicyEngine::new(MeshMode::PaymentGated);
    assert_eq!(engine.mode(), MeshMode::PaymentGated);
    engine.set_mode(MeshMode::Open);
    assert_eq!(engine.mode(), MeshMode::Open);
    assert_eq!(engine.determine_policy(DetectedProtocol::MeshPacket), RoutingPolicy::Free);
}

#[test]
fn mode_names_are_read_without_regard_to_case() {
    assert_eq!(MeshMode::from("bitcoin_only"), MeshMode::BitcoinOnly);
    assert_eq!(MeshMode::from("bitcoin-only"), MeshMode::BitcoinOnly);
    assert_eq!(MeshMode::from("Bitcoin_Only"), MeshMode::BitcoinOnly);
    assert_eq!(MeshMode::from("payment_gated"), MeshMode::PaymentGated);
    assert_eq!(MeshMode::from("payment-gated"), MeshMode::PaymentGated);
    assert_eq!(MeshMode::from("paymentgated"), MeshMode::PaymentGated);
    assert_eq!(MeshMode::from("open"), MeshMode::Open);
    assert_eq!(MeshMode::from("OPEN"), MeshMode::Open);
    assert_eq!(MeshMode::from("anything else"), MeshMode::PaymentGated);
    assert_eq!(MeshMode::from(""), MeshMode::PaymentGated);
    assert_eq!(MeshMode::from("open "), MeshMode::PaymentGated);
}
