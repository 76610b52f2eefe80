use bllvm_mesh::identity::{
    generate_node_id, get_or_generate_node_id, stored_node_id, NetworkFigures,
};
use bllvm_mesh::manager::derive_node_id_from_address;

fn hex(bytes: &[u8]) -> String {
    bytes.iter().map(|b| format!("{:02x}", b)).collect()
}

#[test]
fn a_peer_is_known_under_the_digest_of_its_address() {
    assert_eq!(
        hex(&derive_node_id_from_address("abc")),
        "ba7816bf8f01cfea414140de5dae2223b00361a396177a9cb410ff61f20015ad"
    );
    assert_eq!(
        hex(&derive_node_id_from_address("")),
        "e3b0c44298fc1c149afbf4c8996fb92427ae41e4649b934ca495991b7852b855"
    );
}

#[test]
fn stored_bytes_are_an_identity_if_they_are_32() {
    assert_eq!(stored_node_id(&[5u8; 32]), Some([5u8; 32]));
    assert_eq!(stored_node_id(&[5u8; 31]), None);
    assert_eq!(stored_node_id(&[5u8; 33]), None);
    assert_eq!(stored_node_id(&[]), None);
    let mut bytes = [0u8; 32];
    for (i, b) in bytes.iter_mut().enumerate() {
        *b = i as u8;
    }
    assert_eq!(stored_node_id(&bytes), Some(bytes));
}

#[test]
fn an_identity_is_the_digest_of_the_seed() {
    // The fallback seed with nothing known: 32 zero bytes, 8 zero bytes and
    // the tag `mesh_node_id`.
    let mut seed = vec![0u8; 40];
    seed.extend_from_slice(b"mesh_node_id");
    let expected = derive_node_id_from_address(std::str::from_utf8(&seed).unwrap());
    assert_eq!(generate_node_id(None, None, None), expected);

    let mut seed = vec![0x61u8; 32];
    seed.extend_from_slice(&0x6262_6262_6262_6262u64.to_le_bytes());
    seed.extend_from_slice(b"mesh_node_id");
    let expected = derive_node_id_from_address(std::str::from_utf8(&seed).unwrap());
    assert_eq!(generate_node_id(None, Some([0x61; 32]), Some(0x6262_6262_6262_6262)), expected);

    let figures = NetworkFigures { peer_count: 0x4141_4141_4141_4141, hash_rate: 0x4242 };
    let mut seed = vec![0x41u8; 8];
    seed.extend_from_slice(&[0x42, 0x42, 0, 0, 0, 0, 0, 0]);
    seed.extend_from_slice(&[0x43; 32]);
    seed.extend_from_slice(&[0x44, 0, 0, 0, 0, 0, 0, 0]);
    seed.extend_from_slice(b"bllvm_mesh_node_id_v1");
    let expected = derive_node_id_from_address(std::str::from_utf8(&seed).unwrap());
    assert_eq!(generate_node_id(Some(figures), Some([0x43; 32]), Some(0x44)), expected);

    // What the host did not give is left out of the seed.
    let mut seed = vec![0x41u8; 8];
    seed.extend_from_slice(&[0x42, 0x42, 0, 0, 0, 0, 0, 0]);
    seed.extend_from_slice(b"bllvm_mesh_node_id_v1");
    let expected = derive_node_id_from_address(std::str::from_utf8(&seed).unwrap());
    assert_eq!(generate_node_id(Some(figures), None, None), expected);
}

#[test]
fn a_stored_identity_is_used_and_a_made_one_is_to_be_stored() {
    let figures = Some(NetworkFigures { peer_count: 3, hash_rate: 4 });
    let kept = get_or_generate_node_id(Some(&[9u8; 32]), figures, Some([1u8; 32]), Some(5));
    assert_eq!(kept.node_id, [9u8; 32]);
    assert!(!kept.persist);

    let made = get_or_generate_node_id(Some(&[9u8; 31]), figures, Some([1u8; 32]), Some(5));
    assert_eq!(made.node_id, generate_node_id(figures, Some([1u8; 32]), Some(5)));
    assert!(made.persist);

    let made = get_or_generate_node_id(None, None, None, Some(5));
    assert_eq!(made.node_id, generate_node_id(None, None, Some(5)));
    assert!(made.persist);
    assert_ne!(made.node_id, generate_node_id(None, None, Some(6)));
}
