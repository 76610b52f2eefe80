use bllvm_mesh::bytes::{array32_eq, array32_is_zero, slice_eq};
use bllvm_mesh::clock::is_older_than;
use bllvm_mesh::error::{ErrorKind, MeshError};
use bllvm_mesh::text::decimal_string;
use bllvm_mesh::wire::{
    copy_bytes, copy_ids, get_bytes, get_id, get_ids, get_text, get_u32, get_u64, get_u8, put_bytes,
    put_id, put_ids, put_slice, put_text, put_u32, put_u64, put_u8,
};

#[test]
fn decimal_text_of_numbers() {
    assert_eq!(decimal_string(0), "0");
    assert_eq!(decimal_string(7), "7");
    assert_eq!(decimal_string(10), "10");
    assert_eq!(decimal_string(1_000_000), "1000000");
    assert_eq!(decimal_string(9_876_543_210), "9876543210");
    assert_eq!(decimal_string(u64::MAX), "18446744073709551615");
}

#[test]
fn equality_of_bytes() {
    assert!(slice_eq(&[], &[]));
    assert!(slice_eq(&[1, 2], &[1, 2]));
    assert!(!slice_eq(&[1, 2], &[1, 3]));
    assert!(!slice_eq(&[1, 2], &[1, 2, 3]));
    assert!(!slice_eq(&[1, 2, 3], &[1, 2]));
    let mut a = [7u8; 32];
    assert!(array32_eq(&a, &[7u8; 32]));
    a[31] = 8;
    assert!(!array32_eq(&a, &[7u8; 32]));
    assert!(array32_is_zero(&[0u8; 32]));
    let mut z = [0u8; 32];
    z[31] = 1;
    assert!(!array32_is_zero(&z));
    z = [0u8; 32];
    z[0] = 1;
    assert!(!array32_is_zero(&z));
}

#[test]
fn older_than_is_strict_and_does_not_overflow() {
    assert!(!is_older_than(100, 10, 110));
    assert!(is_older_than(100, 10, 111));
    assert!(!is_older_than(100, 10, 0));
    assert!(!is_older_than(u64::MAX, u64::MAX, u64::MAX));
    assert!(!is_older_than(1, u64::MAX, u64::MAX));
    assert!(is_older_than(0, u64::MAX - 1, u64::MAX));
    assert!(!is_older_than(0, u64::MAX, u64::MAX));
}

#[test]
fn each_kind_of_error_has_its_heading() {
    let cases = [
        (MeshError::ModuleError("x".to_string()), ErrorKind::Module, "Module error: x"),
        (MeshError::RoutingError("x".to_string()), ErrorKind::Routing, "Routing error: x"),
        (
            MeshError::PaymentError("x".to_string()),
            ErrorKind::Payment,
            "Payment verification error: x",
        ),
        (
            MeshError::PaymentVerification("x".to_string()),
            ErrorKind::PaymentVerification,
            "Payment verification failed: x",
        ),
        (
            MeshError::ClassificationError("x".to_string()),
            ErrorKind::Classification,
            "Classification error: x",
        ),
        (MeshError::ConfigError("x".to_string()), ErrorKind::Config, "Configuration error: x"),
        (MeshError::InvalidPacket("x".to_string()), ErrorKind::InvalidPacket, "Invalid packet: x"),
        (
            MeshError::ReplayDetected("x".to_string()),
            ErrorKind::ReplayDetected,
            "Replay detected: x",
        ),
        (MeshError::RouteNotFound("x".to_string()), ErrorKind::RouteNotFound, "Route not found: x"),
        (MeshError::MeshDisabled("".to_string()), ErrorKind::MeshDisabled, "Mesh disabled: "),
    ];
    for (error, kind, text) in cases {
        assert_eq!(error.kind(), kind);
        assert_eq!(error.message(), text);
    }
}

#[test]
fn integers_are_written_little_endian() {
    let mut out = vec![9u8];
    put_u8(&mut out, 0xAB);
    put_u32(&mut out, 0x0102_0304);
    put_u64(&mut out, 0x0102_0304_0506_0708);
    assert_eq!(out, vec![9, 0xAB, 4, 3, 2, 1, 8, 7, 6, 5, 4, 3, 2, 1]);
    assert_eq!(get_u8(&out, 1), Some((0xAB, 2)));
    assert_eq!(get_u32(&out, 2), Some((0x0102_0304, 6)));
    assert_eq!(get_u64(&out, 6), Some((0x0102_0304_0506_0708, 14)));
    assert_eq!(get_u8(&out, 14), None);
    assert_eq!(get_u32(&out, 11), None);
    assert_eq!(get_u64(&out, 7), None);
    assert_eq!(get_u64(&out, 14), None);
}

#[test]
fn sequences_are_written_with_their_length() {
    let mut out = Vec::new();
    put_bytes(&mut out, &[1, 2, 3]);
    put_text(&mut out, "hé");
    put_id(&mut out, &[5u8; 32]);
    put_ids(&mut out, &[[6u8; 32], [7u8; 32]]);
    put_slice(&mut out, &[0xEE]);
    let mut expected = vec![3, 0, 0, 0, 0, 0, 0, 0, 1, 2, 3];
    expected.extend_from_slice(&[3, 0, 0, 0, 0, 0, 0, 0, b'h', 0xC3, 0xA9]);
    expected.extend_from_slice(&[5u8; 32]);
    expected.extend_from_slice(&[2, 0, 0, 0, 0, 0, 0, 0]);
    expected.extend_from_slice(&[6u8; 32]);
    expected.extend_from_slice(&[7u8; 32]);
    expected.push(0xEE);
    assert_eq!(out, expected);

    let (bytes, at) = get_bytes(&out, 0).unwrap();
    assert_eq!((bytes, at), (vec![1, 2, 3], 11));
    let (text, at) = get_text(&out, at).unwrap();
    assert_eq!((text.as_str(), at), ("hé", 22));
    let (id, at) = get_id(&out, at).unwrap();
    assert_eq!((id, at), ([5u8; 32], 54));
    let (ids, at) = get_ids(&out, at).unwrap();
    assert_eq!((ids, at), (vec![[6u8; 32], [7u8; 32]], 126));
    assert_eq!(at + 1, out.len());

    // A length that the data cannot hold.
    assert_eq!(get_bytes(&[4, 0, 0, 0, 0, 0, 0, 0, 1, 2, 3], 0), None);
    assert_eq!(get_bytes(&[0xff; 8], 0), None);
    assert_eq!(get_ids(&[0xff; 40], 0), None);
    assert_eq!(get_ids(&[1, 0, 0, 0, 0, 0, 0, 0, 9], 0), None);
    assert_eq!(get_id(&[0u8; 31], 0), None);
    // Bytes that are no UTF-8.
    assert_eq!(get_text(&[2, 0, 0, 0, 0, 0, 0, 0, 0xC3, 0x28], 0), None);
    assert_eq!(get_text(&[1, 0, 0, 0, 0, 0, 0, 0, 0xFF], 0), None);
    // The empty sequences.
    assert_eq!(get_bytes(&[0u8; 8], 0), Some((vec![], 8)));
    assert_eq!(get_text(&[0u8; 8], 0), Some((String::new(), 8)));
    assert_eq!(get_ids(&[0u8; 8], 0), Some((vec![], 8)));
}

#[test]
fn copies_are_equal() {
    assert_eq!(copy_bytes(&[1, 2, 3]), vec![1, 2, 3]);
    assert_eq!(copy_bytes(&[]), Vec::<u8>::new());
    assert_eq!(copy_ids(&[[1u8; 32], [2u8; 32]]), vec![[1u8; 32], [2u8; 32]]);
}
