use voting::address::{candidate_address, derive_address, poll_address, receipt_address, u64_le_bytes};
use voting::bytes::{bytes_eq, copy_bytes};

#[test]
fn u64_little_endian_layout() {
    assert_eq!(u64_le_bytes(0), vec![0u8; 8]);
    assert_eq!(
        u64_le_bytes(0x0102030405060708),
        vec![0x08, 0x07, 0x06, 0x05, 0x04, 0x03, 0x02, 0x01]
    );
    assert_eq!(u64_le_bytes(u64::MAX), vec![0xff; 8]);
}

#[test]
fn derive_address_is_deterministic() {
    let a = derive_address(&vec![vec![1, 2], vec![3]]);
    let b = derive_address(&vec![vec![1, 2], vec![3]]);
    assert_eq!(a, b);
}

#[test]
fn derive_address_frames_seed_boundaries() {
    // the same bytes split differently across seeds give different addresses
    let a = derive_address(&vec![vec![1, 2], vec![3]]);
    let b = derive_address(&vec![vec![1], vec![2, 3]]);
    let c = derive_address(&vec![vec![1, 2, 3]]);
    assert_ne!(a, b);
    assert_ne!(a, c);
    assert_ne!(b, c);
}

#[test]
fn derive_address_layout() {
    let addr = derive_address(&vec![vec![9, 8]]);
    let mut expected = u64_le_bytes(2);
    expected.extend_from_slice(&[9, 8]);
    assert_eq!(addr, expected);
}

#[test]
fn record_addresses_are_distinct() {
    assert_eq!(poll_address(1), poll_address(1));
    assert_ne!(poll_address(1), poll_address(2));
    let go = b"Go".to_vec();
    let rust = b"Rust".to_vec();
    assert_ne!(candidate_address(1, &go), candidate_address(1, &rust));
    assert_ne!(candidate_address(1, &go), candidate_address(2, &go));
    assert_ne!(poll_address(1), candidate_address(1, &go));
    assert_ne!(poll_address(1), receipt_address(1, &go));
    // a candidate address and a receipt address coincide exactly when the
    // second seed does: both derive from (poll identifier, byte sequence)
    assert_eq!(candidate_address(1, &go), receipt_address(1, &go));
    assert_ne!(candidate_address(1, &go), receipt_address(1, &rust));
}

#[test]
fn byte_helpers() {
    let a = vec![1u8, 2, 3];
    let b = copy_bytes(&a);
    assert_eq!(a, b);
    assert!(bytes_eq(&a, &b));
    assert!(!bytes_eq(&a, &vec![1u8, 2]));
    assert!(!bytes_eq(&a, &vec![1u8, 2, 4]));
    assert!(bytes_eq(&Vec::new(), &Vec::new()));
}
