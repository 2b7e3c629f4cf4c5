use sealed_auction::contract::SealedBidAuction;
use sealed_auction::text::{bytes_equal, copy_bytes, decimal_bytes, hex_bytes};
use soroban_sdk::Env;

#[test]
fn decimal_of_small_and_large_numbers() {
    assert_eq!(decimal_bytes(0), b"0".to_vec());
    assert_eq!(decimal_bytes(7), b"7".to_vec());
    assert_eq!(decimal_bytes(10), b"10".to_vec());
    assert_eq!(decimal_bytes(1234567890), b"1234567890".to_vec());
    assert_eq!(decimal_bytes(u64::MAX), b"18446744073709551615".to_vec());
}

#[test]
fn hex_is_lower_case_two_digits_per_byte() {
    assert_eq!(hex_bytes(&vec![]), Vec::<u8>::new());
    assert_eq!(hex_bytes(&vec![0x00, 0x0f, 0xa5, 0xff]), b"000fa5ff".to_vec());
}

#[test]
fn byte_equality_and_copy() {
    assert!(bytes_equal(&b"abc".to_vec(), &b"abc".to_vec()));
    assert!(!bytes_equal(&b"abc".to_vec(), &b"abd".to_vec()));
    assert!(!bytes_equal(&b"abc".to_vec(), &b"ab".to_vec()));
    assert!(bytes_equal(&vec![], &vec![]));
    assert_eq!(copy_bytes(&b"xyz".to_vec()), b"xyz".to_vec());
}

#[test]
fn commitment_is_hex_sha256_of_amount_then_secret() {
    let env = Env::default();
    assert_eq!(
        SealedBidAuction::get_commitment(&env, 100, &b"abc".to_vec()),
        b"97c156254778ee8d8627cedef5fd96edb581a2e57eaa04c97474036b07a1436e".to_vec()
    );
    assert_eq!(
        SealedBidAuction::get_commitment(&env, 500, &b"s3cret".to_vec()),
        b"4cf0644950e985f028aa9bae04948a4616c55e28b57e736da9a8e98ed769014d".to_vec()
    );
    assert_eq!(
        SealedBidAuction::get_commitment(&env, 0, &vec![]),
        b"5feceb66ffc86f38d952786c6d696c79c2dbc239dd4e91b46729d73a27fb57e9".to_vec()
    );
}

#[test]
fn commitment_depends_on_amount_and_secret() {
    let env = Env::default();
    let a = SealedBidAuction::get_commitment(&env, 100, &b"abc".to_vec());
    assert_ne!(a, SealedBidAuction::get_commitment(&env, 101, &b"abc".to_vec()));
    assert_ne!(a, SealedBidAuction::get_commitment(&env, 100, &b"abd".to_vec()));
    assert_eq!(a.len(), 64);
}
