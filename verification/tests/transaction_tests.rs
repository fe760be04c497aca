use p2p_blockchain_rust::util::{timestamp_nanos, timestamp_secs};
use p2p_blockchain_rust::transaction::Transaction;

#[test]
fn test_transaction_id_is_sha256_of_data() {
    let tx = Transaction::new("abc".to_string());
    // SHA-256("abc")
    assert_eq!(
        tx.get_id(),
        vec![
            0xba, 0x78, 0x16, 0xbf, 0x8f, 0x01, 0xcf, 0xea, 0x41, 0x41, 0x40, 0xde, 0x5d, 0xae,
            0x22, 0x23, 0xb0, 0x03, 0x61, 0xa3, 0x96, 0x17, 0x7a, 0x9c, 0xb4, 0x10, 0xff, 0x61,
            0xf2, 0x00, 0x15, 0xad
        ]
    );
    assert_eq!(tx.get_data(), "abc");
}

#[test]
fn test_transaction_clone_keeps_fields() {
    let tx = Transaction::new("Send 5 BTC to Bob".to_string());
    let copy = tx.clone();
    assert_eq!(copy.get_id(), tx.get_id());
    assert_eq!(copy.get_data(), "Send 5 BTC to Bob");
    assert_eq!(copy.id.len(), 32);
}

#[test]
fn test_clock_conversions() {
    assert_eq!(timestamp_secs(Some(0)), 0);
    assert_eq!(timestamp_secs(Some(1_999_999_999)), 1);
    assert_eq!(timestamp_secs(Some(u128::MAX)), i64::MAX);
    assert_eq!(timestamp_secs(None), 0);
    assert_eq!(timestamp_nanos(Some(42)), 42);
    assert_eq!(timestamp_nanos(Some(i64::MAX as u128)), i64::MAX);
    assert_eq!(timestamp_nanos(Some(i64::MAX as u128 + 1)), i64::MAX);
    assert_eq!(timestamp_nanos(None), 0);
}
