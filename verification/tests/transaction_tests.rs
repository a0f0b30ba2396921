use matrix_bridge::transactions::{new_txn_set, record_transaction, MAX_PROCESSED_TXNS};

#[test]
fn duplicate_transactions_are_skipped() {
    let mut set = new_txn_set();
    assert!(record_transaction(&mut set, "txn1", MAX_PROCESSED_TXNS));
    assert!(!record_transaction(&mut set, "txn1", MAX_PROCESSED_TXNS));
    assert!(record_transaction(&mut set, "txn2", MAX_PROCESSED_TXNS));
    assert_eq!(set.len(), 2);
}

#[test]
fn oldest_transactions_are_forgotten() {
    let mut set = new_txn_set();
    for i in 0..5 {
        assert!(record_transaction(&mut set, &format!("t{i}"), 3));
    }
    let kept: Vec<&String> = set.iter().collect();
    assert_eq!(kept, vec!["t2", "t3", "t4"]);
    assert!(record_transaction(&mut set, "t0", 3));
    assert!(!record_transaction(&mut set, "t0", 3));
}
