use rustorium::node::dag::{Transaction, TxId, TxStatus};
use rustorium::node::sharding::state::{ShardState, ShardStateError, ShardTransaction};

fn tx(id: &str, parents: &[&str]) -> ShardTransaction {
    ShardTransaction::new(Transaction {
        id: TxId::new(id.to_string()),
        parents: parents.iter().map(|p| TxId::new(p.to_string())).collect(),
        data: vec![1],
        timestamp: 0,
        shard_id: 0,
        status: TxStatus::Pending,
    })
}

#[test]
fn processing_commits_without_prepare() {
    let mut s = ShardState::new(7);
    assert!(s.process_transaction(tx("a", &[])).is_ok());
    assert_eq!(s.transaction_count(), 1);
    assert!(s.committed_transactions.get(&TxId::new("a".to_string())).is_some());
    assert_eq!(s.prepared_transaction_count(), 0);
    assert!(s.process_transaction(tx("b", &["a"])).is_ok());
    assert_eq!(s.committed_transactions.len(), 2);
}

#[test]
fn processing_removes_a_prepared_copy() {
    let mut s = ShardState::new(1);
    assert!(s.prepare_transaction(&tx("a", &[])).is_ok());
    assert_eq!(s.prepared_transaction_count(), 1);
    assert!(s.process_transaction(tx("a", &[])).is_ok());
    assert_eq!(s.prepared_transaction_count(), 0);
    assert_eq!(s.committed_transactions.len(), 1);
}

#[test]
fn processing_refuses_repeats_and_missing_parents() {
    let mut s = ShardState::new(1);
    assert!(s.process_transaction(tx("a", &[])).is_ok());
    assert!(matches!(s.process_transaction(tx("a", &[])), Err(ShardStateError::AlreadyExists)));
    match s.process_transaction(tx("c", &["missing"])) {
        Err(ShardStateError::DependencyNotFound(d)) => assert_eq!(d.as_str(), "missing"),
        _ => panic!("expected a missing dependency"),
    }
    assert_eq!(s.transaction_count(), 1);
    assert_eq!(s.committed_transactions.len(), 1);
}

#[test]
fn split_alternates_and_balances() {
    let mut s = ShardState::new(9);
    for id in ["a", "b", "c", "d", "e"] {
        assert!(s.process_transaction(tx(id, &[])).is_ok());
    }
    let (first, second) = s.split();
    assert_eq!(first.id, 0);
    assert_eq!(second.id, 1);
    assert_eq!(first.committed_transactions.len(), 3);
    assert_eq!(second.committed_transactions.len(), 2);
    for id in ["a", "c", "e"] {
        assert!(first.committed_transactions.get(&TxId::new(id.to_string())).is_some());
    }
    for id in ["b", "d"] {
        assert!(second.committed_transactions.get(&TxId::new(id.to_string())).is_some());
    }
    assert_eq!(s.committed_transactions.len(), 5);
}
