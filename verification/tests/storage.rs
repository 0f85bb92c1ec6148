use rustorium::node::cache_manager::{CacheConfig, DefaultCacheManager};
use rustorium::node::dag::{Transaction, TxId, TxStatus};
use rustorium::node::shard_coordinator::{ShardId, ShardState};
use rustorium::node::storage::{make_shard_key, merge_states, MergeError, StateManager, StateSyncManager};
use rustorium::node::sharding::cross_shard::{CrossShardManager, CrossShardMessage, MessageStatus, Priority};
use rustorium::codec::blake3_hash;
use rustorium::keyed::KeyedVec;

fn tx(id: &str, timestamp: i64) -> Transaction {
    Transaction {
        id: TxId::new(id.to_string()),
        parents: vec![],
        data: vec![],
        timestamp,
        shard_id: 0,
        status: TxStatus::Pending,
    }
}

fn state(id: u64, txs: &[&str], root: u8, last_updated: i64) -> ShardState {
    let mut transactions = KeyedVec::new();
    for t in txs {
        transactions.insert(TxId::new(t.to_string()), ());
    }
    ShardState { id: ShardId(id), transactions, state_root: vec![root], last_updated }
}

#[test]
fn storage_keys() {
    let m = StateManager::new(());
    assert_eq!(m.make_tx_key(&TxId::new("abc".to_string())), b"tx/abc".to_vec());
    assert_eq!(m.make_meta_key(b"global_state"), b"meta/global_state".to_vec());
    assert_eq!(
        make_shard_key(&ShardId(0x0102030405060708)),
        vec![b's', b'h', b'a', b'r', b'd', b'/', 1, 2, 3, 4, 5, 6, 7, 8]
    );
}

#[test]
fn transactions_in_range_keep_order() {
    let s = StateSyncManager::new(());
    let picked = s.select_in_range(vec![tx("a", 5), tx("b", 10), tx("c", 15), tx("d", 20)], 10, 15);
    let ids: Vec<&str> = picked.iter().map(|t| t.id.as_str()).collect();
    assert_eq!(ids, vec!["b", "c"]);
    let diff = s.calculate_state_diff(3, 7);
    assert_eq!((diff.from_height, diff.to_height), (3, 7));
    assert!(diff.transactions.is_empty() && diff.metadata_changes.is_empty());
}

#[test]
fn merge_takes_union_and_latest_root() {
    assert!(matches!(merge_states(vec![]), Err(MergeError::NoStates)));
    let merged = merge_states(vec![
        state(1, &["a"], 1, 10),
        state(9, &["b"], 2, 30),
        state(9, &["a", "c"], 3, 30),
        state(9, &[], 4, 20),
    ])
    .unwrap();
    assert_eq!(merged.id, ShardId(1));
    assert_eq!(merged.transactions.len(), 3);
    assert_eq!(merged.state_root, vec![2]);
    assert_eq!(merged.last_updated, 30);
}

#[test]
fn test_cache_operations() {
    let mut cache = DefaultCacheManager::new(CacheConfig::default());
    cache.set_at(b"key1", b"value1", 0);
    let value = cache.get_at(b"key1", 1);
    assert_eq!(value.unwrap(), b"value1");
    cache.delete(b"key1");
    let value = cache.get_at(b"key1", 2);
    assert!(value.is_none());
}

#[test]
fn test_cache_expiration() {
    let mut config = CacheConfig::default();
    config.ttl = 1;
    let mut cache = DefaultCacheManager::new(config);
    cache.set_at(b"key1", b"value1", 0);
    let value = cache.get_at(b"key1", 0);
    assert!(value.is_some());
    let value = cache.get_at(b"key1", 2000);
    assert!(value.is_none());
}

#[test]
fn cache_limits_and_cleanup() {
    let mut config = CacheConfig::default();
    config.max_size = 3;
    config.ttl = 10;
    let mut cache = DefaultCacheManager::new(config);
    cache.set_at(b"big", b"toolong", 0);
    assert!(cache.get_at(b"big", 1).is_none());
    cache.set_at(b"a", b"1", 0);
    cache.set_at(b"b", b"2", 5000);
    assert_eq!(cache.cleanup_expired_at(12000), 1);
    assert!(cache.get_at(b"a", 1).is_none());
    assert_eq!(cache.get_at(b"b", 12000).unwrap(), b"2");
    assert_eq!(cache.optimize(), 0);
}

#[test]
fn cross_shard_message_and_cleanup() {
    let data = vec![1, 2, 3];
    let m = CrossShardMessage::new_at(1, 2, data.clone(), Priority::High, 100);
    assert_eq!(m.payload.size, 3);
    assert_eq!(m.payload.checksum, blake3_hash(&data));
    assert_eq!(m.metadata.ttl_secs, 300);
    let route = m.find_optimal_route();
    assert_eq!(route.hops, vec![1, 2]);
    assert_eq!(route.estimated_latency, std::time::Duration::from_millis(100));

    let mut mgr = CrossShardManager::new();
    let receipt = mgr.send_message(m.duplicate());
    assert_eq!(receipt.status, MessageStatus::Created);
    assert_eq!(receipt.message_id, [0u8; 32]);
    assert!(mgr.get_pending_messages().is_empty());
    assert_eq!(mgr.get_completed_messages().len(), 1);
    mgr.cleanup_expired_at(receipt.timestamp + 86400);
    assert!(mgr.get_completed_messages().is_empty());
}
