use rustorium::node::sharding::{Shard, ShardConfig, ShardManager, ShardingError};

#[test]
fn shard_config_defaults() {
    let c = ShardConfig::default();
    assert_eq!(c.max_tps, 10_000);
    assert_eq!(c.max_accounts, 1_000_000);
    assert_eq!(c.max_storage, 1_000_000_000_000);
    assert_eq!(c.max_total_value, 1_000_000_000_000_000);
    assert_eq!(c.min_validators, 4);
    assert_eq!(c.optimal_size, 100_000_000_000);
}

#[test]
fn validators_are_added_up_to_the_configured_count() {
    let mut shard = Shard::new(3, ShardConfig::default());
    for name in ["a", "b", "c", "d"] {
        assert!(shard.add_validator(name.to_string()).is_ok());
    }
    assert_eq!(shard.add_validator("e".to_string()), Err(ShardingError::ValidatorsFull));
    assert_eq!(shard.validators, vec!["a", "b", "c", "d"]);
    assert_eq!(ShardingError::ValidatorsFull.message(), "Maximum number of validators reached");
}

#[test]
fn validators_are_removed_only_above_the_configured_count() {
    let mut config = ShardConfig::default();
    config.min_validators = 2;
    let mut shard = Shard::new(1, config);
    shard.validators = vec!["a".to_string(), "b".to_string(), "a".to_string()];
    assert!(shard.remove_validator("a").is_ok());
    assert_eq!(shard.validators, vec!["b"]);
    assert_eq!(shard.remove_validator("b"), Err(ShardingError::ValidatorsAtMinimum));
    assert_eq!(shard.validators, vec!["b"]);
    assert_eq!(
        ShardingError::ValidatorsAtMinimum.message(),
        "Cannot remove validator: minimum number reached"
    );
}

#[test]
fn manager_starts_with_shard_zero() {
    let manager = ShardManager::new();
    assert_eq!(manager.shard_ids(), vec![0]);
    let shard = manager.get_shard(0).unwrap();
    assert_eq!(shard.id, 0);
    assert!(shard.validators.is_empty());
    assert_eq!(manager.get_shard(5).err(), Some(ShardingError::ShardNotFound(5)));
    assert!(manager.process_cross_shard_tx(b"tx").is_ok());
}

#[test]
fn manager_refuses_a_duplicate_shard() {
    let mut manager = ShardManager::new();
    assert!(manager.create_shard(7).is_ok());
    assert_eq!(manager.create_shard(7), Err(ShardingError::ShardExists(7)));
    assert_eq!(manager.shard_ids(), vec![0, 7]);
    assert_eq!(ShardingError::ShardExists(7).message(), "Shard already exists");
}

#[test]
fn scaling_creates_the_odd_child_of_each_overloaded_shard() {
    let mut manager = ShardManager::new();
    manager.create_shard(4).unwrap();
    assert!(manager.check_and_scale(&[0, 4]).is_ok());
    assert_eq!(manager.shard_ids(), vec![0, 4, 1, 9]);
}

#[test]
fn scaling_stops_at_the_first_existing_child() {
    let mut manager = ShardManager::new();
    manager.create_shard(1).unwrap();
    manager.create_shard(2).unwrap();
    // Shard 0's child 1 exists: the pass ends there and shard 2 is not scaled.
    assert_eq!(manager.check_and_scale(&[0, 2]), Err(ShardingError::ShardExists(1)));
    assert_eq!(manager.shard_ids(), vec![0, 1, 2]);
}
