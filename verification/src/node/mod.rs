pub mod types;
pub mod avalanche;
pub mod consensus;
pub mod quic;
pub mod dag;
pub mod sharding;
pub mod two_phase;
pub mod shard_coordinator;
pub mod storage;
pub mod time_sync;
pub mod transaction;
pub mod ai;
pub mod cache;
pub mod discovery;
pub mod zk;
pub mod cache_manager;
pub mod token;
