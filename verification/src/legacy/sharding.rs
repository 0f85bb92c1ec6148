use vstd::prelude::*;
use crate::node::types::Address;

verus! {

/// Identifier of a shard, as bytes.
#[derive(Debug, Clone, Hash, PartialEq, Eq)]
pub struct ShardId(pub Vec<u8>);

impl ShardId {
    /// A shard id made of `id`.
    pub fn new(id: Vec<u8>) -> (r: Self)
        ensures
            r.0@ == id@,
    {
        ShardId(id)
    }
}

/// Where a transfer between two shards stands.
#[derive(Debug, Clone, Copy, PartialEq, Eq)]
pub enum CrossShardTxStatus {
    Pending,
    SourceApproved,
    DestApproved,
    Confirmed,
    Rejected,
}

/// A transfer of `amount` from `from` in the source shard to `to` in the destination shard.
#[derive(Debug, Clone)]
pub struct CrossShardTx {
    pub id: Vec<u8>,
    pub source_shard: ShardId,
    pub dest_shard: ShardId,
    pub from: Address,
    pub to: Address,
    pub amount: u64,
    pub status: CrossShardTxStatus,
    /// Seconds since the Unix epoch.
    pub timestamp: i64,
}

} // verus!
