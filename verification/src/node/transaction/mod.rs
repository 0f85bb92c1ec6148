pub mod processor;

use vstd::prelude::*;
use std::time::SystemTime;
use crate::keyed::KeyedVec;
use crate::text::push_str;

verus! {

/// Identifier of a transaction shard.
pub type ShardId = String;

/// The brokers and client settings of the Redpanda log.
#[derive(Debug)]
pub struct RedpandaConfig {
    pub brokers: Vec<String>,
    pub client_settings: KeyedVec<String, String>,
}

/// A client of the Redpanda log.
#[derive(Debug)]
pub struct RedpandaClient {
    pub brokers: Vec<String>,
    pub client_config: KeyedVec<String, String>,
}

impl RedpandaClient {
    /// Hands `data` to the log under `topic`; nothing is sent yet.
    pub fn produce(&self, _topic: String, _data: Vec<u8>) -> (r: Result<(), ()>)
        ensures
            r is Ok,
    {
        Ok(())
    }
}

/// The receipt of a transaction taken in by a shard.
#[derive(Debug)]
pub struct TxReceipt {
    pub tx_id: String,
    pub shard_id: ShardId,
    pub timestamp: SystemTime,
}

/// The kind of every transaction for now.
pub open spec fn default_tx_type() -> Seq<char> {
    "default"@
}

/// The kind of a transaction; every transaction is of kind "default" for now.
pub fn tx_type() -> (r: &'static str)
    ensures
        r@ == default_tx_type(),
{
    "default"
}

/// The log topic of a transaction of kind `tx_type` taken in by shard `shard_id`:
/// "transactions-<shard>-<kind>".
pub fn topic_for(shard_id: &str, tx_type: &str) -> (r: String)
    ensures
        r@ == "transactions-"@ + shard_id@ + "-"@ + tx_type@,
{
    let mut topic = String::from_str("transactions-");
    push_str(&mut topic, shard_id);
    push_str(&mut topic, "-");
    push_str(&mut topic, tx_type);
    topic
}

} // verus!
