use vstd::prelude::*;

verus! {

/// The state of consensus.
#[derive(Debug, Clone, Copy, PartialEq, Eq)]
pub enum ConsensusStatus {
    Active,
    Syncing,
    Stalled,
}

/// A summary of the network.
#[derive(Debug, Clone, Copy, PartialEq, Eq)]
pub struct NetworkStatus {
    pub total_transactions: u64,
    pub pending_transactions: u64,
    pub shard_count: u32,
    pub consensus_status: ConsensusStatus,
}

/// The engine that ties the DAG `D`, the consensus `A` and the sharding `S` together.
#[derive(Debug)]
pub struct RustoriumEngine<D, A, S> {
    pub dag: D,
    pub avalanche: A,
    pub sharding: S,
}

impl<D, A, S> RustoriumEngine<D, A, S> {
    /// An engine over the given parts.
    pub fn new(dag: D, avalanche: A, sharding: S) -> (r: Self)
        ensures
            r.dag == dag,
            r.avalanche == avalanche,
            r.sharding == sharding,
    {
        RustoriumEngine { dag, avalanche, sharding }
    }

    /// Whether a transaction spans shards; none is recognised as such yet.
    pub fn is_cross_shard_tx<T>(&self, _tx: &T) -> (r: bool)
        ensures
            !r,
    {
        false
    }

    /// The network summary; the counters are not collected yet.
    pub fn get_network_status(&self) -> (r: NetworkStatus)
        ensures
            r == (NetworkStatus {
                total_transactions: 0,
                pending_transactions: 0,
                shard_count: 0,
                consensus_status: ConsensusStatus::Active,
            }),
    {
        NetworkStatus {
            total_transactions: 0,
            pending_transactions: 0,
            shard_count: 0,
            consensus_status: ConsensusStatus::Active,
        }
    }
}

} // verus!
