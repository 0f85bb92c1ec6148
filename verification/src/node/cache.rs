use vstd::prelude::*;
use std::time::Duration;
use crate::keyed::KeyedVec;

verus! {

/// Identifier of a cache node.
pub type NodeId = String;

/// Settings of the data-flow manager.
#[derive(Debug)]
pub struct FlowConfig {
    pub update_batch_size: usize,
    pub flow_timeout: Duration,
}

/// Settings of the geographic router.
#[derive(Debug, Clone, Copy, PartialEq, Eq)]
pub struct GeoConfig {
    pub latency_threshold: u32,
    pub replication_factor: u32,
}

/// Settings of the cache.
#[derive(Debug)]
pub struct CacheConfig {
    pub flow_config: FlowConfig,
    pub geo_config: GeoConfig,
}

/// A change to a cache node's contents.
#[derive(Debug)]
pub enum CacheOperation {
    Insert { key: Vec<u8>, value: Vec<u8> },
    Delete { key: Vec<u8> },
    Update { key: Vec<u8>, value: Vec<u8> },
}

/// A flow of data through cache nodes.
#[derive(Debug)]
pub struct DataFlow {
    pub id: String,
    pub nodes: Vec<NodeId>,
}

impl View for DataFlow {
    type V = (Seq<char>, Seq<NodeId>);

    open spec fn view(&self) -> (Seq<char>, Seq<NodeId>) {
        (self.id@, self.nodes@)
    }
}

/// The operations an update makes, per node.
#[derive(Debug)]
pub struct UpdatePlan {
    pub operations: Vec<(NodeId, CacheOperation)>,
}

/// The settings of a cache node.
#[derive(Debug)]
pub struct NodeConfig {
    pub cache_size: usize,
    pub eviction_policy: String,
}

impl View for NodeConfig {
    type V = (usize, Seq<char>);

    open spec fn view(&self) -> (usize, Seq<char>) {
        (self.cache_size, self.eviction_policy@)
    }
}

/// The settings to give each node.
#[derive(Debug)]
pub struct PlacementPlan {
    pub configurations: KeyedVec<NodeId, NodeConfig>,
}

/// The storage of a cache node; it holds nothing yet.
#[derive(Debug)]
pub struct NoriaStorage {}

impl NoriaStorage {
    /// Looks a key up; nothing is found yet.
    pub fn get(&self, _key: &[u8]) -> (r: Option<Vec<u8>>)
        ensures
            r is None,
    {
        None
    }

    /// Stores a key; nothing is kept yet.
    pub fn insert(&mut self, _key: &[u8], _value: &[u8]) -> (r: Result<(), ()>)
        ensures
            r is Ok,
    {
        Ok(())
    }

    /// Replaces a key's value; nothing is kept yet.
    pub fn update(&mut self, _key: &[u8], _value: &[u8]) -> (r: Result<(), ()>)
        ensures
            r is Ok,
    {
        Ok(())
    }

    /// Deletes a key; nothing is kept yet.
    pub fn delete(&mut self, _key: &[u8]) -> (r: Result<(), ()>)
        ensures
            r is Ok,
    {
        Ok(())
    }

    /// Applies an operation to the storage: an insert inserts, a delete deletes, an update
    /// updates.
    pub fn apply_operation(&mut self, operation: CacheOperation) -> (r: Result<(), ()>)
        ensures
            r is Ok,
    {
        match operation {
            CacheOperation::Insert { key, value } => self.insert(key.as_slice(), value.as_slice()),
            CacheOperation::Delete { key } => self.delete(key.as_slice()),
            CacheOperation::Update { key, value } => self.update(key.as_slice(), value.as_slice()),
        }
    }
}

/// Manages the data flows of the cache.
#[derive(Debug)]
pub struct FlowManager {
    flows: KeyedVec<String, DataFlow>,
    config: FlowConfig,
}

impl FlowManager {
    /// The flows, by id.
    pub closed spec fn flows(&self) -> Map<Seq<char>, (Seq<char>, Seq<NodeId>)> {
        self.flows@
    }

    /// The settings of the manager.
    pub closed spec fn settings(&self) -> FlowConfig {
        self.config
    }

    /// A manager with no flow and the settings `config`.
    pub fn new(config: FlowConfig) -> (r: Self)
        ensures
            r.flows() == Map::<Seq<char>, (Seq<char>, Seq<NodeId>)>::empty(),
            r.settings() == config,
    {
        FlowManager { flows: KeyedVec::new(), config }
    }

    /// Reacts to a miss of `key` at node `node_id`; nothing is done yet.
    pub fn handle_cache_miss(&mut self, _key: &[u8], _node_id: &NodeId) -> (r: Result<(), ()>)
        ensures
            r is Ok,
    {
        Ok(())
    }

    /// The plan of an update of `key`; it makes no operation yet.
    pub fn create_update_plan(&self, _key: &[u8], _value: &[u8]) -> (r: Result<UpdatePlan, ()>)
        ensures
            r matches Ok(p) && p.operations@.len() == 0,
    {
        Ok(UpdatePlan { operations: Vec::new() })
    }
}

} // verus!
