use vstd::prelude::*;
use crate::clock::unix_now_millis;
use crate::random::random_u64;

verus! {

/// Identifier of a node.
pub type NodeId = String;

/// What a query asks for.
#[derive(Debug, Clone, PartialEq, Eq)]
pub enum QueryType {
    /// A transaction, by its id in hex.
    GetTransaction(String),
    /// A block, by its height.
    GetBlock(u64),
    /// The latest block.
    GetLatestBlock,
    /// The peers of the node asked.
    GetPeers,
}

/// A query to a peer.
#[derive(Debug, Clone)]
pub struct QueryMessage {
    pub id: u64,
    pub query_type: QueryType,
    pub sender: NodeId,
    /// Milliseconds since the Unix epoch.
    pub timestamp: u64,
}

/// What a response carries, for transactions of type `T` and blocks of type `B`.
#[derive(Debug)]
pub enum ResponseType<T, B> {
    Transaction(Option<T>),
    Block(Option<B>),
    LatestBlock(Option<B>),
    Peers(Vec<String>),
    Error(String),
}

/// The response to a query.
#[derive(Debug)]
pub struct ResponseMessage<T, B> {
    /// The id of the query answered.
    pub id: u64,
    pub response_type: ResponseType<T, B>,
    pub sender: NodeId,
    /// Milliseconds since the Unix epoch.
    pub timestamp: u64,
}

/// A liveness probe.
#[derive(Debug, Clone)]
pub struct PingMessage {
    pub id: u64,
    pub sender: NodeId,
    /// Milliseconds since the Unix epoch.
    pub timestamp: u64,
}

/// The answer to a ping.
#[derive(Debug, Clone)]
pub struct PongMessage {
    /// The id of the ping answered.
    pub id: u64,
    pub sender: NodeId,
    /// When the ping was sent.
    pub original_timestamp: u64,
    /// When the pong was sent.
    pub timestamp: u64,
}

/// A message of the gossip protocol.
#[derive(Debug)]
pub enum GossipMessage<T, B> {
    Transaction(T),
    Block(B),
    Query(QueryMessage),
    Response(ResponseMessage<T, B>),
    Ping(PingMessage),
    Pong(PongMessage),
}

/// The current time in milliseconds since the Unix epoch, cut to 64 bits; a clock set before
/// the epoch reads as 0.
pub fn now_millis() -> u64 {
    match unix_now_millis() {
        Some(ms) => #[verifier::truncate] (ms as u64),
        None => 0,
    }
}

impl<T, B> GossipMessage<T, B> {
    /// The topic a message is published on: transactions on "transactions", blocks on
    /// "blocks"; any other message goes to a single peer and has no topic.
    pub fn topic(&self) -> (r: Option<&'static str>)
        ensures
            self is Transaction ==> (r matches Some(t) && t@ == "transactions"@),
            self is Block ==> (r matches Some(t) && t@ == "blocks"@),
            !(self is Transaction || self is Block) ==> r is None,
    {
        match self {
            GossipMessage::Transaction(_) => Some("transactions"),
            GossipMessage::Block(_) => Some("blocks"),
            _ => None,
        }
    }

    /// A message carrying a transaction.
    pub fn new_transaction(tx: T) -> (r: Self)
        ensures
            r == GossipMessage::<T, B>::Transaction(tx),
    {
        GossipMessage::Transaction(tx)
    }

    /// A message carrying a block.
    pub fn new_block(block: B) -> (r: Self)
        ensures
            r == GossipMessage::<T, B>::Block(block),
    {
        GossipMessage::Block(block)
    }

    /// A query with a random id, stamped with the current time.
    pub fn new_query(query_type: QueryType, sender: NodeId) -> (r: Self)
        ensures
            r matches GossipMessage::Query(q) && q.query_type == query_type && q.sender == sender,
    {
        Self::new_query_at(query_type, sender, random_u64(), now_millis())
    }

    /// A query with id `id`, stamped `timestamp`.
    pub fn new_query_at(query_type: QueryType, sender: NodeId, id: u64, timestamp: u64) -> (r: Self)
        ensures
            r == GossipMessage::<T, B>::Query(QueryMessage { id, query_type, sender, timestamp }),
    {
        GossipMessage::Query(QueryMessage { id, query_type, sender, timestamp })
    }

    /// A response to query `id`, stamped with the current time.
    pub fn new_response(id: u64, response_type: ResponseType<T, B>, sender: NodeId) -> (r: Self)
        ensures
            r matches GossipMessage::Response(m) && m.id == id && m.response_type == response_type
                && m.sender == sender,
    {
        Self::new_response_at(id, response_type, sender, now_millis())
    }

    /// A response to query `id`, stamped `timestamp`.
    pub fn new_response_at(id: u64, response_type: ResponseType<T, B>, sender: NodeId, timestamp: u64) -> (r:
        Self)
        ensures
            r == GossipMessage::<T, B>::Response(
                ResponseMessage { id, response_type, sender, timestamp },
            ),
    {
        GossipMessage::Response(ResponseMessage { id, response_type, sender, timestamp })
    }

    /// A ping with a random id, stamped with the current time.
    pub fn new_ping(sender: NodeId) -> (r: Self)
        ensures
            r matches GossipMessage::Ping(p) && p.sender == sender,
    {
        Self::new_ping_at(sender, random_u64(), now_millis())
    }

    /// A ping with id `id`, stamped `timestamp`.
    pub fn new_ping_at(sender: NodeId, id: u64, timestamp: u64) -> (r: Self)
        ensures
            r == GossipMessage::<T, B>::Ping(PingMessage { id, sender, timestamp }),
    {
        GossipMessage::Ping(PingMessage { id, sender, timestamp })
    }

    /// The answer to `ping`, stamped with the current time: it carries the ping's id and time.
    pub fn new_pong(ping: &PingMessage, sender: NodeId) -> (r: Self)
        ensures
            r matches GossipMessage::Pong(p) && p.id == ping.id && p.sender == sender
                && p.original_timestamp == ping.timestamp,
    {
        Self::new_pong_at(ping, sender, now_millis())
    }

    /// The answer to `ping`, stamped `timestamp`: it carries the ping's id and time.
    pub fn new_pong_at(ping: &PingMessage, sender: NodeId, timestamp: u64) -> (r: Self)
        ensures
            r == GossipMessage::<T, B>::Pong(
                PongMessage { id: ping.id, sender, original_timestamp: ping.timestamp, timestamp },
            ),
    {
        GossipMessage::Pong(
            PongMessage { id: ping.id, sender, original_timestamp: ping.timestamp, timestamp },
        )
    }
}

} // verus!
