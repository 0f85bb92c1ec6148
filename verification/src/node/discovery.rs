use vstd::prelude::*;

verus! {

/// How a node finds the network.
#[derive(Debug, Clone)]
pub struct DiscoveryConfig {
    pub bootstrap_nodes: Vec<String>,
    pub is_bootstrap: bool,
    pub min_peers: usize,
    pub max_peers: usize,
    /// Seconds between discovery rounds.
    pub discovery_interval: u64,
}

impl Default for DiscoveryConfig {
    fn default() -> (r: Self)
        ensures
            r.bootstrap_nodes@.len() == 2,
            r.bootstrap_nodes@[0]@
                == "/ip4/104.131.131.82/tcp/4001/p2p/QmaCpDMGvV2BGHeYERUEnRQAwe3N8SzbUtfsmvsqQLuvuJ"@,
            r.bootstrap_nodes@[1]@
                == "/dnsaddr/bootstrap.libp2p.io/p2p/QmNnooDu7bfjPFoTZYxMNLWUQJyrVwtbZg5gBMjTezGAJN"@,
            !r.is_bootstrap,
            r.min_peers == 3,
            r.max_peers == 25,
            r.discovery_interval == 60,
    {
        let mut bootstrap_nodes: Vec<String> = Vec::new();
        bootstrap_nodes.push(
            String::from_str(
                "/ip4/104.131.131.82/tcp/4001/p2p/QmaCpDMGvV2BGHeYERUEnRQAwe3N8SzbUtfsmvsqQLuvuJ",
            ),
        );
        bootstrap_nodes.push(
            String::from_str(
                "/dnsaddr/bootstrap.libp2p.io/p2p/QmNnooDu7bfjPFoTZYxMNLWUQJyrVwtbZg5gBMjTezGAJN",
            ),
        );
        DiscoveryConfig {
            bootstrap_nodes,
            is_bootstrap: false,
            min_peers: 3,
            max_peers: 25,
            discovery_interval: 60,
        }
    }
}

/// The roles a node can take.
#[derive(Debug, Clone, Copy, PartialEq, Eq)]
pub enum NodeRole {
    Bootstrap,
    Validator,
    FullNode,
    LightNode,
}

/// What a node does after trying the bootstrap nodes.
#[derive(Debug, Clone, Copy, PartialEq, Eq)]
pub enum JoinDecision {
    /// A bootstrap node was reached: the node is in the network.
    Joined,
    /// No network exists yet: start it as its first node.
    StartFirstNode,
    /// No bootstrap node could be reached, though a network exists.
    Fail,
}

/// The decision of a regular node after trying the bootstrap nodes.
pub fn join_decision(connected: bool, is_first_node: bool) -> (r: JoinDecision)
    ensures
        connected ==> r == JoinDecision::Joined,
        !connected && is_first_node ==> r == JoinDecision::StartFirstNode,
        !connected && !is_first_node ==> r == JoinDecision::Fail,
{
    if connected {
        JoinDecision::Joined
    } else if is_first_node {
        JoinDecision::StartFirstNode
    } else {
        JoinDecision::Fail
    }
}

} // verus!
