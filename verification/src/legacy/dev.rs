use vstd::prelude::*;
use crate::paths::{join_path, path_joined};
use crate::text::{decimal, push_decimal, push_str};

verus! {

/// The settings of a local test node.
#[derive(Debug, Clone)]
pub struct TestNodeConfig {
    pub node_id: u8,
    pub data_dir: String,
    pub api_port: u16,
    pub frontend_port: u16,
    pub p2p_port: u16,
    /// The address of the node to join, for every node but the first.
    pub bootstrap: Option<String>,
}

/// The bootstrap address that test nodes join: the first node's P2P port.
pub open spec fn bootstrap_address(base_port: u16) -> Seq<char> {
    "/ip4/127.0.0.1/tcp/"@ + decimal((base_port + 2) as nat) + "/p2p/QmBootstrapNode"@
}

/// The local test nodes of a development network.
#[derive(Debug)]
pub struct TestNodeManager {
    nodes: Vec<TestNodeConfig>,
    base_port: u16,
    data_dir: String,
}

impl TestNodeManager {
    /// The nodes added, in order.
    pub closed spec fn nodes(&self) -> Seq<TestNodeConfig> {
        self.nodes@
    }

    /// The first port and the data directory.
    pub closed spec fn base(&self) -> (u16, Seq<char>) {
        (self.base_port, self.data_dir@)
    }

    /// A manager with no node, allotting ports from `base_port` and directories under
    /// `data_dir`.
    pub fn new(base_port: u16, data_dir: String) -> (r: Self)
        ensures
            r.nodes().len() == 0,
            r.base() == (base_port, data_dir@),
    {
        TestNodeManager { nodes: Vec::new(), base_port, data_dir }
    }

    /// The settings of node `node_id`: its directory "node<id>" under the data directory;
    /// its API, frontend and P2P ports the three from `base_port + 3 * node_id`; node 1 joins
    /// no one, every other node joins node 1's P2P port.
    pub fn node_config(&self, node_id: u8) -> (r: TestNodeConfig)
        requires
            self.base().0 + 3 * node_id + 2 <= u16::MAX,
        ensures
            r.node_id == node_id,
            r.data_dir@ == path_joined(self.base().1, "node"@ + decimal(node_id as nat)),
            r.api_port == self.base().0 + 3 * node_id,
            r.frontend_port == self.base().0 + 3 * node_id + 1,
            r.p2p_port == self.base().0 + 3 * node_id + 2,
            node_id == 1 ==> r.bootstrap is None,
            node_id != 1 ==> (r.bootstrap matches Some(b) && b@ == bootstrap_address(self.base().0)),
    {
        let mut dir_name = String::from_str("node");
        push_decimal(&mut dir_name, node_id as u64);
        let data_dir = join_path(self.data_dir.as_str(), dir_name.as_str());
        let first = self.base_port + (node_id as u16) * 3;
        let bootstrap = if node_id == 1 {
            None
        } else {
            let mut b = String::from_str("/ip4/127.0.0.1/tcp/");
            push_decimal(&mut b, (self.base_port + 2) as u64);
            push_str(&mut b, "/p2p/QmBootstrapNode");
            Some(b)
        };
        TestNodeConfig {
            node_id,
            data_dir,
            api_port: first,
            frontend_port: first + 1,
            p2p_port: first + 2,
            bootstrap,
        }
    }

    /// Adds a node's settings, once its directory exists.
    pub fn push_node(&mut self, config: TestNodeConfig)
        ensures
            final(self).nodes() == old(self).nodes().push(config),
            final(self).base() == old(self).base(),
    {
        self.nodes.push(config);
    }

    /// The positions of the nodes to start for a network of `node_count` nodes: those whose
    /// id is at most `node_count`, in order.
    pub fn nodes_to_start(&self, node_count: u8) -> (r: Vec<usize>)
        ensures
            forall|i: int| 0 <= i < r@.len() ==> r@[i] < self.nodes().len() && self.nodes()[r@[i] as int].node_id <= node_count,
            forall|i: int, j: int| 0 <= i < j < r@.len() ==> r@[i] < r@[j],
            forall|k: int| 0 <= k < self.nodes().len() && self.nodes()[k].node_id <= node_count ==> r@.contains(k as usize),
    {
        let mut out: Vec<usize> = Vec::new();
        let mut i: usize = 0;
        while i < self.nodes.len()
            invariant
                i <= self.nodes@.len(),
                forall|a: int| 0 <= a < out@.len() ==> out@[a] < i && self.nodes@[out@[a] as int].node_id <= node_count,
                forall|a: int, b: int| 0 <= a < b < out@.len() ==> out@[a] < out@[b],
                forall|k: int| 0 <= k < i && self.nodes@[k].node_id <= node_count ==> out@.contains(k as usize),
            decreases self.nodes@.len() - i,
        {
            let ghost prev = out@;
            if self.nodes[i].node_id <= node_count {
                out.push(i);
                proof {
                    assert(out@[out@.len() - 1] == i);
                    assert forall|k: int| 0 <= k < i && self.nodes@[k].node_id <= node_count implies out@.contains(k as usize) by {
                        let a = choose|a: int| 0 <= a < prev.len() && prev[a] == k as usize;
                        assert(out@[a] == prev[a]);
                    }
                }
            }
            i = i + 1;
        }
        out
    }
}

} // verus!
