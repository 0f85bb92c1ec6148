use vstd::prelude::*;
use petgraph::graph::{Graph, NodeIndex};
use petgraph::{Directed, Direction};
use crate::node::types::Address;
use crate::keyed::{DeepClone, KeyEq};

verus! {

#[verifier::external_type_specification]
#[verifier::external_body]
#[verifier::reject_recursive_types(N)]
#[verifier::reject_recursive_types(E)]
#[verifier::reject_recursive_types(Ty)]
#[verifier::reject_recursive_types(Ix)]
pub struct ExGraph<N, E, Ty, Ix>(Graph<N, E, Ty, Ix>);

#[verifier::external_type_specification]
#[verifier::external_body]
pub struct ExDirected(Directed);

/// Identifier of a ledger transaction: 32 bytes.
#[derive(Debug, Clone, Copy, Hash, PartialEq, Eq)]
pub struct TransactionId {
    pub bytes: [u8; 32],
}

impl View for TransactionId {
    type V = Seq<u8>;

    open spec fn view(&self) -> Seq<u8> {
        self.bytes@
    }
}

impl KeyEq for TransactionId {
    fn key_eq(&self, other: &Self) -> (r: bool) {
        self.same_as(other)
    }
}

impl DeepClone for TransactionId {
    fn deep_clone(&self) -> (r: Self) {
        *self
    }
}

impl TransactionId {
    pub fn new(bytes: [u8; 32]) -> (r: Self)
        ensures
            r.bytes@ == bytes@,
    {
        TransactionId { bytes }
    }

    pub fn as_bytes(&self) -> (r: &[u8])
        ensures
            r@ == self.bytes@,
    {
        self.bytes.as_slice()
    }

    /// Whether two identifiers hold the same bytes.
    pub fn same_as(&self, other: &TransactionId) -> (r: bool)
        ensures
            r == (self.bytes@ == other.bytes@),
    {
        crate::bytes::bytes_eq(self.bytes.as_slice(), other.bytes.as_slice())
    }
}

/// A ledger transaction as the DAG orders it: by sender and nonce.
#[derive(Debug)]
pub struct Transaction {
    pub id: TransactionId,
    pub sender: Address,
    pub nonce: u64,
    pub data: Vec<u8>,
}

impl Clone for Transaction {
    fn clone(&self) -> (r: Self)
        ensures
            r.id == self.id,
            r.sender == self.sender,
            r.nonce == self.nonce,
            r.data@ == self.data@,
    {
        Transaction { id: self.id, sender: self.sender, nonce: self.nonce, data: self.data.clone() }
    }
}

/// Execution state of a DAG node.
#[derive(Debug)]
pub enum NodeState {
    /// Not yet executed.
    Pending,
    /// Being executed.
    Executing,
    /// Executed successfully.
    Executed,
    /// Execution failed, with the failure message.
    Failed(String),
}

impl Clone for NodeState {
    fn clone(&self) -> (r: Self)
        ensures
            r == *self,
    {
        match self {
            NodeState::Pending => NodeState::Pending,
            NodeState::Executing => NodeState::Executing,
            NodeState::Executed => NodeState::Executed,
            NodeState::Failed(s) => NodeState::Failed(s.clone()),
        }
    }
}

/// A node of the transaction DAG.
#[derive(Debug)]
pub struct DagNode {
    pub tx_id: TransactionId,
    pub transaction: Transaction,
    pub state: NodeState,
    pub result: Option<Vec<u8>>,
}

/// Errors of the ledger operations on the DAG.
#[derive(Debug)]
pub enum LedgerError {
    /// The transaction is already in the DAG.
    AlreadyExists(TransactionId),
    /// Another transaction of the same sender holds the same nonce.
    InvalidNonce(TransactionId),
    /// The transaction is not in the DAG.
    NotFound(TransactionId),
    /// The transaction is not in the state the operation needs.
    InvalidState(TransactionId),
}

/// The node weights of a DAG graph, in the order of their indices.
pub uninterp spec fn dag_graph_nodes(g: Graph<DagNode, (), Directed, u32>) -> Seq<DagNode>;

/// The edges of a DAG graph, as (source, target) node indices, in the order of their addition.
pub uninterp spec fn dag_graph_edges(g: Graph<DagNode, (), Directed, u32>) -> Seq<(u32, u32)>;

/// `Graph::new`: a graph with no node and no edge.
#[verifier::external_body]
fn graph_new() -> (g: Graph<DagNode, (), Directed, u32>)
    ensures
        dag_graph_nodes(g) == Seq::<DagNode>::empty(),
        dag_graph_edges(g) == Seq::<(u32, u32)>::empty(),
{
    Graph::new()
}

/// `Graph::node_count`: the number of nodes.
#[verifier::external_body]
fn graph_node_count(g: &Graph<DagNode, (), Directed, u32>) -> (n: usize)
    ensures
        n == dag_graph_nodes(*g).len(),
{
    g.node_count()
}

/// `Graph::edge_count`: the number of edges.
#[verifier::external_body]
fn graph_edge_count(g: &Graph<DagNode, (), Directed, u32>) -> (n: usize)
    ensures
        n == dag_graph_edges(*g).len(),
{
    g.edge_count()
}

/// `Graph::add_node`: appends the weight as a new node, whose index is the former node count.
/// It panics once the count reaches `u32::MAX`, which `requires` rules out.
#[verifier::external_body]
fn graph_add_node(g: &mut Graph<DagNode, (), Directed, u32>, w: DagNode) -> (i: u32)
    requires
        dag_graph_nodes(*old(g)).len() < u32::MAX,
    ensures
        dag_graph_nodes(*final(g)) == dag_graph_nodes(*old(g)).push(w),
        dag_graph_edges(*final(g)) == dag_graph_edges(*old(g)),
        i == dag_graph_nodes(*old(g)).len(),
{
    g.add_node(w).index() as u32
}

/// `Graph::add_edge`: appends the edge (a, b). It panics on an index out of bounds and
/// once the edge count reaches `u32::MAX`, which `requires` rules out.
#[verifier::external_body]
fn graph_add_edge(g: &mut Graph<DagNode, (), Directed, u32>, a: u32, b: u32)
    requires
        a < dag_graph_nodes(*old(g)).len(),
        b < dag_graph_nodes(*old(g)).len(),
        dag_graph_edges(*old(g)).len() < u32::MAX,
    ensures
        dag_graph_nodes(*final(g)) == dag_graph_nodes(*old(g)),
        dag_graph_edges(*final(g)) == dag_graph_edges(*old(g)).push((a, b)),
{
    g.add_edge(NodeIndex::new(a as usize), NodeIndex::new(b as usize), ());
}

/// `Index` of a graph by a node index: the node's weight.
#[verifier::external_body]
fn graph_node(g: &Graph<DagNode, (), Directed, u32>, i: u32) -> (r: &DagNode)
    requires
        i < dag_graph_nodes(*g).len(),
    ensures
        *r == dag_graph_nodes(*g)[i as int],
{
    &g[NodeIndex::new(i as usize)]
}

/// `IndexMut` of a graph by a node index, then an assignment to the node's `state`.
#[verifier::external_body]
fn graph_set_state(g: &mut Graph<DagNode, (), Directed, u32>, i: u32, state: NodeState)
    requires
        i < dag_graph_nodes(*old(g)).len(),
    ensures
        dag_graph_nodes(*final(g)) == dag_graph_nodes(*old(g)).update(
            i as int,
            DagNode { state: state, ..dag_graph_nodes(*old(g))[i as int] },
        ),
        dag_graph_edges(*final(g)) == dag_graph_edges(*old(g)),
{
    g[NodeIndex::new(i as usize)].state = state;
}

/// `IndexMut` of a graph by a node index, then an assignment to the node's `result`.
#[verifier::external_body]
fn graph_set_result(g: &mut Graph<DagNode, (), Directed, u32>, i: u32, result: Option<Vec<u8>>)
    requires
        i < dag_graph_nodes(*old(g)).len(),
    ensures
        dag_graph_nodes(*final(g)) == dag_graph_nodes(*old(g)).update(
            i as int,
            DagNode { result: result, ..dag_graph_nodes(*old(g))[i as int] },
        ),
        dag_graph_edges(*final(g)) == dag_graph_edges(*old(g)),
{
    g[NodeIndex::new(i as usize)].result = result;
}

/// `Graph::neighbors_directed` with `Incoming`: the sources of the edges that end at `i`.
#[verifier::external_body]
fn graph_incoming(g: &Graph<DagNode, (), Directed, u32>, i: u32) -> (r: Vec<u32>)
    requires
        i < dag_graph_nodes(*g).len(),
    ensures
        forall|k: int| 0 <= k < r@.len() ==> dag_graph_edges(*g).contains((#[trigger] r@[k], i)),
        forall|e: int|
            0 <= e < dag_graph_edges(*g).len() && (#[trigger] dag_graph_edges(*g)[e]).1 == i
                ==> r@.contains(dag_graph_edges(*g)[e].0),
{
    let mut out = Vec::new();
    for n in g.neighbors_directed(NodeIndex::new(i as usize), Direction::Incoming) {
        out.push(n.index() as u32);
    }
    out
}

/// `Graph::neighbors_directed` with `Outgoing`: the targets of the edges that start at `i`.
#[verifier::external_body]
fn graph_outgoing(g: &Graph<DagNode, (), Directed, u32>, i: u32) -> (r: Vec<u32>)
    requires
        i < dag_graph_nodes(*g).len(),
    ensures
        forall|k: int| 0 <= k < r@.len() ==> dag_graph_edges(*g).contains((i, #[trigger] r@[k])),
        forall|e: int|
            0 <= e < dag_graph_edges(*g).len() && (#[trigger] dag_graph_edges(*g)[e]).0 == i
                ==> r@.contains(dag_graph_edges(*g)[e].1),
{
    let mut out = Vec::new();
    for n in g.neighbors_directed(NodeIndex::new(i as usize), Direction::Outgoing) {
        out.push(n.index() as u32);
    }
    out
}

/// The characters that `String::from_utf8_lossy` makes of a byte sequence.
pub uninterp spec fn utf8_lossy(bytes: Seq<u8>) -> Seq<char>;

/// `String::from_utf8_lossy`, made an owned `String`.
#[verifier::external_body]
fn string_from_utf8_lossy(bytes: &[u8]) -> (s: String)
    ensures
        s@ == utf8_lossy(bytes@),
{
    String::from_utf8_lossy(bytes).to_string()
}

/// Number of `true` entries of a flag sequence.
pub open spec fn count_true(s: Seq<bool>) -> nat
    decreases s.len(),
{
    if s.len() == 0 {
        0
    } else {
        count_true(s.drop_last()) + if s.last() {
            1nat
        } else {
            0nat
        }
    }
}

proof fn lemma_count_true_bound(s: Seq<bool>)
    ensures
        count_true(s) <= s.len(),
    decreases s.len(),
{
    if s.len() > 0 {
        lemma_count_true_bound(s.drop_last());
    }
}

proof fn lemma_count_true_push(s: Seq<bool>, b: bool)
    ensures
        count_true(s.push(b)) == count_true(s) + if b {
            1nat
        } else {
            0nat
        },
{
    assert(s.push(b).drop_last() =~= s);
}

proof fn lemma_count_true_update(s: Seq<bool>, i: int, b: bool)
    requires
        0 <= i < s.len(),
    ensures
        count_true(s.update(i, b)) + (if s[i] {
            1nat
        } else {
            0nat
        }) == count_true(s) + (if b {
            1nat
        } else {
            0nat
        }),
    decreases s.len(),
{
    if i == s.len() - 1 {
        assert(s.update(i, b).drop_last() =~= s.drop_last());
    } else {
        lemma_count_true_update(s.drop_last(), i, b);
        assert(s.update(i, b).drop_last() =~= s.drop_last().update(i, b));
    }
}

proof fn lemma_count_true_disjoint(a: Seq<bool>, b: Seq<bool>)
    requires
        a.len() == b.len(),
        forall|i: int| 0 <= i < a.len() ==> !(a[i] && b[i]),
    ensures
        count_true(a) + count_true(b) <= a.len(),
    decreases a.len(),
{
    if a.len() > 0 {
        lemma_count_true_disjoint(a.drop_last(), b.drop_last());
    }
}

/// The indices of the `true` entries of a flag sequence, in increasing order.
pub open spec fn true_indices(s: Seq<bool>) -> Seq<int>
    decreases s.len(),
{
    if s.len() == 0 {
        Seq::empty()
    } else {
        let p = true_indices(s.drop_last());
        if s.last() {
            p.push(s.len() - 1)
        } else {
            p
        }
    }
}

/// The indices of the `true` entries are as many as those entries, in range, strictly
/// increasing, and each marks a `true` entry.
pub proof fn lemma_true_indices(s: Seq<bool>)
    ensures
        true_indices(s).len() == count_true(s),
        forall|k: int|
            0 <= k < true_indices(s).len() ==> 0 <= #[trigger] true_indices(s)[k] < s.len()
                && s[true_indices(s)[k]],
        forall|k1: int, k2: int|
            0 <= k1 < k2 < true_indices(s).len() ==> #[trigger] true_indices(s)[k1]
                < #[trigger] true_indices(s)[k2],
    decreases s.len(),
{
    if s.len() > 0 {
        lemma_true_indices(s.drop_last());
    }
}

/// Whether every edge that ends at node `i` starts at an executed node.
pub open spec fn deps_executed(edges: Seq<(u32, u32)>, executed: Seq<bool>, i: int) -> bool {
    forall|e: int|
        0 <= e < edges.len() && (#[trigger] edges[e]).1 == i ==> executed[edges[e].0 as int]
}

/// Whether `other` must run before `tx`: same sender, lower nonce.
pub open spec fn precedes(other: Transaction, tx: Transaction) -> bool {
    other.sender.0@ == tx.sender.0@ && other.nonce < tx.nonce
}

/// Whether `other` conflicts with `tx`: same sender, same nonce.
pub open spec fn conflicts(other: Transaction, tx: Transaction) -> bool {
    other.sender.0@ == tx.sender.0@ && other.nonce == tx.nonce
}

/// The dependency edges that adding `tx` as node `nodes.len()` creates from the first `k` nodes,
/// in the order of the nodes.
pub open spec fn dependency_edges(nodes: Seq<DagNode>, tx: Transaction, k: int) -> Seq<(u32, u32)>
    decreases k,
{
    if k <= 0 {
        Seq::empty()
    } else {
        let prev = dependency_edges(nodes, tx, k - 1);
        if precedes(nodes[k - 1].transaction, tx) {
            prev.push(((k - 1) as u32, nodes.len() as u32))
        } else {
            prev
        }
    }
}

/// A transaction DAG: each transaction depends on the transactions of the same sender with a
/// lower nonce that were in the DAG when it was added, and becomes executable once they are
/// all executed.
pub struct TransactionDag {
    graph: Graph<DagNode, (), Directed, u32>,
    /// The transaction id of each node, by node index.
    tx_ids: Vec<TransactionId>,
    /// Which nodes are executable, by node index.
    executable: Vec<bool>,
    /// Which nodes are executed, by node index.
    executed: Vec<bool>,
    executable_count: usize,
    executed_count: usize,
}

impl TransactionDag {
    /// The nodes of the DAG, by index.
    pub closed spec fn nodes(&self) -> Seq<DagNode> {
        dag_graph_nodes(self.graph)
    }

    /// The dependency edges of the DAG, as (dependency, dependent) pairs.
    pub closed spec fn edges(&self) -> Seq<(u32, u32)> {
        dag_graph_edges(self.graph)
    }

    /// Which nodes are executable.
    pub closed spec fn executable_flags(&self) -> Seq<bool> {
        self.executable@
    }

    /// Which nodes are executed.
    pub closed spec fn executed_flags(&self) -> Seq<bool> {
        self.executed@
    }

    /// The index of the node that holds transaction `id`, if any.
    pub open spec fn index_of(&self, id: TransactionId) -> Option<int> {
        if exists|i: int| 0 <= i < self.nodes().len() && self.nodes()[i].tx_id.bytes@ == id.bytes@ {
            Some(
                choose|i: int|
                    0 <= i < self.nodes().len() && self.nodes()[i].tx_id.bytes@ == id.bytes@,
            )
        } else {
            None
        }
    }

    /// The internal invariant of the DAG.
    pub closed spec fn wf(&self) -> bool {
        let nodes = dag_graph_nodes(self.graph);
        let edges = dag_graph_edges(self.graph);
        &&& nodes.len() == self.tx_ids@.len()
        &&& nodes.len() == self.executable@.len()
        &&& nodes.len() == self.executed@.len()
        &&& nodes.len() <= u32::MAX
        &&& forall|i: int|
            0 <= i < nodes.len() ==> (#[trigger] nodes[i]).tx_id == self.tx_ids@[i]
                && nodes[i].transaction.id == self.tx_ids@[i]
        &&& forall|i: int, j: int|
            0 <= i < j < nodes.len() ==> (#[trigger] self.tx_ids@[i]).bytes@
                != (#[trigger] self.tx_ids@[j]).bytes@
        &&& forall|e: int|
            0 <= e < edges.len() ==> (#[trigger] edges[e]).0 < edges[e].1 && edges[e].1
                < nodes.len()
        &&& forall|i: int|
            0 <= i < nodes.len() ==> (#[trigger] self.executed@[i] <==> nodes[i].state
                is Executed)
        &&& forall|i: int|
            0 <= i < nodes.len() && #[trigger] self.executable@[i] ==> nodes[i].state is Pending
                && deps_executed(edges, self.executed@, i)
        &&& forall|i: int|
            0 <= i < nodes.len() && !((#[trigger] nodes[i]).state is Pending) ==> deps_executed(
                edges,
                self.executed@,
                i,
            )
        &&& self.executable_count == count_true(self.executable@)
        &&& self.executed_count == count_true(self.executed@)
    }

    /// Creates an empty DAG.
    pub fn new() -> (r: Self)
        ensures
            r.wf(),
            r.nodes().len() == 0,
            r.edges().len() == 0,
    {
        let r = TransactionDag {
            graph: graph_new(),
            tx_ids: Vec::new(),
            executable: Vec::new(),
            executed: Vec::new(),
            executable_count: 0,
            executed_count: 0,
        };
        proof {
            assert(r.executable@ =~= Seq::<bool>::empty());
            assert(r.executed@ =~= Seq::<bool>::empty());
        }
        r
    }

    /// The number of nodes.
    pub fn node_count(&self) -> (n: usize)
        requires
            self.wf(),
        ensures
            n == self.nodes().len(),
    {
        graph_node_count(&self.graph)
    }

    /// The number of dependency edges.
    pub fn edge_count(&self) -> (n: usize)
        requires
            self.wf(),
        ensures
            n == self.edges().len(),
    {
        graph_edge_count(&self.graph)
    }

    /// Finds the node that holds transaction `id`.
    fn find_index(&self, id: &TransactionId) -> (r: Option<u32>)
        requires
            self.wf(),
        ensures
            r == (match self.index_of(*id) {
                Some(i) => Some(i as u32),
                None => None::<u32>,
            }),
    {
        let n = self.tx_ids.len();
        let mut i: usize = 0;
        while i < n
            invariant
                self.wf(),
                n == self.tx_ids@.len(),
                i <= n,
                forall|k: int| 0 <= k < i ==> self.tx_ids@[k].bytes@ != id.bytes@,
            decreases n - i,
        {
            if self.tx_ids[i].same_as(id) {
                proof {
                    let nodes = self.nodes();
                    assert(nodes[i as int].tx_id.bytes@ == id.bytes@);
                    let c = choose|j: int| 0 <= j < nodes.len() && nodes[j].tx_id.bytes@ == id.bytes@;
                    if c != i {
                        if c < i {
                            assert(self.tx_ids@[c].bytes@ != self.tx_ids@[i as int].bytes@);
                        } else {
                            assert(self.tx_ids@[i as int].bytes@ != self.tx_ids@[c].bytes@);
                        }
                    }
                }
                return Some(i as u32);
            }
            i = i + 1;
        }
        proof {
            assert forall|j: int| 0 <= j < self.nodes().len() implies self.nodes()[j].tx_id.bytes@
                != id.bytes@ by {
                assert(self.nodes()[j].tx_id == self.tx_ids@[j]);
            }
        }
        None
    }

    /// Whether every dependency of node `i` is executed.
    fn is_executable(&self, i: u32) -> (r: bool)
        requires
            self.wf(),
            i < self.nodes().len(),
        ensures
            r == deps_executed(self.edges(), self.executed@, i as int),
    {
        let deps = graph_incoming(&self.graph, i);
        let mut k: usize = 0;
        while k < deps.len()
            invariant
                self.wf(),
                i < self.nodes().len(),
                k <= deps@.len(),
                forall|m: int| 0 <= m < deps@.len() ==> self.edges().contains((#[trigger] deps@[m], i)),
                forall|e: int|
                    0 <= e < self.edges().len() && (#[trigger] self.edges()[e]).1 == i
                        ==> deps@.contains(self.edges()[e].0),
                forall|m: int| 0 <= m < k ==> self.executed@[(#[trigger] deps@[m]) as int],
            decreases deps@.len() - k,
        {
            let d = deps[k];
            proof {
                assert(self.edges().contains((deps@[k as int], i)));
                let e = choose|e: int| 0 <= e < self.edges().len() && self.edges()[e] == (d, i);
                assert(self.edges()[e].0 < self.edges()[e].1);
            }
            if !self.executed[d as usize] {
                proof {
                    let e = choose|e: int| 0 <= e < self.edges().len() && self.edges()[e] == (d, i);
                    assert(self.edges()[e].1 == i);
                }
                return false;
            }
            k = k + 1;
        }
        proof {
            assert forall|e: int|
                0 <= e < self.edges().len() && (#[trigger] self.edges()[e]).1 == i implies self.executed@[self.edges()[e].0 as int] by {
                assert(deps@.contains(self.edges()[e].0));
                let m = choose|m: int| 0 <= m < deps@.len() && deps@[m] == self.edges()[e].0;
                assert(self.executed@[deps@[m] as int]);
            }
        }
        true
    }

    proof fn lemma_dependency_edges_len(nodes: Seq<DagNode>, tx: Transaction, k: int)
        requires
            0 <= k,
        ensures
            dependency_edges(nodes, tx, k).len() <= k,
            forall|e: int|
                0 <= e < dependency_edges(nodes, tx, k).len() ==> (#[trigger] dependency_edges(
                    nodes,
                    tx,
                    k,
                )[e]).1 == nodes.len() as u32 && (dependency_edges(nodes, tx, k)[e].0 as int) < k,
        decreases k,
    {
        if k > 0 {
            Self::lemma_dependency_edges_len(nodes, tx, k - 1);
        }
    }

    /// Adds a transaction to the DAG, with an edge from each transaction of the same sender
    /// and a lower nonce. The node is added before the dependencies are looked at, so a nonce
    /// conflict leaves it in the DAG, pending and not executable.
    pub fn add_transaction(&mut self, transaction: Transaction) -> (r: Result<(), LedgerError>)
        requires
            old(self).wf(),
            old(self).nodes().len() + 1 < u32::MAX,
            old(self).edges().len() + old(self).nodes().len() < u32::MAX,
        ensures
            final(self).wf(),
            old(self).index_of(transaction.id) is Some ==> {
                &&& r == Err::<(), LedgerError>(LedgerError::AlreadyExists(transaction.id))
                &&& final(self).nodes() == old(self).nodes()
                &&& final(self).edges() == old(self).edges()
                &&& final(self).executable_flags() == old(self).executable_flags()
                &&& final(self).executed_flags() == old(self).executed_flags()
            },
            old(self).index_of(transaction.id) is None ==> {
                let n = old(self).nodes().len() as int;
                let node = final(self).nodes()[n];
                &&& final(self).nodes().len() == n + 1
                &&& final(self).nodes().subrange(0, n) == old(self).nodes()
                &&& node.tx_id == transaction.id
                &&& node.transaction.id == transaction.id
                &&& node.transaction.sender == transaction.sender
                &&& node.transaction.nonce == transaction.nonce
                &&& node.transaction.data@ == transaction.data@
                &&& node.state is Pending
                &&& node.result is None
                &&& final(self).executed_flags() == old(self).executed_flags().push(false)
                &&& (r is Ok <==> !exists|k: int|
                    0 <= k < n && conflicts(#[trigger] old(self).nodes()[k].transaction, transaction))
                &&& r is Ok ==> {
                    &&& final(self).edges() == old(self).edges() + dependency_edges(
                        old(self).nodes(),
                        transaction,
                        n,
                    )
                    &&& final(self).executable_flags() == old(self).executable_flags().push(
                        deps_executed(final(self).edges(), final(self).executed_flags(), n),
                    )
                }
                &&& r is Err ==> {
                    &&& r == Err::<(), LedgerError>(LedgerError::InvalidNonce(transaction.id))
                    &&& final(self).executable_flags() == old(self).executable_flags().push(false)
                    &&& exists|k: int|
                        0 <= k < n && conflicts(#[trigger] old(self).nodes()[k].transaction, transaction)
                            && final(self).edges() == old(self).edges() + dependency_edges(
                            old(self).nodes(),
                            transaction,
                            k,
                        )
                }
            },
    {
        let tx_id = transaction.id;
        if self.find_index(&tx_id).is_some() {
            return Err(LedgerError::AlreadyExists(tx_id));
        }
        let ghost old_nodes = self.nodes();
        let ghost old_edges = self.edges();
        let sender = transaction.sender;
        let nonce = transaction.nonce;
        let node = DagNode {
            tx_id,
            transaction: transaction.clone(),
            state: NodeState::Pending,
            result: None,
        };
        let node_idx = graph_add_node(&mut self.graph, node);
        self.tx_ids.push(tx_id);
        self.executable.push(false);
        self.executed.push(false);
        proof {
            lemma_count_true_push(old(self).executable@, false);
            lemma_count_true_push(old(self).executed@, false);
            assert forall|i: int, j: int|
                0 <= i < j < self.nodes().len() implies (#[trigger] self.tx_ids@[i]).bytes@
                != (#[trigger] self.tx_ids@[j]).bytes@ by {
                if j == node_idx {
                    assert(old_nodes[i].tx_id == old(self).tx_ids@[i]);
                }
            }
            assert forall|i: int|
                0 <= i < self.nodes().len() && !((#[trigger] self.nodes()[i]).state
                    is Pending) implies deps_executed(self.edges(), self.executed@, i) by {
                assert(i < node_idx);
                assert(old_nodes[i] == self.nodes()[i]);
                assert forall|e: int|
                    0 <= e < self.edges().len() && (#[trigger] self.edges()[e]).1 == i implies self.executed@[self.edges()[e].0 as int] by {
                    assert(old(self).executed@[old_edges[e].0 as int]);
                }
            }
            assert forall|i: int|
                0 <= i < self.nodes().len() && #[trigger] self.executable@[i] implies self.nodes()[i].state is Pending
                    && deps_executed(self.edges(), self.executed@, i) by {
                assert(old(self).executable@[i]);
                assert forall|e: int|
                    0 <= e < self.edges().len() && (#[trigger] self.edges()[e]).1 == i implies self.executed@[self.edges()[e].0 as int] by {
                    assert(old(self).executed@[old_edges[e].0 as int]);
                }
            }
            assert(self.wf());
        }
        let ghost mid = *self;
        let mut i: u32 = 0;
        while i < node_idx
            invariant
                self.wf(),
                node_idx == old_nodes.len(),
                self.nodes().len() == old_nodes.len() + 1,
                self.nodes()[node_idx as int].state is Pending,
                self.nodes()[node_idx as int].result is None,
                self.nodes()[node_idx as int].tx_id == transaction.id,
                self.nodes()[node_idx as int].transaction.id == transaction.id,
                self.nodes()[node_idx as int].transaction.sender == transaction.sender,
                self.nodes()[node_idx as int].transaction.nonce == transaction.nonce,
                self.nodes()[node_idx as int].transaction.data@ == transaction.data@,
                old_nodes == old(self).nodes(),
                old_edges == old(self).edges(),
                old(self).index_of(transaction.id) is None,
                i <= node_idx,
                self.nodes() == mid.nodes(),
                self.nodes().subrange(0, node_idx as int) == old_nodes,
                self.tx_ids@ == mid.tx_ids@,
                self.executable@ == mid.executable@,
                self.executed@ == mid.executed@,
                self.executable@[node_idx as int] == false,
                self.executed@ == old(self).executed@.push(false),
                self.executable@ == old(self).executable@.push(false),
                sender == transaction.sender,
                tx_id == transaction.id,
                nonce == transaction.nonce,
                self.edges() == old_edges + dependency_edges(old_nodes, transaction, i as int),
                old_edges.len() + old_nodes.len() < u32::MAX,
                forall|k: int| 0 <= k < i ==> !conflicts(#[trigger] old_nodes[k].transaction, transaction),
            decreases node_idx - i,
        {
            let other = graph_node(&self.graph, i);
            let same_sender = other.transaction.sender.same_as(&sender);
            let other_nonce = other.transaction.nonce;
            proof {
                assert(old_nodes[i as int] == self.nodes()[i as int]);
                Self::lemma_dependency_edges_len(old_nodes, transaction, i as int);
            }
            if same_sender {
                if other_nonce < nonce {
                    let ghost pre = self.edges();
                    graph_add_edge(&mut self.graph, i, node_idx);
                    proof {
                        let ne = self.edges();
                        assert(ne =~= old_edges + dependency_edges(old_nodes, transaction, i + 1));
                        assert forall|e: int|
                            0 <= e < ne.len() implies (#[trigger] ne[e]).0 < ne[e].1 && ne[e].1 < self.nodes().len() by {
                            if e < old_edges.len() {
                                assert(old_edges[e] == ne[e]);
                            } else if e < ne.len() - 1 {
                                let d = e - old_edges.len();
                                assert(ne[e] == dependency_edges(old_nodes, transaction, i as int)[d]);
                            }
                        }
                        assert forall|j: int|
                            0 <= j < self.nodes().len() && !((#[trigger] self.nodes()[j]).state
                                is Pending) implies deps_executed(ne, self.executed@, j) by {
                            assert(j != node_idx);
                            assert forall|e: int|
                                0 <= e < ne.len() && (#[trigger] ne[e]).1 == j implies self.executed@[ne[e].0 as int] by {
                                assert(e < ne.len() - 1);
                                assert(ne[e] == pre[e]);
                            }
                        }
                        assert forall|j: int|
                            0 <= j < self.nodes().len() && #[trigger] self.executable@[j] implies self.nodes()[j].state is Pending
                                && deps_executed(ne, self.executed@, j) by {
                            assert(j != node_idx);
                        }
                    }
                } else if other_nonce == nonce {
                    proof {
                        assert(conflicts(old_nodes[i as int].transaction, transaction));
                        assert(self.nodes().subrange(0, node_idx as int) == old_nodes);
                    }
                    return Err(LedgerError::InvalidNonce(tx_id));
                } else {
                    proof {
                        assert(self.edges() =~= old_edges + dependency_edges(old_nodes, transaction, i + 1));
                    }
                }
            } else {
                proof {
                    assert(self.edges() =~= old_edges + dependency_edges(old_nodes, transaction, i + 1));
                }
            }
            i = i + 1;
        }
        if self.is_executable(node_idx) {
            proof {
                lemma_count_true_update(self.executable@, node_idx as int, true);
                lemma_count_true_bound(self.executable@.update(node_idx as int, true));
            }
            self.executable.set(node_idx as usize, true);
            self.executable_count = self.executable_count + 1;
        }
        proof {
            assert(self.executable@ =~= old(self).executable@.push(
                deps_executed(self.edges(), self.executed@, node_idx as int)));
        }
        Ok(())
    }


    /// Marks an executable transaction as executing; it leaves the executable set.
    pub fn start_execution(&mut self, tx_id: &TransactionId) -> (r: Result<(), LedgerError>)
        requires
            old(self).wf(),
        ensures
            final(self).wf(),
            final(self).edges() == old(self).edges(),
            final(self).executed_flags() == old(self).executed_flags(),
            match old(self).index_of(*tx_id) {
                None => {
                    &&& r == Err::<(), LedgerError>(LedgerError::NotFound(*tx_id))
                    &&& final(self).nodes() == old(self).nodes()
                    &&& final(self).executable_flags() == old(self).executable_flags()
                },
                Some(i) => if old(self).executable_flags()[i] {
                    &&& r is Ok
                    &&& final(self).nodes() == old(self).nodes().update(
                        i,
                        DagNode { state: NodeState::Executing, ..old(self).nodes()[i] },
                    )
                    &&& final(self).executable_flags() == old(self).executable_flags().update(
                        i,
                        false,
                    )
                } else {
                    &&& r == Err::<(), LedgerError>(LedgerError::InvalidState(*tx_id))
                    &&& final(self).nodes() == old(self).nodes()
                    &&& final(self).executable_flags() == old(self).executable_flags()
                },
            },
    {
        let idx = match self.find_index(tx_id) {
            Some(i) => i,
            None => {
                return Err(LedgerError::NotFound(*tx_id));
            },
        };
        if !self.executable[idx as usize] {
            return Err(LedgerError::InvalidState(*tx_id));
        }
        proof {
            lemma_count_true_update(self.executable@, idx as int, false);
        }
        graph_set_state(&mut self.graph, idx, NodeState::Executing);
        self.executable.set(idx as usize, false);
        self.executable_count = self.executable_count - 1;
        proof {
            assert forall|i: int|
                0 <= i < self.nodes().len() && !((#[trigger] self.nodes()[i]).state
                    is Pending) implies deps_executed(self.edges(), self.executed@, i) by {
                if i != idx {
                    assert(self.nodes()[i] == old(self).nodes()[i]);
                } else {
                    assert(old(self).executable@[i]);
                }
            }
            assert forall|i: int|
                0 <= i < self.nodes().len() && #[trigger] self.executable@[i] implies self.nodes()[i].state is Pending
                    && deps_executed(self.edges(), self.executed@, i) by {
                assert(i != idx);
                assert(old(self).executable@[i]);
            }
            assert forall|i: int|
                0 <= i < self.nodes().len() implies (#[trigger] self.executed@[i] <==> self.nodes()[i].state
                    is Executed) by {
                if i == idx {
                    assert(old(self).executable@[i]);
                    assert(old(self).nodes()[i].state is Pending);
                }
            }
        }
        Ok(())
    }

    /// Records the outcome of an executing transaction. On success the node is executed, keeps
    /// `result`, and each dependent whose dependencies are now all executed becomes executable;
    /// on failure the node fails with `result` read as text.
    pub fn complete_execution(
        &mut self,
        tx_id: &TransactionId,
        result: Option<Vec<u8>>,
        success: bool,
    ) -> (r: Result<(), LedgerError>)
        requires
            old(self).wf(),
        ensures
            final(self).wf(),
            completion(*old(self), *final(self), *tx_id, result, success, r),
    {
        let idx = match self.find_index(tx_id) {
            Some(i) => i,
            None => {
                return Err(LedgerError::NotFound(*tx_id));
            },
        };
        let executing = match graph_node(&self.graph, idx).state {
            NodeState::Executing => true,
            _ => false,
        };
        if !executing {
            return Err(LedgerError::InvalidState(*tx_id));
        }
        let ghost given = result;
        if success {
            let ghost pre = *self;
            proof {
                lemma_count_true_update(self.executed@, idx as int, true);
                lemma_count_true_bound(self.executed@.update(idx as int, true));
                assert(!self.executable@[idx as int]);
            }
            graph_set_state(&mut self.graph, idx, NodeState::Executed);
            graph_set_result(&mut self.graph, idx, result);
            self.executed.set(idx as usize, true);
            self.executed_count = self.executed_count + 1;
            proof {
                assert forall|i: int|
                    0 <= i < self.nodes().len() && !((#[trigger] self.nodes()[i]).state
                        is Pending) implies deps_executed(self.edges(), self.executed@, i) by {
                    assert(!(pre.nodes()[i].state is Pending));
                    assert forall|e: int|
                        0 <= e < self.edges().len() && (#[trigger] self.edges()[e]).1 == i implies self.executed@[self.edges()[e].0 as int] by {
                        assert(pre.executed@[pre.edges()[e].0 as int]);
                    }
                }
                assert forall|i: int|
                    0 <= i < self.nodes().len() && #[trigger] self.executable@[i] implies self.nodes()[i].state is Pending
                        && deps_executed(self.edges(), self.executed@, i) by {
                    assert(i != idx);
                    assert(pre.executable@[i]);
                    assert forall|e: int|
                        0 <= e < self.edges().len() && (#[trigger] self.edges()[e]).1 == i implies self.executed@[self.edges()[e].0 as int] by {
                        assert(pre.executed@[pre.edges()[e].0 as int]);
                    }
                }
                assert(self.wf());
            }
            let ghost post = *self;
            let dependents = graph_outgoing(&self.graph, idx);
            let mut k: usize = 0;
            while k < dependents.len()
                invariant
                    self.wf(),
                    idx < self.nodes().len(),
                    self.nodes() == post.nodes(),
                    self.edges() == post.edges(),
                    self.executed@ == post.executed@,
                    self.executable@.len() == post.executable@.len(),
                    pre.wf(),
                    pre.edges() == self.edges(),
                    pre == *old(self),
                    post.executable@ == old(self).executable@,
                    !pre.executed@[idx as int],
                    forall|j: int| 0 <= j < self.nodes().len() && j != idx ==> self.nodes()[j] == pre.nodes()[j],
                    k <= dependents@.len(),
                    forall|m: int| 0 <= m < dependents@.len() ==> self.edges().contains((idx, #[trigger] dependents@[m])),
                    forall|j: int|
                        0 <= j < self.executable@.len() ==> #[trigger] self.executable@[j] == (post.executable@[j]
                            || (exists|m: int| 0 <= m < k && dependents@[m] == j) && deps_executed(
                            self.edges(),
                            self.executed@,
                            j,
                        )),
                decreases dependents@.len() - k,
            {
                let d = dependents[k];
                proof {
                    assert(self.edges().contains((idx, dependents@[k as int])));
                    let e = choose|e: int| 0 <= e < self.edges().len() && self.edges()[e] == (idx, d);
                    assert(self.edges()[e].0 < self.edges()[e].1);
                }
                let ready = self.is_executable(d);
                if ready && !self.executable[d as usize] {
                    proof {
                        lemma_count_true_update(self.executable@, d as int, true);
                        lemma_count_true_bound(self.executable@.update(d as int, true));
                        let e = choose|e: int| 0 <= e < self.edges().len() && self.edges()[e] == (idx, d);
                        assert(self.edges()[e].1 == d);
                        assert(!pre.executed@[idx as int]);
                        assert(pre.edges()[e] == self.edges()[e]);
                        assert(!deps_executed(pre.edges(), pre.executed@, d as int));
                        assert(pre.nodes()[d as int].state is Pending);
                        assert(d != idx);
                        assert(self.nodes()[d as int] == pre.nodes()[d as int]);
                    }
                    self.executable.set(d as usize, true);
                    self.executable_count = self.executable_count + 1;
                }
                proof {
                    assert forall|j: int|
                        0 <= j < self.executable@.len() implies #[trigger] self.executable@[j] == (post.executable@[j]
                            || (exists|m: int| 0 <= m < k + 1 && dependents@[m] == j) && deps_executed(
                            self.edges(),
                            self.executed@,
                            j,
                        )) by {
                        if j == d {
                            assert(dependents@[k as int] == j);
                        } else {
                            if exists|m: int| 0 <= m < k + 1 && dependents@[m] == j {
                                let m = choose|m: int| 0 <= m < k + 1 && dependents@[m] == j;
                                assert(m != k);
                            }
                        }
                    }
                }
                k = k + 1;
            }
            proof {
                assert forall|j: int|
                    0 <= j < old(self).nodes().len() implies #[trigger] self.executable@[j] == (old(self).executable@[j]
                        || (old(self).edges().contains((idx, j as u32)) && deps_executed(
                        old(self).edges(),
                        self.executed@,
                        j,
                    ))) by {
                    if old(self).edges().contains((idx, j as u32)) {
                        let e = choose|e: int| 0 <= e < old(self).edges().len() && old(self).edges()[e] == (idx, j as u32);
                        assert(old(self).edges()[e].0 == idx);
                        assert(dependents@.contains(old(self).edges()[e].1));
                        let m = choose|m: int| 0 <= m < dependents@.len() && dependents@[m] == old(self).edges()[e].1;
                        assert(dependents@[m] == j);
                    }
                    if exists|m: int| 0 <= m < dependents@.len() && dependents@[m] == j {
                        let m = choose|m: int| 0 <= m < dependents@.len() && dependents@[m] == j;
                        assert(self.edges().contains((idx, dependents@[m])));
                    }
                }
                assert(self.nodes() =~= old(self).nodes().update(
                    idx as int,
                    DagNode { state: NodeState::Executed, result: given, ..old(self).nodes()[idx as int] },
                ));
            }
            Ok(())
        } else {
            let bytes = match result {
                Some(v) => v,
                None => Vec::new(),
            };
            let msg = string_from_utf8_lossy(bytes.as_slice());
            graph_set_state(&mut self.graph, idx, NodeState::Failed(msg));
            proof {
                assert forall|i: int|
                    0 <= i < self.nodes().len() && !((#[trigger] self.nodes()[i]).state
                        is Pending) implies deps_executed(self.edges(), self.executed@, i) by {
                    assert(!(old(self).nodes()[i].state is Pending));
                }
                assert forall|i: int|
                    0 <= i < self.nodes().len() && #[trigger] self.executable@[i] implies self.nodes()[i].state is Pending
                        && deps_executed(self.edges(), self.executed@, i) by {
                    assert(i != idx);
                }
                assert forall|i: int|
                    0 <= i < self.nodes().len() implies (#[trigger] self.executed@[i] <==> self.nodes()[i].state
                        is Executed) by {
                    if i == idx {
                        assert(old(self).nodes()[i].state is Executing);
                    }
                }
            }
            Ok(())
        }
    }

    /// The transactions of the executable nodes, in node order.
    pub fn get_executable_transactions(&self) -> (r: Vec<Transaction>)
        requires
            self.wf(),
        ensures
            r@.len() == true_indices(self.executable_flags()).len(),
            r@.len() == count_true(self.executable_flags()),
            forall|k: int|
                0 <= k < r@.len() ==> {
                    let t = self.nodes()[true_indices(self.executable_flags())[k]].transaction;
                    &&& (#[trigger] r@[k]).id == t.id
                    &&& r@[k].sender == t.sender
                    &&& r@[k].nonce == t.nonce
                    &&& r@[k].data@ == t.data@
                },
    {
        let n = self.executable.len();
        let mut out: Vec<Transaction> = Vec::new();
        let mut i: usize = 0;
        proof {
            lemma_true_indices(self.executable@);
        }
        while i < n
            invariant
                self.wf(),
                n == self.executable@.len(),
                i <= n,
                out@.len() == true_indices(self.executable@.subrange(0, i as int)).len(),
                forall|k: int|
                    0 <= k < out@.len() ==> {
                        let t = self.nodes()[true_indices(self.executable@.subrange(0, i as int))[k]].transaction;
                        &&& (#[trigger] out@[k]).id == t.id
                        &&& out@[k].sender == t.sender
                        &&& out@[k].nonce == t.nonce
                        &&& out@[k].data@ == t.data@
                    },
            decreases n - i,
        {
            let ghost prev = true_indices(self.executable@.subrange(0, i as int));
            proof {
                assert(self.executable@.subrange(0, i + 1).drop_last() =~= self.executable@.subrange(0, i as int));
                lemma_true_indices(self.executable@.subrange(0, i as int));
            }
            if self.executable[i] {
                let node = graph_node(&self.graph, i as u32);
                out.push(node.transaction.clone());
                proof {
                    assert(true_indices(self.executable@.subrange(0, i + 1)) == prev.push(i as int));
                }
            }
            i = i + 1;
        }
        proof {
            assert(self.executable@.subrange(0, n as int) =~= self.executable@);
        }
        out
    }

    /// The execution state of a transaction.
    pub fn get_transaction_state(&self, tx_id: &TransactionId) -> (r: Result<NodeState, LedgerError>)
        requires
            self.wf(),
        ensures
            match self.index_of(*tx_id) {
                None => r == Err::<NodeState, LedgerError>(LedgerError::NotFound(*tx_id)),
                Some(i) => r == Ok::<NodeState, LedgerError>(self.nodes()[i].state),
            },
    {
        match self.find_index(tx_id) {
            Some(i) => Ok(graph_node(&self.graph, i).state.clone()),
            None => Err(LedgerError::NotFound(*tx_id)),
        }
    }

    /// The execution result of a transaction, if it has one.
    pub fn get_transaction_result(&self, tx_id: &TransactionId) -> (r: Result<
        Option<Vec<u8>>,
        LedgerError,
    >)
        requires
            self.wf(),
        ensures
            match self.index_of(*tx_id) {
                None => r == Err::<Option<Vec<u8>>, LedgerError>(LedgerError::NotFound(*tx_id)),
                Some(i) => match r {
                    Ok(res) => match (res, self.nodes()[i].result) {
                        (Some(a), Some(b)) => a@ == b@,
                        (None, None) => true,
                        _ => false,
                    },
                    Err(_) => false,
                },
            },
    {
        match self.find_index(tx_id) {
            Some(i) => {
                let node = graph_node(&self.graph, i);
                match &node.result {
                    Some(v) => Ok(Some(v.clone())),
                    None => Ok(None),
                }
            },
            None => Err(LedgerError::NotFound(*tx_id)),
        }
    }

    /// The counts of nodes: all, executable, executed, and the rest.
    pub fn get_stats(&self) -> (r: (usize, usize, usize, usize))
        requires
            self.wf(),
        ensures
            r.0 == self.nodes().len(),
            r.1 == count_true(self.executable_flags()),
            r.2 == count_true(self.executed_flags()),
            r.3 == r.0 - r.1 - r.2,
    {
        proof {
            Self::lemma_stats_partition(self);
        }
        let n = graph_node_count(&self.graph);
        (n, self.executable_count, self.executed_count, n - self.executable_count - self.executed_count)
    }

    /// An executable node is pending and all of its dependencies are executed.
    pub proof fn lemma_executable_is_pending(dag: &TransactionDag, i: int)
        requires
            dag.wf(),
            0 <= i < dag.nodes().len(),
            dag.executable_flags()[i],
        ensures
            dag.nodes()[i].state is Pending,
            deps_executed(dag.edges(), dag.executed_flags(), i),
    {
    }

    /// A node that has left the pending state (executing, executed or failed) did so only
    /// after all of its dependencies had executed: no transaction runs before a transaction
    /// of the same sender with a lower nonce that was in the DAG before it.
    pub proof fn lemma_started_after_dependencies(dag: &TransactionDag, i: int)
        requires
            dag.wf(),
            0 <= i < dag.nodes().len(),
            !(dag.nodes()[i].state is Pending),
        ensures
            forall|e: int|
                0 <= e < dag.edges().len() && (#[trigger] dag.edges()[e]).1 == i ==> dag.nodes()[dag.edges()[e].0 as int].state is Executed,
    {
    }

    /// A node is executed exactly when its state is `Executed`; the executable and executed
    /// nodes are disjoint, so their counts never exceed the node count.
    pub proof fn lemma_stats_partition(dag: &TransactionDag)
        requires
            dag.wf(),
        ensures
            count_true(dag.executable_flags()) + count_true(dag.executed_flags()) <= dag.nodes().len(),
            forall|i: int|
                0 <= i < dag.nodes().len() ==> (#[trigger] dag.executed_flags()[i] <==> dag.nodes()[i].state is Executed),
            forall|i: int|
                0 <= i < dag.nodes().len() ==> !(#[trigger] dag.executable_flags()[i] && dag.executed_flags()[i]),
    {
        assert forall|i: int| 0 <= i < dag.executable@.len() implies !(dag.executable@[i] && dag.executed@[i]) by {
            if dag.executable@[i] {
                assert(dag.nodes()[i].state is Pending);
            }
        }
        lemma_count_true_disjoint(dag.executable@, dag.executed@);
    }

    /// There is one executable flag and one executed flag per node.
    pub proof fn lemma_flag_lengths(dag: &TransactionDag)
        requires
            dag.wf(),
        ensures
            dag.executable_flags().len() == dag.nodes().len(),
            dag.executed_flags().len() == dag.nodes().len(),
    {
    }

    /// Each node is found by its own transaction id, which is also the id of the transaction
    /// it holds.
    pub proof fn lemma_node_identity(dag: &TransactionDag, i: int)
        requires
            dag.wf(),
            0 <= i < dag.nodes().len(),
        ensures
            dag.index_of(dag.nodes()[i].tx_id) == Some(i),
            dag.nodes()[i].transaction.id == dag.nodes()[i].tx_id,
    {
        let id = dag.nodes()[i].tx_id;
        assert(dag.nodes()[i].tx_id.bytes@ == id.bytes@);
        let j = choose|j: int| 0 <= j < dag.nodes().len() && dag.nodes()[j].tx_id.bytes@ == id.bytes@;
        if j < i {
            assert(dag.tx_ids@[j].bytes@ != dag.tx_ids@[i].bytes@);
        } else if i < j {
            assert(dag.tx_ids@[i].bytes@ != dag.tx_ids@[j].bytes@);
        }
    }

    /// Dependency edges always point from an earlier node to a later one, so the DAG has no cycle.
    pub proof fn lemma_edges_forward(dag: &TransactionDag)
        requires
            dag.wf(),
        ensures
            forall|e: int|
                0 <= e < dag.edges().len() ==> (#[trigger] dag.edges()[e]).0 < dag.edges()[e].1
                    && dag.edges()[e].1 < dag.nodes().len(),
    {
    }
}

/// How `complete_execution` of transaction `tx_id` with `result` and `success` takes the DAG
/// from `pre` to `post`, answering `r`.
pub open spec fn completion(
    pre: TransactionDag,
    post: TransactionDag,
    tx_id: TransactionId,
    result: Option<Vec<u8>>,
    success: bool,
    r: Result<(), LedgerError>,
) -> bool {
    &&& post.edges() == pre.edges()
    &&& match pre.index_of(tx_id) {
        None => {
            &&& r == Err::<(), LedgerError>(LedgerError::NotFound(tx_id))
            &&& post.nodes() == pre.nodes()
            &&& post.executable_flags() == pre.executable_flags()
            &&& post.executed_flags() == pre.executed_flags()
        },
        Some(i) => if !(pre.nodes()[i].state is Executing) {
            &&& r == Err::<(), LedgerError>(LedgerError::InvalidState(tx_id))
            &&& post.nodes() == pre.nodes()
            &&& post.executable_flags() == pre.executable_flags()
            &&& post.executed_flags() == pre.executed_flags()
        } else if success {
            &&& r is Ok
            &&& post.nodes() == pre.nodes().update(
                i,
                DagNode { state: NodeState::Executed, result: result, ..pre.nodes()[i] },
            )
            &&& post.executed_flags() == pre.executed_flags().update(i, true)
            &&& forall|j: int|
                0 <= j < pre.nodes().len() ==> #[trigger] post.executable_flags()[j]
                    == (pre.executable_flags()[j] || (pre.edges().contains(
                    (i as u32, j as u32),
                ) && deps_executed(pre.edges(), post.executed_flags(), j)))
            &&& post.executable_flags().len() == pre.executable_flags().len()
        } else {
            &&& r is Ok
            &&& post.nodes().len() == pre.nodes().len()
            &&& forall|j: int|
                0 <= j < pre.nodes().len() && j != i ==> #[trigger] post.nodes()[j]
                    == pre.nodes()[j]
            &&& post.nodes()[i].tx_id == pre.nodes()[i].tx_id
            &&& post.nodes()[i].transaction == pre.nodes()[i].transaction
            &&& post.nodes()[i].result == pre.nodes()[i].result
            &&& post.nodes()[i].state matches NodeState::Failed(msg) && msg@
                == utf8_lossy(
                match result {
                    Some(v) => v@,
                    None => Seq::<u8>::empty(),
                },
            )
            &&& post.executable_flags() == pre.executable_flags()
            &&& post.executed_flags() == pre.executed_flags()
        },
    }
}

} // verus!
