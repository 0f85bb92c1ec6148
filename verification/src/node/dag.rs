use vstd::prelude::*;
use crate::keyed::{KeyEq, DeepClone, KeyedVec};

verus! {

/// Identifier of a DAG transaction.
#[derive(Debug, Clone, Hash, PartialEq, Eq)]
pub struct TxId(String);

impl View for TxId {
    type V = Seq<char>;

    closed spec fn view(&self) -> Seq<char> {
        self.0@
    }
}

impl KeyEq for TxId {
    fn key_eq(&self, other: &Self) -> (r: bool) {
        self.0 == other.0
    }
}

impl DeepClone for TxId {
    fn deep_clone(&self) -> (r: Self) {
        TxId(self.0.clone())
    }
}

impl TxId {
    pub fn new(id: String) -> (r: Self)
        ensures
            r@ == id@,
    {
        TxId(id)
    }

    /// The identifier as text.
    pub fn as_str(&self) -> (r: &str)
        ensures
            r@ == self@,
    {
        self.0.as_str()
    }
}

/// The status of a DAG transaction.
#[derive(Debug, Clone, Copy, PartialEq, Eq)]
pub enum TxStatus {
    Pending,
    Accepted,
    Rejected,
    Conflicting,
}

/// A DAG transaction: it names the transactions it builds on.
#[derive(Debug)]
pub struct Transaction {
    pub id: TxId,
    pub parents: Vec<TxId>,
    pub data: Vec<u8>,
    /// Seconds since the Unix epoch.
    pub timestamp: i64,
    pub shard_id: u64,
    pub status: TxStatus,
}

/// What a DAG transaction holds.
pub struct TransactionView {
    pub id: Seq<char>,
    pub parents: Seq<Seq<char>>,
    pub data: Seq<u8>,
    pub timestamp: i64,
    pub shard_id: u64,
    pub status: TxStatus,
}

impl View for Transaction {
    type V = TransactionView;

    open spec fn view(&self) -> TransactionView {
        TransactionView {
            id: self.id@,
            parents: self.parents@.map_values(|p: TxId| p@),
            data: self.data@,
            timestamp: self.timestamp,
            shard_id: self.shard_id,
            status: self.status,
        }
    }
}

impl DeepClone for Transaction {
    fn deep_clone(&self) -> (r: Self) {
        let mut parents: Vec<TxId> = Vec::new();
        let mut i: usize = 0;
        while i < self.parents.len()
            invariant
                i <= self.parents@.len(),
                parents@.len() == i,
                forall|k: int| 0 <= k < i ==> (#[trigger] parents@[k])@ == self.parents@[k]@,
            decreases self.parents@.len() - i,
        {
            parents.push(self.parents[i].deep_clone());
            i = i + 1;
        }
        let r = Transaction {
            id: self.id.deep_clone(),
            parents,
            data: self.data.deep_clone(),
            timestamp: self.timestamp,
            shard_id: self.shard_id,
            status: self.status,
        };
        assert(r.parents@.map_values(|p: TxId| p@) =~= self.parents@.map_values(|p: TxId| p@));
        r
    }
}

/// A node of the in-memory DAG: a transaction and the transactions that build on it.
#[derive(Debug)]
pub struct DagNode {
    pub tx: Transaction,
    pub children: KeyedVec<TxId, ()>,
}

/// What a DAG node holds.
pub struct DagNodeView {
    pub tx: TransactionView,
    pub children: Set<Seq<char>>,
}

impl View for DagNode {
    type V = DagNodeView;

    open spec fn view(&self) -> DagNodeView {
        DagNodeView { tx: self.tx@, children: self.children@.dom() }
    }
}

/// The storage of a DAG: transactions by id, each with the ids of its children.
pub trait DagStorage {
    /// The stored nodes, by transaction id.
    spec fn stored(&self) -> Map<Seq<char>, DagNodeView>;

    spec fn storage_wf(&self) -> bool;

    /// The stored transaction `id`, if any.
    fn get_transaction(&self, id: &TxId) -> (r: Option<Transaction>)
        requires
            self.storage_wf(),
        ensures
            r is Some <==> self.stored().contains_key(id@),
            r matches Some(t) ==> t@ == self.stored()[id@].tx;

    /// Stores a transaction as a node with no child, replacing any node of the same id.
    fn save_transaction(&mut self, tx: Transaction)
        requires
            old(self).storage_wf(),
        ensures
            final(self).storage_wf(),
            final(self).stored() == old(self).stored().insert(
                tx.id@,
                DagNodeView { tx: tx@, children: Set::empty() },
            );

    /// The children of transaction `id`: none where it is not stored.
    fn get_children(&self, id: &TxId) -> (r: Vec<TxId>)
        requires
            self.storage_wf(),
        ensures
            self.stored().contains_key(id@) ==> r@.map_values(|c: TxId| c@).to_set() == self.stored()[id@].children,
            !self.stored().contains_key(id@) ==> r@.len() == 0;

    /// Records `child` as a child of `parent`; nothing changes where `parent` is not stored.
    fn add_child(&mut self, parent: &TxId, child: &TxId)
        requires
            old(self).storage_wf(),
        ensures
            final(self).storage_wf(),
            old(self).stored().contains_key(parent@) ==> final(self).stored() == old(self).stored().insert(
                parent@,
                DagNodeView {
                    tx: old(self).stored()[parent@].tx,
                    children: old(self).stored()[parent@].children.insert(child@),
                },
            ),
            !old(self).stored().contains_key(parent@) ==> final(self).stored() == old(self).stored();
}

/// A DAG storage held in memory.
#[derive(Debug)]
pub struct MemoryDagStorage {
    transactions: KeyedVec<TxId, DagNode>,
}

impl MemoryDagStorage {
    pub fn new() -> (r: Self)
        ensures
            r.storage_wf(),
            r.stored() == Map::<Seq<char>, DagNodeView>::empty(),
    {
        let r = MemoryDagStorage { transactions: KeyedVec::new() };
        r
    }
}

impl DagStorage for MemoryDagStorage {
    closed spec fn stored(&self) -> Map<Seq<char>, DagNodeView> {
        self.transactions@
    }

    closed spec fn storage_wf(&self) -> bool {
        &&& self.transactions.wf()
        &&& forall|i: int| 0 <= i < self.transactions.entries().len() ==> (#[trigger] self.transactions.entries()[i]).1.children.wf()
    }

    fn get_transaction(&self, id: &TxId) -> (r: Option<Transaction>) {
        match self.transactions.get(id) {
            Some(node) => Some(node.tx.deep_clone()),
            None => None,
        }
    }

    fn save_transaction(&mut self, tx: Transaction) {
        let id = tx.id.deep_clone();
        let node = DagNode { tx, children: KeyedVec::new() };
        proof {
            assert(node@.children =~= Set::<Seq<char>>::empty());
        }
        let ghost old_entries = self.transactions.entries();
        self.transactions.insert(id, node);
        proof {
            assert forall|i: int| 0 <= i < self.transactions.entries().len() implies (#[trigger] self.transactions.entries()[i]).1.children.wf() by {
                if self.transactions.entries()[i] != (id, node) {
                    let j = choose|j: int| 0 <= j < old_entries.len() && old_entries[j] == self.transactions.entries()[i];
                    assert(old_entries[j].1.children.wf());
                }
            }
        }
    }

    fn get_children(&self, id: &TxId) -> (r: Vec<TxId>) {
        match self.transactions.get(id) {
            Some(node) => {
                let entries = node.children.as_entries();
                proof {
                    let j = choose|j: int| 0 <= j < self.transactions.entries().len() && (#[trigger] self.transactions.entries()[j]).1 == *node;
                    assert(self.transactions.entries()[j].1.children.wf());
                }
                let mut out: Vec<TxId> = Vec::new();
                let mut i: usize = 0;
                while i < entries.len()
                    invariant
                        i <= entries@.len(),
                        entries@ == node.children.entries(),
                        out@.len() == i,
                        forall|k: int| 0 <= k < i ==> (#[trigger] out@[k])@ == entries@[k].0@,
                    decreases entries@.len() - i,
                {
                    out.push(entries[i].0.deep_clone());
                    i = i + 1;
                }
                proof {
                    node.children.lemma_view();
                    let keys = out@.map_values(|c: TxId| c@);
                    assert(keys.to_set() =~= node.children@.dom()) by {
                        assert forall|q: Seq<char>| keys.to_set().contains(q) <==> node.children@.dom().contains(q) by {
                            if keys.to_set().contains(q) {
                                let k = choose|k: int| 0 <= k < keys.len() && keys[k] == q;
                                assert(entries@[k].0@ == q);
                            }
                            if node.children@.dom().contains(q) {
                                let k = choose|k: int| 0 <= k < entries@.len() && (#[trigger] entries@[k]).0@ == q;
                                assert(keys[k] == q);
                            }
                        }
                    }
                }
                out
            },
            None => Vec::new(),
        }
    }

    fn add_child(&mut self, parent: &TxId, child: &TxId) {
        let ghost old_entries = self.transactions.entries();
        match self.transactions.remove(parent) {
            Some(node) => {
                let mut node = node;
                proof {
                    let j = old(self).transactions.index_of_key(parent@);
                    assert(old_entries.contains((old_entries[j].0, node)));
                    let m = choose|m: int| 0 <= m < old_entries.len() && old_entries[m] == (old_entries[j].0, node);
                    assert(old_entries[m].1.children.wf());
                }
                let ghost mid_entries = self.transactions.entries();
                node.children.insert(child.deep_clone(), ());
                proof {
                    assert(node@.children =~= old(self).stored()[parent@].children.insert(child@));
                }
                let key = parent.deep_clone();
                self.transactions.insert(key, node);
                proof {
                    assert forall|i: int| 0 <= i < self.transactions.entries().len() implies (#[trigger] self.transactions.entries()[i]).1.children.wf() by {
                        if self.transactions.entries()[i] != (key, node) {
                            let j = choose|j: int| 0 <= j < mid_entries.len() && mid_entries[j] == self.transactions.entries()[i];
                            let m = choose|m: int| 0 <= m < old_entries.len() && old_entries[m] == mid_entries[j];
                            assert(old_entries[m].1.children.wf());
                        }
                    }
                    assert(self.stored() =~= old(self).stored().insert(
                        parent@,
                        DagNodeView {
                            tx: old(self).stored()[parent@].tx,
                            children: old(self).stored()[parent@].children.insert(child@),
                        },
                    ));
                }
            },
            None => {
                proof {
                    assert forall|i: int| 0 <= i < self.transactions.entries().len() implies (#[trigger] self.transactions.entries()[i]).1.children.wf() by {
                        let m = choose|m: int| 0 <= m < old_entries.len() && old_entries[m] == self.transactions.entries()[i];
                        assert(old_entries[m].1.children.wf());
                    }
                }
            },
        }
    }
}

/// Errors of the DAG manager.
#[derive(Debug)]
pub enum DagError {
    /// A parent of the transaction is not stored.
    ParentNotFound(TxId),
}

/// The DAG manager: adds transactions whose parents are all stored, and links them to their parents.
pub struct DagManager<S> {
    storage: S,
}

impl<S: DagStorage> DagManager<S> {
    pub fn new(storage: S) -> (r: Self)
        ensures
            r.storage_of() == storage,
    {
        DagManager { storage }
    }

    /// The storage of the manager.
    pub closed spec fn storage_of(&self) -> S {
        self.storage
    }

    /// Adds a transaction: fails if a parent is not stored; otherwise stores the transaction
    /// and records it as a child of each parent.
    pub fn add_transaction(&mut self, tx: Transaction) -> (r: Result<(), DagError>)
        requires
            old(self).storage_of().storage_wf(),
        ensures
            final(self).storage_of().storage_wf(),
            r is Ok <==> forall|k: int| 0 <= k < tx.parents@.len() ==> old(self).storage_of().stored().contains_key(#[trigger] tx.parents@[k]@),
            r is Err ==> final(self).storage_of().stored() == old(self).storage_of().stored(),
            r is Ok ==> final(self).storage_of().stored().contains_key(tx.id@),
            r is Ok ==> final(self).storage_of().stored()[tx.id@].tx == tx@,
            r is Ok ==> forall|k: int| 0 <= k < tx.parents@.len() && (#[trigger] tx.parents@[k])@ != tx.id@ ==> final(self).storage_of().stored()[tx.parents@[k]@].children.contains(tx.id@),
    {
        let n = tx.parents.len();
        let mut i: usize = 0;
        while i < n
            invariant
                self.storage.storage_wf(),
                self.storage == old(self).storage,
                n == tx.parents@.len(),
                i <= n,
                forall|k: int| 0 <= k < i ==> self.storage.stored().contains_key(#[trigger] tx.parents@[k]@),
            decreases n - i,
        {
            if self.storage.get_transaction(&tx.parents[i]).is_none() {
                return Err(DagError::ParentNotFound(tx.parents[i].deep_clone()));
            }
            i = i + 1;
        }
        let id = tx.id.deep_clone();
        let ghost txv = tx@;
        let ghost tx_parents = tx.parents@;
        let parents: Vec<TxId> = {
            let mut p: Vec<TxId> = Vec::new();
            let mut j: usize = 0;
            while j < n
                invariant
                    j <= n,
                    n == tx.parents@.len(),
                    p@.len() == j,
                    forall|k: int| 0 <= k < j ==> (#[trigger] p@[k])@ == tx.parents@[k]@,
                decreases n - j,
            {
                p.push(tx.parents[j].deep_clone());
                j = j + 1;
            }
            p
        };
        self.storage.save_transaction(tx);
        let mut i: usize = 0;
        while i < n
            invariant
                self.storage.storage_wf(),
                i <= n,
                n == parents@.len(),
                id@ == txv.id,
                forall|k: int| 0 <= k < n ==> (#[trigger] parents@[k])@ == txv.parents[k],
                txv.parents.len() == n,
                self.storage.stored().contains_key(id@),
                self.storage.stored()[id@].tx == txv,
                forall|k: int| 0 <= k < n ==> self.storage.stored().contains_key(#[trigger] parents@[k]@),
                forall|k: int| 0 <= k < i && (#[trigger] parents@[k])@ != id@ ==> self.storage.stored()[parents@[k]@].children.contains(id@),
            decreases n - i,
        {
            self.storage.add_child(&parents[i], &id);
            i = i + 1;
        }
        proof {
            assert forall|k: int| 0 <= k < tx_parents.len() && (#[trigger] tx_parents[k])@ != id@ implies self.storage.stored()[tx_parents[k]@].children.contains(id@) by {
                assert(txv.parents[k] == tx_parents[k]@);
                assert(parents@[k]@ == txv.parents[k]);
            }
        }
        Ok(())
    }
}

/// The manager of the shard-level DAG, over a byte storage; its operations do nothing yet.
pub struct DAGManager<S> {
    _storage: S,
}

impl<S> DAGManager<S> {
    /// The storage of the manager.
    pub closed spec fn storage_of(&self) -> S {
        self._storage
    }

    /// A manager over `storage`.
    pub fn new(storage: S) -> (r: Self)
        ensures
            r.storage_of() == storage,
    {
        DAGManager { _storage: storage }
    }

    /// Adds a transaction; nothing is stored yet.
    pub fn add_transaction(&self, _tx: &[u8]) -> (r: Result<(), ()>)
        ensures
            r is Ok,
    {
        Ok(())
    }

    /// Looks a transaction up; none is found yet.
    pub fn get_transaction(&self, _tx_hash: &[u8]) -> (r: Result<Option<Vec<u8>>, ()>)
        ensures
            r matches Ok(None),
    {
        Ok(None)
    }

    /// The tips of the DAG; none yet.
    pub fn get_tips(&self) -> (r: Result<Vec<Vec<u8>>, ()>)
        ensures
            r matches Ok(v) && v@.len() == 0,
    {
        Ok(Vec::new())
    }

    /// Validates a transaction; every transaction passes yet.
    pub fn validate_transaction(&self, _tx: &[u8]) -> (r: Result<bool, ()>)
        ensures
            r matches Ok(true),
    {
        Ok(true)
    }
}

} // verus!
