use vstd::prelude::*;
use crate::keyed::{KeyEq, DeepClone, KeyedVec};
use crate::node::dag::{Transaction, TransactionView, TxId};
use crate::node::sharding::ShardId;

verus! {

/// A transaction as a shard holds it, with optional shard-specific data.
#[derive(Debug)]
pub struct ShardTransaction {
    pub tx: Transaction,
    pub shard_data: Option<Vec<u8>>,
}

/// What a shard transaction holds.
pub struct ShardTransactionView {
    pub tx: TransactionView,
    pub shard_data: Option<Seq<u8>>,
}

impl View for ShardTransaction {
    type V = ShardTransactionView;

    open spec fn view(&self) -> ShardTransactionView {
        ShardTransactionView {
            tx: self.tx@,
            shard_data: match self.shard_data {
                Some(d) => Some(d@),
                None => None,
            },
        }
    }
}

impl DeepClone for ShardTransaction {
    fn deep_clone(&self) -> (r: Self) {
        let shard_data = match &self.shard_data {
            Some(d) => Some(d.deep_clone()),
            None => None,
        };
        ShardTransaction { tx: self.tx.deep_clone(), shard_data }
    }
}

impl ShardTransaction {
    /// A shard transaction with no shard-specific data.
    pub fn new(tx: Transaction) -> (r: Self)
        ensures
            r.tx == tx,
            r.shard_data is None,
    {
        ShardTransaction { tx, shard_data: None }
    }

    /// The same transaction with `data` as its shard-specific data.
    pub fn with_shard_data(self, data: Vec<u8>) -> (r: Self)
        ensures
            r.tx == self.tx,
            r.shard_data == Some(data),
    {
        ShardTransaction { tx: self.tx, shard_data: Some(data) }
    }
}

/// Why a shard refused a transaction.
#[derive(Debug)]
pub enum ShardStateError {
    /// The transaction was already processed by the shard.
    AlreadyExists,
    /// A transaction it depends on is not committed in the shard.
    DependencyNotFound(TxId),
    /// The transaction is not prepared.
    NotPrepared,
}

/// The state of a shard: processed, prepared and committed transactions, and metadata.
#[derive(Debug)]
pub struct ShardState {
    pub id: ShardId,
    pub transactions: KeyedVec<TxId, ShardTransaction>,
    pub prepared_transactions: KeyedVec<TxId, ShardTransaction>,
    pub committed_transactions: KeyedVec<TxId, ShardTransaction>,
    pub metadata: KeyedVec<String, Vec<u8>>,
}

/// Whether a shard accepts `tx`: not processed before, and every parent committed.
pub open spec fn admissible(s: ShardState, tx: TransactionView) -> bool {
    &&& !s.transactions@.contains_key(tx.id)
    &&& forall|k: int| 0 <= k < tx.parents.len() ==> s.committed_transactions@.contains_key(#[trigger] tx.parents[k])
}

impl ShardState {
    pub open spec fn wf(&self) -> bool {
        &&& self.transactions.wf()
        &&& self.prepared_transactions.wf()
        &&& self.committed_transactions.wf()
        &&& self.metadata.wf()
    }

    /// An empty shard state.
    pub fn new(id: ShardId) -> (r: Self)
        ensures
            r.wf(),
            r.id == id,
            r.transactions@ == Map::<Seq<char>, ShardTransactionView>::empty(),
            r.prepared_transactions@ == Map::<Seq<char>, ShardTransactionView>::empty(),
            r.committed_transactions@ == Map::<Seq<char>, ShardTransactionView>::empty(),
            r.committed_transactions.entries().len() == 0,
            r.metadata@ == Map::<Seq<char>, Seq<u8>>::empty(),
    {
        ShardState {
            id,
            transactions: KeyedVec::new(),
            prepared_transactions: KeyedVec::new(),
            committed_transactions: KeyedVec::new(),
            metadata: KeyedVec::new(),
        }
    }

    /// Checks that the shard accepts `tx`.
    fn validate_transaction(&self, tx: &ShardTransaction) -> (r: Result<(), ShardStateError>)
        requires
            self.wf(),
        ensures
            r is Ok <==> admissible(*self, tx.tx@),
            r matches Err(e) ==> (e is AlreadyExists <==> self.transactions@.contains_key(tx.tx.id@)),
    {
        if self.transactions.get(&tx.tx.id).is_some() {
            return Err(ShardStateError::AlreadyExists);
        }
        let n = tx.tx.parents.len();
        let mut i: usize = 0;
        while i < n
            invariant
                self.wf(),
                n == tx.tx.parents@.len(),
                i <= n,
                !self.transactions@.contains_key(tx.tx.id@),
                forall|k: int| 0 <= k < i ==> self.committed_transactions@.contains_key(#[trigger] tx.tx@.parents[k]),
            decreases n - i,
        {
            if self.committed_transactions.get(&tx.tx.parents[i]).is_none() {
                proof {
                    assert(tx.tx@.parents[i as int] == tx.tx.parents@[i as int]@);
                }
                return Err(ShardStateError::DependencyNotFound(tx.tx.parents[i].deep_clone()));
            }
            proof {
                assert(tx.tx@.parents[i as int] == tx.tx.parents@[i as int]@);
            }
            i = i + 1;
        }
        Ok(())
    }

    /// Processes a transaction: it is validated (not processed before, every parent committed),
    /// recorded as processed, executed, and committed; a prepared copy, if any, leaves the
    /// prepared set. A transaction that is not admissible is refused and changes nothing.
    pub fn process_transaction(&mut self, tx: ShardTransaction) -> (r: Result<(), ShardStateError>)
        requires
            old(self).wf(),
        ensures
            final(self).wf(),
            final(self).id == old(self).id,
            final(self).metadata@ == old(self).metadata@,
            !admissible(*old(self), tx.tx@) ==> r is Err && final(self).transactions@ == old(self).transactions@
                && final(self).prepared_transactions@ == old(self).prepared_transactions@
                && final(self).committed_transactions@ == old(self).committed_transactions@,
            !admissible(*old(self), tx.tx@) ==> (r matches Err(e) && (e is AlreadyExists
                <==> old(self).transactions@.contains_key(tx.tx.id@))),
            admissible(*old(self), tx.tx@) ==> {
                &&& r is Ok
                &&& final(self).transactions@ == old(self).transactions@.insert(tx.tx.id@, tx@)
                &&& final(self).committed_transactions@ == old(self).committed_transactions@.insert(tx.tx.id@, tx@)
                &&& final(self).prepared_transactions@ == old(self).prepared_transactions@.remove(tx.tx.id@)
                &&& !final(self).prepared_transactions@.contains_key(tx.tx.id@)
            },
    {
        self.validate_transaction(&tx)?;
        let id = tx.tx.id.deep_clone();
        let copy = tx.deep_clone();
        self.transactions.insert(id, copy);
        let _ = self.prepared_transactions.remove(&tx.tx.id);
        let id = tx.tx.id.deep_clone();
        let copy = tx.deep_clone();
        self.committed_transactions.insert(id, copy);
        Ok(())
    }

    /// Prepares an admissible transaction.
    pub fn prepare_transaction(&mut self, tx: &ShardTransaction) -> (r: Result<(), ShardStateError>)
        requires
            old(self).wf(),
        ensures
            final(self).wf(),
            final(self).id == old(self).id,
            r is Ok <==> admissible(*old(self), tx.tx@),
            r is Ok ==> final(self).prepared_transactions@ == old(self).prepared_transactions@.insert(tx.tx.id@, tx@),
            r is Err ==> final(self).prepared_transactions@ == old(self).prepared_transactions@,
            final(self).transactions@ == old(self).transactions@,
            final(self).committed_transactions@ == old(self).committed_transactions@,
            final(self).metadata@ == old(self).metadata@,
    {
        self.validate_transaction(tx)?;
        let id = tx.tx.id.deep_clone();
        let copy = tx.deep_clone();
        self.prepared_transactions.insert(id, copy);
        Ok(())
    }

    /// Commits a prepared transaction: it leaves the prepared set and joins the committed one.
    pub fn commit_transaction(&mut self, tx: &ShardTransaction) -> (r: Result<(), ShardStateError>)
        requires
            old(self).wf(),
        ensures
            final(self).wf(),
            final(self).id == old(self).id,
            r is Ok <==> old(self).prepared_transactions@.contains_key(tx.tx.id@),
            r is Err ==> r matches Err(ShardStateError::NotPrepared),
            r is Ok ==> final(self).prepared_transactions@ == old(self).prepared_transactions@.remove(tx.tx.id@),
            r is Ok ==> final(self).committed_transactions@ == old(self).committed_transactions@.insert(tx.tx.id@, tx@),
            r is Err ==> final(self).prepared_transactions@ == old(self).prepared_transactions@
                && final(self).committed_transactions@ == old(self).committed_transactions@,
            final(self).transactions@ == old(self).transactions@,
            final(self).metadata@ == old(self).metadata@,
    {
        if self.prepared_transactions.get(&tx.tx.id).is_none() {
            return Err(ShardStateError::NotPrepared);
        }
        let _ = self.prepared_transactions.remove(&tx.tx.id);
        let id = tx.tx.id.deep_clone();
        let copy = tx.deep_clone();
        self.committed_transactions.insert(id, copy);
        Ok(())
    }

    /// Rolls a prepared transaction back: it leaves the prepared set.
    pub fn rollback_transaction(&mut self, tx_id: &TxId) -> (r: Result<(), ShardStateError>)
        requires
            old(self).wf(),
        ensures
            final(self).wf(),
            final(self).id == old(self).id,
            r is Ok <==> old(self).prepared_transactions@.contains_key(tx_id@),
            r is Err ==> r matches Err(ShardStateError::NotPrepared),
            final(self).prepared_transactions@ == old(self).prepared_transactions@.remove(tx_id@),
            final(self).transactions@ == old(self).transactions@,
            final(self).committed_transactions@ == old(self).committed_transactions@,
            final(self).metadata@ == old(self).metadata@,
    {
        if self.prepared_transactions.get(tx_id).is_none() {
            proof {
                assert(self.prepared_transactions@ =~= self.prepared_transactions@.remove(tx_id@));
            }
            return Err(ShardStateError::NotPrepared);
        }
        let _ = self.prepared_transactions.remove(tx_id);
        Ok(())
    }

    /// Sets the metadata entry `key`.
    pub fn set_metadata(&mut self, key: String, value: Vec<u8>)
        requires
            old(self).wf(),
        ensures
            final(self).wf(),
            final(self).metadata@ == old(self).metadata@.insert(key@, value@),
            final(self).id == old(self).id,
            final(self).transactions@ == old(self).transactions@,
            final(self).prepared_transactions@ == old(self).prepared_transactions@,
            final(self).committed_transactions@ == old(self).committed_transactions@,
    {
        self.metadata.insert(key, value);
    }

    /// The metadata entry `key`, if any.
    pub fn get_metadata(&self, key: &str) -> (r: Option<&Vec<u8>>)
        requires
            self.wf(),
        ensures
            r is Some <==> self.metadata@.contains_key(key@),
            r matches Some(v) ==> v@ == self.metadata@[key@],
    {
        let k = key.to_owned();
        self.metadata.get(&k)
    }

    /// The number of committed transactions.
    pub fn transaction_count(&self) -> (n: usize)
        requires
            self.wf(),
        ensures
            n == self.committed_transactions@.dom().len(),
    {
        self.committed_transactions.len()
    }

    /// The number of prepared transactions.
    pub fn prepared_transaction_count(&self) -> (n: usize)
        requires
            self.wf(),
        ensures
            n == self.prepared_transactions@.dom().len(),
    {
        self.prepared_transactions.len()
    }

    /// Merges another state into this one; the other state's entries win.
    pub fn merge(&mut self, other: &ShardState)
        requires
            old(self).wf(),
            other.wf(),
        ensures
            final(self).wf(),
            final(self).id == old(self).id,
            final(self).transactions@ == old(self).transactions@.union_prefer_right(other.transactions@),
            final(self).prepared_transactions@ == old(self).prepared_transactions@.union_prefer_right(other.prepared_transactions@),
            final(self).committed_transactions@ == old(self).committed_transactions@.union_prefer_right(other.committed_transactions@),
            final(self).metadata@ == old(self).metadata@.union_prefer_right(other.metadata@),
    {
        self.transactions.extend_from(&other.transactions);
        self.prepared_transactions.extend_from(&other.prepared_transactions);
        self.committed_transactions.extend_from(&other.committed_transactions);
        self.metadata.extend_from(&other.metadata);
    }
}

impl ShardState {
    /// Splits the committed transactions over two new shards (ids 0 and 1), alternately in the
    /// order they are held; the first new shard takes the first, third, ... of them.
    pub fn split(&mut self) -> (r: (ShardState, ShardState))
        requires
            old(self).wf(),
        ensures
            *final(self) == *old(self),
            r.0.wf() && r.1.wf(),
            r.0.id == 0 && r.1.id == 1,
            r.0.transactions@.len() == 0 && r.1.transactions@.len() == 0,
            r.0.prepared_transactions@.len() == 0 && r.1.prepared_transactions@.len() == 0,
            r.0.metadata@.len() == 0 && r.1.metadata@.len() == 0,
            forall|q: Seq<char>| #[trigger] old(self).committed_transactions@.contains_key(q) <==> (r.0.committed_transactions@.contains_key(q) || r.1.committed_transactions@.contains_key(q)),
            forall|q: Seq<char>| !(#[trigger] r.0.committed_transactions@.contains_key(q) && r.1.committed_transactions@.contains_key(q)),
            forall|q: Seq<char>| #[trigger] r.0.committed_transactions@.contains_key(q) ==> r.0.committed_transactions@[q] == old(self).committed_transactions@[q],
            forall|q: Seq<char>| #[trigger] r.1.committed_transactions@.contains_key(q) ==> r.1.committed_transactions@[q] == old(self).committed_transactions@[q],
            r.0.committed_transactions@.dom().len() + r.1.committed_transactions@.dom().len()
                == old(self).committed_transactions@.dom().len(),
            r.0.committed_transactions@.dom().len() == r.1.committed_transactions@.dom().len()
                || r.0.committed_transactions@.dom().len() == r.1.committed_transactions@.dom().len() + 1,
    {
        let mut s1 = ShardState::new(0);
        let mut s2 = ShardState::new(1);
        let entries = self.committed_transactions.as_entries();
        proof {
            self.committed_transactions.lemma_unique();
            self.committed_transactions.lemma_view();
        }
        let n = entries.len();
        let mut i: usize = 0;
        while i < n
            invariant
                s1.wf() && s2.wf(),
                s1.id == 0 && s2.id == 1,
                s1.transactions@.len() == 0 && s2.transactions@.len() == 0,
                s1.prepared_transactions@.len() == 0 && s2.prepared_transactions@.len() == 0,
                s1.metadata@.len() == 0 && s2.metadata@.len() == 0,
                n == entries@.len(),
                entries@ == self.committed_transactions.entries(),
                crate::keyed::unique_keys(entries@),
                i <= n,
                forall|j: int| 0 <= j < i && j % 2 == 0 ==> s1.committed_transactions@.contains_key((#[trigger] entries@[j]).0@)
                    && s1.committed_transactions@[entries@[j].0@] == entries@[j].1@,
                forall|j: int| 0 <= j < i && j % 2 == 1 ==> s2.committed_transactions@.contains_key((#[trigger] entries@[j]).0@)
                    && s2.committed_transactions@[entries@[j].0@] == entries@[j].1@,
                forall|q: Seq<char>| #[trigger] s1.committed_transactions@.contains_key(q) ==> exists|j: int| 0 <= j < i && j % 2 == 0 && (#[trigger] entries@[j]).0@ == q,
                forall|q: Seq<char>| #[trigger] s2.committed_transactions@.contains_key(q) ==> exists|j: int| 0 <= j < i && j % 2 == 1 && (#[trigger] entries@[j]).0@ == q,
                s1.committed_transactions.entries().len() == (i + 1) / 2,
                s2.committed_transactions.entries().len() == i / 2,
            decreases n - i,
        {
            proof {
                let k = entries@[i as int].0@;
                if s1.committed_transactions@.contains_key(k) {
                    let j = choose|j: int| 0 <= j < i && j % 2 == 0 && (#[trigger] entries@[j]).0@ == k;
                    assert(entries@[j].0@ != entries@[i as int].0@);
                }
                if s2.committed_transactions@.contains_key(k) {
                    let j = choose|j: int| 0 <= j < i && j % 2 == 1 && (#[trigger] entries@[j]).0@ == k;
                    assert(entries@[j].0@ != entries@[i as int].0@);
                }
            }
            let id = entries[i].0.deep_clone();
            let copy = entries[i].1.deep_clone();
            if i % 2 == 0 {
                s1.committed_transactions.insert(id, copy);
            } else {
                s2.committed_transactions.insert(id, copy);
            }
            proof {
                assert forall|j: int| 0 <= j < i + 1 && j % 2 == 0 implies s1.committed_transactions@.contains_key((#[trigger] entries@[j]).0@)
                    && s1.committed_transactions@[entries@[j].0@] == entries@[j].1@ by {
                    if j < i && i % 2 == 0 {
                        assert(entries@[j].0@ != entries@[i as int].0@);
                    }
                }
                assert forall|j: int| 0 <= j < i + 1 && j % 2 == 1 implies s2.committed_transactions@.contains_key((#[trigger] entries@[j]).0@)
                    && s2.committed_transactions@[entries@[j].0@] == entries@[j].1@ by {
                    if j < i && i % 2 == 1 {
                        assert(entries@[j].0@ != entries@[i as int].0@);
                    }
                }
                assert forall|q: Seq<char>| #[trigger] s1.committed_transactions@.contains_key(q) implies exists|j: int| 0 <= j < i + 1 && j % 2 == 0 && (#[trigger] entries@[j]).0@ == q by {
                    if i % 2 == 0 && q == entries@[i as int].0@ {
                        assert(entries@[i as int].0@ == q);
                    }
                }
                assert forall|q: Seq<char>| #[trigger] s2.committed_transactions@.contains_key(q) implies exists|j: int| 0 <= j < i + 1 && j % 2 == 1 && (#[trigger] entries@[j]).0@ == q by {
                    if i % 2 == 1 && q == entries@[i as int].0@ {
                        assert(entries@[i as int].0@ == q);
                    }
                }
            }
            i = i + 1;
        }
        proof {
            s1.committed_transactions.lemma_len();
            s2.committed_transactions.lemma_len();
            self.committed_transactions.lemma_len();
            assert forall|q: Seq<char>| #[trigger] self.committed_transactions@.contains_key(q) <==> (s1.committed_transactions@.contains_key(q) || s2.committed_transactions@.contains_key(q)) by {
                if self.committed_transactions@.contains_key(q) {
                    let j = choose|j: int| 0 <= j < entries@.len() && (#[trigger] entries@[j]).0@ == q;
                    if j % 2 == 0 {
                        assert(s1.committed_transactions@.contains_key(entries@[j].0@));
                    } else {
                        assert(s2.committed_transactions@.contains_key(entries@[j].0@));
                    }
                }
                if s1.committed_transactions@.contains_key(q) {
                    let j = choose|j: int| 0 <= j < n && j % 2 == 0 && (#[trigger] entries@[j]).0@ == q;
                    assert(crate::keyed::has_key(entries@, q));
                }
                if s2.committed_transactions@.contains_key(q) {
                    let j = choose|j: int| 0 <= j < n && j % 2 == 1 && (#[trigger] entries@[j]).0@ == q;
                    assert(crate::keyed::has_key(entries@, q));
                }
            }
            assert forall|q: Seq<char>| !(#[trigger] s1.committed_transactions@.contains_key(q) && s2.committed_transactions@.contains_key(q)) by {
                if s1.committed_transactions@.contains_key(q) && s2.committed_transactions@.contains_key(q) {
                    let a = choose|j: int| 0 <= j < n && j % 2 == 0 && (#[trigger] entries@[j]).0@ == q;
                    let b = choose|j: int| 0 <= j < n && j % 2 == 1 && (#[trigger] entries@[j]).0@ == q;
                    assert(entries@[a].0@ != entries@[b].0@);
                }
            }
            assert forall|q: Seq<char>| #[trigger] s1.committed_transactions@.contains_key(q) implies s1.committed_transactions@[q] == self.committed_transactions@[q] by {
                let j = choose|j: int| 0 <= j < n && j % 2 == 0 && (#[trigger] entries@[j]).0@ == q;
                assert(self.committed_transactions@[entries@[j].0@] == entries@[j].1@);
            }
            assert forall|q: Seq<char>| #[trigger] s2.committed_transactions@.contains_key(q) implies s2.committed_transactions@[q] == self.committed_transactions@[q] by {
                let j = choose|j: int| 0 <= j < n && j % 2 == 1 && (#[trigger] entries@[j]).0@ == q;
                assert(self.committed_transactions@[entries@[j].0@] == entries@[j].1@);
            }
        }
        (s1, s2)
    }
}

/// A prepared transaction commits, and then is committed and no longer prepared.
pub proof fn law_prepare_then_commit(s: Map<Seq<char>, ShardTransactionView>, c: Map<Seq<char>, ShardTransactionView>, id: Seq<char>, t: ShardTransactionView)
    ensures
        s.insert(id, t).contains_key(id),
        !s.insert(id, t).remove(id).contains_key(id),
        c.insert(id, t)[id] == t,
{
}

/// Preparing a transaction that was not prepared and rolling it back leaves the prepared set as it was.
pub proof fn law_prepare_then_rollback(s: Map<Seq<char>, ShardTransactionView>, id: Seq<char>, t: ShardTransactionView)
    requires
        !s.contains_key(id),
    ensures
        s.insert(id, t).remove(id) == s,
{
    assert(s.insert(id, t).remove(id) =~= s);
}

} // verus!
