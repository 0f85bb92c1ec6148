use vstd::prelude::*;
use vstd::utf8::encode_utf8;
use vstd::string::StringSliceAdditionalSpecFns;
use crate::keyed::{has_key, DeepClone, KeyEq, KeyedVec};
use crate::node::dag::{Transaction, TransactionView, TxId};
use crate::node::two_phase::{start_state, CommitOutcome, TwoPhaseCommit};

verus! {

/// Identifier of a shard.
#[derive(Debug, Clone, Copy, Hash, PartialEq, Eq)]
pub struct ShardId(pub u64);

impl View for ShardId {
    type V = u64;

    open spec fn view(&self) -> u64 {
        self.0
    }
}

impl KeyEq for ShardId {
    fn key_eq(&self, other: &Self) -> (r: bool) {
        self.0 == other.0
    }
}

impl DeepClone for ShardId {
    fn deep_clone(&self) -> (r: Self) {
        *self
    }
}

/// Where a cross-shard transaction stands.
#[derive(Debug, Clone, Copy, PartialEq, Eq)]
pub enum CrossShardTxStatus {
    Pending,
    PartiallyCommitted,
    Committed,
    Failed,
}

/// The state of one shard: the transactions assigned to it, its state root, and when it last
/// changed (nanoseconds since the Unix epoch).
#[derive(Debug)]
pub struct ShardState {
    pub id: ShardId,
    pub transactions: KeyedVec<TxId, ()>,
    pub state_root: Vec<u8>,
    pub last_updated: i64,
}

/// What a shard state holds.
pub struct ShardStateView {
    pub id: u64,
    pub transactions: Set<Seq<char>>,
    pub state_root: Seq<u8>,
    pub last_updated: i64,
}

impl View for ShardState {
    type V = ShardStateView;

    open spec fn view(&self) -> ShardStateView {
        ShardStateView {
            id: self.id.0,
            transactions: self.transactions@.dom(),
            state_root: self.state_root@,
            last_updated: self.last_updated,
        }
    }
}

impl ShardState {
    /// Whether the transaction set is well formed.
    pub open spec fn wf(&self) -> bool {
        self.transactions.wf()
    }

    /// An empty shard state stamped `now`.
    pub fn empty(id: ShardId, now: i64) -> (r: Self)
        ensures
            r.wf(),
            r@ == (ShardStateView {
                id: id.0,
                transactions: Set::empty(),
                state_root: Seq::empty(),
                last_updated: now,
            }),
    {
        let r = ShardState { id, transactions: KeyedVec::new(), state_root: Vec::new(), last_updated: now };
        assert(r.transactions@.dom() =~= Set::<Seq<char>>::empty());
        r
    }
}

/// A transaction that spans shards: it starts at `source_shard` and must commit on every one
/// of `target_shards`.
#[derive(Debug)]
pub struct CrossShardTx {
    pub tx: Transaction,
    pub source_shard: ShardId,
    pub target_shards: Vec<ShardId>,
    pub status: CrossShardTxStatus,
}

/// What a cross-shard transaction holds.
pub struct CrossShardTxView {
    pub tx: TransactionView,
    pub source_shard: u64,
    pub target_shards: Seq<u64>,
    pub status: CrossShardTxStatus,
}

impl View for CrossShardTx {
    type V = CrossShardTxView;

    open spec fn view(&self) -> CrossShardTxView {
        CrossShardTxView {
            tx: self.tx@,
            source_shard: self.source_shard.0,
            target_shards: self.target_shards@.map_values(|s: ShardId| s.0),
            status: self.status,
        }
    }
}

/// Why the shard manager refused a request.
#[derive(Debug, Clone, Copy, PartialEq, Eq)]
pub enum ShardError {
    /// A shard with this id exists already.
    ShardExists(ShardId),
    /// No shard has this id.
    ShardNotFound(ShardId),
}

/// The shard a transaction goes to: the first byte of its id (as UTF-8) modulo 4.
pub open spec fn shard_for(id: Seq<char>) -> u64 {
    (encode_utf8(id)[0] % 4) as u64
}

/// A transaction goes to the shard of the first byte of its id modulo 4: one of the four
/// shards 0 to 3.
pub proof fn law_shard_is_first_byte_mod_4(id: Seq<char>)
    requires
        id.len() > 0,
    ensures
        shard_for(id) as int == encode_utf8(id)[0] as int % 4,
        shard_for(id) < 4,
{
}

/// An id that starts with an ASCII character `c` goes to shard `c % 4` (so "c1", with 'c' = 99,
/// goes to shard 3).
pub proof fn law_ascii_id_shard(id: Seq<char>)
    requires
        id.len() > 0,
        (id[0] as u32) < 128,
    ensures
        shard_for(id) as int == (id[0] as u32) as int % 4,
{
    let c = id[0] as u32;
    assert(encode_utf8(id) == vstd::utf8::encode_scalar(c) + encode_utf8(id.drop_first()));
    assert((c & 0x7F) as u8 == c) by (bit_vector)
        requires
            c < 128,
    ;
    assert(encode_utf8(id)[0] == c as u8);
}

/// Every one of the four shards 0 to 3 has ids that go to it.
pub proof fn law_every_shard_reachable(k: u64)
    requires
        k < 4,
    ensures
        exists|id: Seq<char>| id.len() > 0 && #[trigger] shard_for(id) == k,
{
    let id = if k == 0 {
        seq!['0']
    } else if k == 1 {
        seq!['1']
    } else if k == 2 {
        seq!['2']
    } else {
        seq!['3']
    };
    law_ascii_id_shard(id);
    assert(shard_for(id) == k);
}

/// Whether `after` is `before` with the transactions `moved` taken from shard `from` and
/// added to shard `to`, both stamped `now`.
pub open spec fn migrated(
    before: Map<u64, ShardStateView>,
    after: Map<u64, ShardStateView>,
    from: u64,
    to: u64,
    moved: Set<Seq<char>>,
    now: i64,
) -> bool {
    &&& moved.finite()
    &&& moved.subset_of(before[from].transactions)
    &&& after == before.insert(
        from,
        ShardStateView {
            transactions: before[from].transactions.difference(moved),
            last_updated: now,
            ..before[from]
        },
    ).insert(
        to,
        ShardStateView {
            transactions: before[to].transactions.union(moved),
            last_updated: now,
            ..before[to]
        },
    )
}

/// The number of transactions of shard `k`.
pub open spec fn load(m: Map<u64, ShardStateView>, k: u64) -> nat {
    m[k].transactions.len()
}

/// Whether a rebalancing pass moves transactions between a shard of load `a` and one of load
/// `b`: the second holds at least two more, and a quarter of it is at least one.
pub open spec fn moves(a: nat, b: nat) -> bool {
    b > a + 1 && b / 4 > 0
}

/// The loads of the two shards after rebalancing, where the two hold no transaction in
/// common: a quarter of the heavier is moved to the lighter while that moves anything.
pub open spec fn rebalance_loads(a: nat, b: nat) -> (nat, nat)
    decreases b,
{
    if moves(a, b) {
        rebalance_loads(a + b / 4, (b - b / 4) as nat)
    } else {
        (a, b)
    }
}

/// Whether `after` rebalances `before` between a least loaded shard `a` and a most loaded
/// shard `b`, stamped `now`: only these two change; `a` only gains and `b` only loses, the two
/// together keep their transactions; the pass stops where no further move is due, and, where
/// the two shared no transaction, the loads end as `rebalance_loads` says.
pub open spec fn rebalanced(
    before: Map<u64, ShardStateView>,
    after: Map<u64, ShardStateView>,
    a: u64,
    b: u64,
    now: i64,
) -> bool {
    let ta = before[a].transactions;
    let tb = before[b].transactions;
    let ua = after[a].transactions;
    let ub = after[b].transactions;
    &&& a != b
    &&& before.contains_key(a)
    &&& before.contains_key(b)
    &&& forall|k: u64| #[trigger]
        before.contains_key(k) ==> load(before, a) <= load(before, k) <= load(before, b)
    &&& after.dom() == before.dom()
    &&& forall|k: u64| #[trigger]
        before.contains_key(k) && k != a && k != b ==> after[k] == before[k]
    &&& ta.subset_of(ua)
    &&& ub.subset_of(tb)
    &&& ua + ub == ta + tb
    &&& after[a].id == before[a].id && after[a].state_root == before[a].state_root
    &&& after[b].id == before[b].id && after[b].state_root == before[b].state_root
    &&& !moves(ua.len(), ub.len())
    &&& ta.disjoint(tb) ==> (ua.len(), ub.len()) == rebalance_loads(ta.len(), tb.len())
    &&& if moves(ta.len(), tb.len()) {
        after[a].last_updated == now && after[b].last_updated == now
    } else {
        after == before
    }
}

/// Whether no transaction is held by two shards.
pub open spec fn pairwise_disjoint(m: Map<u64, ShardStateView>) -> bool {
    forall|i: u64, j: u64|
        #![trigger m[i], m[j]]
        m.contains_key(i) && m.contains_key(j) && i != j ==> m[i].transactions.disjoint(m[j].transactions)
}

/// Every transaction held by some shard.
pub open spec fn all_transactions(m: Map<u64, ShardStateView>) -> Set<Seq<char>> {
    Set::new(|t: Seq<char>| exists|k: u64| m.contains_key(k) && #[trigger] m[k].transactions.contains(t))
}

/// Rebalancing moves transactions and loses none: the two loads keep their sum.
pub proof fn lemma_rebalance_loads_sum(a: nat, b: nat)
    ensures
        rebalance_loads(a, b).0 + rebalance_loads(a, b).1 == a + b,
    decreases b,
{
    if moves(a, b) {
        lemma_rebalance_loads_sum(a + b / 4, (b - b / 4) as nat);
    }
}

/// Rebalancing keeps the shards a partition: where no transaction was held by two shards,
/// none is afterwards, and the shards together hold the same transactions as before.
pub proof fn lemma_rebalance_keeps_partition(
    before: Map<u64, ShardStateView>,
    after: Map<u64, ShardStateView>,
    a: u64,
    b: u64,
    now: i64,
)
    requires
        rebalanced(before, after, a, b, now),
        pairwise_disjoint(before),
        forall|k: u64| #[trigger] before.contains_key(k) ==> before[k].transactions.finite(),
    ensures
        pairwise_disjoint(after),
        all_transactions(after) == all_transactions(before),
{
    let ta = before[a].transactions;
    let tb = before[b].transactions;
    let ua = after[a].transactions;
    let ub = after[b].transactions;
    assert(ta.disjoint(tb)) by {
        assert(before[a] == before[a] && before[b] == before[b]);
    }
    assert(ua.finite() && ub.finite()) by {
        assert(ua.subset_of(ta + tb));
        assert(ub.subset_of(ta + tb));
        vstd::set_lib::lemma_len_subset(ua, ta + tb);
        vstd::set_lib::lemma_len_subset(ub, ta + tb);
    }
    assert(ua.disjoint(ub)) by {
        lemma_rebalance_loads_sum(ta.len(), tb.len());
        vstd::set_lib::lemma_set_disjoint_lens(ta, tb);
        vstd::set_lib::lemma_set_intersect_union_lens(ua, ub);
        vstd::set_lib::lemma_set_empty_equivalency_len(ua.intersect(ub));
        if exists|x: Seq<char>| ua.contains(x) && ub.contains(x) {
            let x = choose|x: Seq<char>| ua.contains(x) && ub.contains(x);
            assert(ua.intersect(ub).contains(x));
        }
    }
    assert forall|i: u64, j: u64|
        #![trigger after[i], after[j]]
        after.contains_key(i) && after.contains_key(j) && i != j implies after[i].transactions.disjoint(
            after[j].transactions,
        ) by {
        let ti = before[i].transactions;
        let tj = before[j].transactions;
        assert(before.contains_key(i) && before.contains_key(j));
        assert(ti.disjoint(tj));
        if (i == a && j == b) || (i == b && j == a) {
        } else {
            assert(i != a && i != b ==> after[i] == before[i]);
            assert(j != a && j != b ==> after[j] == before[j]);
            assert(before[a].transactions.disjoint(before[i].transactions) || i == a);
            assert(before[b].transactions.disjoint(before[i].transactions) || i == b);
            assert(before[a].transactions.disjoint(before[j].transactions) || j == a);
            assert(before[b].transactions.disjoint(before[j].transactions) || j == b);
            assert forall|x: Seq<char>| after[i].transactions.contains(x) implies !after[j].transactions.contains(x) by {
                if i == a || i == b {
                    assert((ta + tb).contains(x));
                }
                if j == a || j == b {
                    if after[j].transactions.contains(x) {
                        assert((ta + tb).contains(x));
                    }
                }
            }
        }
    }
    assert(all_transactions(after) =~= all_transactions(before)) by {
        assert forall|t: Seq<char>| all_transactions(after).contains(t) implies all_transactions(before).contains(t) by {
            let k = choose|k: u64| after.contains_key(k) && #[trigger] after[k].transactions.contains(t);
            if k == a || k == b {
                assert((ta + tb).contains(t));
                if ta.contains(t) {
                    assert(before.contains_key(a) && before[a].transactions.contains(t));
                } else {
                    assert(before.contains_key(b) && before[b].transactions.contains(t));
                }
            } else {
                assert(before.contains_key(k) && before[k].transactions.contains(t));
            }
        }
        assert forall|t: Seq<char>| all_transactions(before).contains(t) implies all_transactions(after).contains(t) by {
            let k = choose|k: u64| before.contains_key(k) && #[trigger] before[k].transactions.contains(t);
            if k == a || k == b {
                assert((ua + ub).contains(t));
                if ua.contains(t) {
                    assert(after.contains_key(a) && after[a].transactions.contains(t));
                } else {
                    assert(after.contains_key(b) && after[b].transactions.contains(t));
                }
            } else {
                assert(after.contains_key(k) && after[k].transactions.contains(t));
            }
        }
    }
}

/// The transaction ids in their order of assignment across shards, and the cross-shard
/// transactions under way.
#[derive(Debug)]
pub struct ShardManager {
    shards: KeyedVec<ShardId, ShardState>,
    cross_shard_txs: KeyedVec<TxId, CrossShardTx>,
}

impl ShardManager {
    /// The shards, by id.
    pub closed spec fn shard_states(&self) -> Map<u64, ShardStateView> {
        self.shards@
    }

    /// The cross-shard transactions, by transaction id.
    pub closed spec fn cross_txs(&self) -> Map<Seq<char>, CrossShardTxView> {
        self.cross_shard_txs@
    }

    /// Whether the manager is well formed: both maps are, and so is every shard's transaction
    /// set.
    pub closed spec fn wf(&self) -> bool {
        &&& self.shards.wf()
        &&& self.cross_shard_txs.wf()
        &&& forall|i: int|
            0 <= i < self.shards.entries().len() ==> (#[trigger] self.shards.entries()[i]).1.wf()
    }

    /// Each shard of a well-formed manager holds finitely many transactions.
    pub proof fn lemma_finite_shards(&self)
        requires
            self.wf(),
        ensures
            forall|k: u64| #[trigger] self.shard_states().contains_key(k) ==> self.shard_states()[k].transactions.finite(),
    {
        self.shards.lemma_view();
        assert forall|k: u64| #[trigger] self.shard_states().contains_key(k) implies self.shard_states()[k].transactions.finite() by {
            let i = choose|i: int| 0 <= i < self.shards.entries().len() && (#[trigger] self.shards.entries()[i]).0@ == k;
            self.shards.entries()[i].1.transactions.lemma_len();
        }
    }

    /// A manager with no shard and no cross-shard transaction.
    pub fn new() -> (r: Self)
        ensures
            r.wf(),
            r.shard_states() == Map::<u64, ShardStateView>::empty(),
            r.cross_txs() == Map::<Seq<char>, CrossShardTxView>::empty(),
    {
        ShardManager { shards: KeyedVec::new(), cross_shard_txs: KeyedVec::new() }
    }

    /// Adds an empty shard `id` stamped `now`; refused if the shard exists.
    pub fn create_shard_at(&mut self, id: ShardId, now: i64) -> (r: Result<(), ShardError>)
        requires
            old(self).wf(),
        ensures
            final(self).wf(),
            final(self).cross_txs() == old(self).cross_txs(),
            old(self).shard_states().contains_key(id@) ==> r == Err::<(), ShardError>(
                ShardError::ShardExists(id),
            ) && final(self).shard_states() == old(self).shard_states(),
            !old(self).shard_states().contains_key(id@) ==> r is Ok && final(self).shard_states()
                == old(self).shard_states().insert(
                id@,
                ShardStateView {
                    id: id@,
                    transactions: Set::empty(),
                    state_root: Seq::empty(),
                    last_updated: now,
                },
            ),
    {
        match self.shards.find(&id) {
            Some(_) => Err(ShardError::ShardExists(id)),
            None => {
                let state = ShardState::empty(id, now);
                self.shards.insert(id, state);
                Ok(())
            },
        }
    }

    /// Adds an empty shard `id` stamped with the current time; refused if the shard exists.
    pub fn create_shard(&mut self, id: ShardId) -> (r: Result<(), ShardError>)
        requires
            old(self).wf(),
        ensures
            final(self).wf(),
            final(self).cross_txs() == old(self).cross_txs(),
            old(self).shard_states().contains_key(id@) ==> r == Err::<(), ShardError>(
                ShardError::ShardExists(id),
            ) && final(self).shard_states() == old(self).shard_states(),
            !old(self).shard_states().contains_key(id@) ==> r is Ok && final(self).shard_states().dom()
                == old(self).shard_states().dom().insert(id@) && final(self).shard_states()[id@].transactions
                == Set::<Seq<char>>::empty(),
    {
        let now = crate::clock::now_nanos_i64();
        self.create_shard_at(id, now)
    }

    /// Assigns a transaction to the shard that its id selects, stamping that shard `now`;
    /// refused if that shard does not exist.
    pub fn assign_transaction_at(&mut self, tx: Transaction, now: i64) -> (r: Result<
        ShardId,
        ShardError,
    >)
        requires
            old(self).wf(),
            tx.id@.len() > 0,
        ensures
            final(self).wf(),
            final(self).cross_txs() == old(self).cross_txs(),
            ({
                let sid = shard_for(tx.id@);
                let old_states = old(self).shard_states();
                if old_states.contains_key(sid) {
                    &&& r == Ok::<ShardId, ShardError>(ShardId(sid))
                    &&& final(self).shard_states() == old_states.insert(
                        sid,
                        ShardStateView {
                            transactions: old_states[sid].transactions.insert(tx.id@),
                            last_updated: now,
                            ..old_states[sid]
                        },
                    )
                } else {
                    &&& r == Err::<ShardId, ShardError>(ShardError::ShardNotFound(ShardId(sid)))
                    &&& final(self).shard_states() == old_states
                }
            }),
    {
        let sid = ShardId(Self::shard_of(&tx.id));
        match self.take_shard(&sid) {
            Some(mut state) => {
                state.transactions.insert(tx.id, ());
                state.last_updated = now;
                let ghost v = state@;
                self.put_shard(sid, state);
                proof {
                    assert(self.shards@ =~= old(self).shards@.insert(sid@, v));
                }
                Ok(sid)
            },
            None => Err(ShardError::ShardNotFound(sid)),
        }
    }

    /// Records a cross-shard transaction (replacing any with the same id) and starts its
    /// two-phase commit over its target shards, in their order.
    pub fn process_cross_shard_tx(&mut self, tx: CrossShardTx) -> (r: TwoPhaseCommit)
        requires
            old(self).wf(),
        ensures
            final(self).wf(),
            final(self).shard_states() == old(self).shard_states(),
            final(self).cross_txs() == old(self).cross_txs().insert(tx@.tx.id, tx@),
            r@ == start_state(tx@.target_shards),
    {
        let mut targets: Vec<u64> = Vec::new();
        let mut i: usize = 0;
        while i < tx.target_shards.len()
            invariant
                i <= tx.target_shards@.len(),
                targets@ == tx.target_shards@.subrange(0, i as int).map_values(|s: ShardId| s.0),
            decreases tx.target_shards@.len() - i,
        {
            targets.push(tx.target_shards[i].0);
            i = i + 1;
            assert(targets@ =~= tx.target_shards@.subrange(0, i as int).map_values(|s: ShardId| s.0));
        }
        assert(tx.target_shards@.subrange(0, i as int) =~= tx.target_shards@);
        let key = tx.tx.id.deep_clone();
        let ghost v = tx@;
        self.cross_shard_txs.insert(key, tx);
        TwoPhaseCommit::new(targets)
    }

    /// Records how the two-phase commit of cross-shard transaction `id` ended: committed or
    /// failed sets its status; an error leaves it as it stood. Nothing happens for an unknown id.
    pub fn complete_cross_shard_tx(&mut self, id: &TxId, outcome: CommitOutcome)
        requires
            old(self).wf(),
        ensures
            final(self).wf(),
            final(self).shard_states() == old(self).shard_states(),
            ({
                let o = old(self).cross_txs();
                if o.contains_key(id@) && outcome != CommitOutcome::Error {
                    final(self).cross_txs() == o.insert(
                        id@,
                        CrossShardTxView {
                            status: if outcome == CommitOutcome::Committed {
                                CrossShardTxStatus::Committed
                            } else {
                                CrossShardTxStatus::Failed
                            },
                            ..o[id@]
                        },
                    )
                } else {
                    final(self).cross_txs() == o
                }
            }),
    {
        let status = match outcome {
            CommitOutcome::Committed => CrossShardTxStatus::Committed,
            CommitOutcome::Failed => CrossShardTxStatus::Failed,
            CommitOutcome::Error => {
                return;
            },
        };
        match self.cross_shard_txs.remove(id) {
            Some(mut stored) => {
                stored.status = status;
                let ghost v = stored@;
                self.cross_shard_txs.insert(id.deep_clone(), stored);
                proof {
                    assert(self.cross_shard_txs@ =~= old(self).cross_shard_txs@.insert(id@, v));
                }
            },
            None => {},
        }
    }

    /// The number of transactions of shard `id`.
    fn shard_load(&self, id: &ShardId) -> (n: usize)
        requires
            self.wf(),
            self.shard_states().contains_key(id@),
        ensures
            n == load(self.shard_states(), id@),
            self.shard_states()[id@].transactions.finite(),
    {
        match self.shards.get(id) {
            Some(st) => {
                proof {
                    let e = self.shards.entries();
                    let j = choose|j: int| 0 <= j < e.len() && (#[trigger] e[j]).1 == *st;
                    assert(e[j].1.wf());
                    st.transactions.lemma_len();
                }
                st.transactions.len()
            },
            None => 0,
        }
    }

    /// Moves a quarter (rounded down) of the transactions of shard `from` to shard `to`,
    /// stamping both `now`.
    fn migrate_transactions(&mut self, from: ShardId, to: ShardId, now: i64)
        requires
            old(self).wf(),
            from@ != to@,
            old(self).shard_states().contains_key(from@),
            old(self).shard_states().contains_key(to@),
        ensures
            final(self).wf(),
            final(self).cross_txs() == old(self).cross_txs(),
            exists|moved: Set<Seq<char>>|
                #[trigger] migrated(
                    old(self).shard_states(),
                    final(self).shard_states(),
                    from@,
                    to@,
                    moved,
                    now,
                ) && moved.len() == load(old(self).shard_states(), from@) / 4,
    {
        let ghost o = self.shard_states();
        let ga = self.take_shard(&from);
        let gb = self.take_shard(&to);
        match (ga, gb) {
            (Some(mut a), Some(mut b)) => {
                let ghost a0 = a@.transactions;
                let ghost b0 = b@.transactions;
                proof {
                    a.transactions.lemma_len();
                }
                let k = a.transactions.len() / 4;
                let ghost mut moved = Set::<Seq<char>>::empty();
                assert(a0.difference(moved) =~= a0);
                assert(b0.union(moved) =~= b0);
                let mut i: usize = 0;
                while i < k
                    invariant
                        self.wf(),
                        self.cross_txs() == old(self).cross_txs(),
                        self.shard_states() == o.remove(from@).remove(to@),
                        a.wf(),
                        b.wf(),
                        a@ == (ShardStateView { transactions: a0.difference(moved), ..o[from@] }),
                        b@ == (ShardStateView { transactions: b0.union(moved), ..o[to@] }),
                        a0 == o[from@].transactions,
                        a0.finite(),
                        moved.finite(),
                        moved.subset_of(a0),
                        moved.len() == i,
                        i <= k,
                        k == a0.len() / 4,
                        a.transactions.entries().len() == a0.len() - i,
                    decreases k - i,
                {
                    let key = a.transactions.as_entries()[0].0.deep_clone();
                    proof {
                        a.transactions.lemma_view();
                        assert(has_key(a.transactions.entries(), key@));
                        a.transactions.lemma_len();
                    }
                    a.transactions.remove(&key);
                    b.transactions.insert(key, ());
                    proof {
                        a.transactions.lemma_len();
                        assert(!moved.contains(key@));
                        moved = moved.insert(key@);
                        assert(a.transactions@.dom() =~= a0.difference(moved));
                        assert(b.transactions@.dom() =~= b0.union(moved));
                    }
                    i = i + 1;
                }
                a.last_updated = now;
                b.last_updated = now;
                let ghost va = a@;
                let ghost vb = b@;
                self.put_shard(from, a);
                self.put_shard(to, b);
                proof {
                    assert(self.shard_states() =~= o.insert(from@, va).insert(to@, vb));
                    assert(migrated(o, self.shard_states(), from@, to@, moved, now));
                }
            },
            _ => {},
        }
    }

    /// Rebalances the shards by the current time: see `rebalance_shards_at`.
    pub fn rebalance_shards(&mut self)
        requires
            old(self).wf(),
        ensures
            final(self).wf(),
            final(self).cross_txs() == old(self).cross_txs(),
            old(self).shard_states().dom().len() < 2 ==> final(self).shard_states() == old(
                self,
            ).shard_states(),
            old(self).shard_states().dom().len() >= 2 ==> exists|a: u64, b: u64, now: i64|
                #[trigger] rebalanced(old(self).shard_states(), final(self).shard_states(), a, b, now),
    {
        let now = crate::clock::now_nanos_i64();
        self.rebalance_shards_at(now);
    }

    /// Moves transactions from a most loaded shard to a least loaded one, a quarter of the
    /// heavier at a time, until the heavier holds at most one more or a quarter of it is
    /// nothing; both are stamped `now` if anything moves. With fewer than two shards nothing
    /// happens.
    pub fn rebalance_shards_at(&mut self, now: i64)
        requires
            old(self).wf(),
        ensures
            final(self).wf(),
            final(self).cross_txs() == old(self).cross_txs(),
            old(self).shard_states().dom().len() < 2 ==> final(self).shard_states() == old(
                self,
            ).shard_states(),
            old(self).shard_states().dom().len() >= 2 ==> exists|a: u64, b: u64|
                #[trigger] rebalanced(old(self).shard_states(), final(self).shard_states(), a, b, now),
    {
        let ghost o = self.shard_states();
        let n = self.shards.len();
        if n < 2 {
            return;
        }
        proof {
            self.shards.lemma_view();
        }
        let mut ai: usize = 0;
        let mut bi: usize = 0;
        let mut min_load = self.shard_load(&self.shards.as_entries()[0].0);
        let mut max_load = min_load;
        let mut i: usize = 1;
        while i < n
            invariant
                self.wf(),
                self.shard_states() == o,
                n == self.shards.entries().len(),
                1 <= i <= n,
                ai < i,
                bi < i,
                min_load == load(o, self.shards.entries()[ai as int].0@),
                max_load == load(o, self.shards.entries()[bi as int].0@),
                forall|j: int| 0 <= j < i ==> min_load <= #[trigger] load(o, self.shards.entries()[j].0@) <= max_load,
                forall|q: u64| #[trigger] o.contains_key(q) <==> has_key(self.shards.entries(), q),
            decreases n - i,
        {
            let l = self.shard_load(&self.shards.as_entries()[i].0);
            if l < min_load {
                min_load = l;
                ai = i;
            }
            if l > max_load {
                max_load = l;
                bi = i;
            }
            i = i + 1;
        }
        let a_id = self.shards.as_entries()[ai].0;
        let mut b_id = self.shards.as_entries()[bi].0;
        proof {
            assert forall|k: u64| #[trigger] o.contains_key(k) implies load(o, a_id@) <= load(o, k) <= load(o, b_id@) by {
                let j = choose|j: int| 0 <= j < self.shards.entries().len() && (#[trigger] self.shards.entries()[j]).0@ == k;
                assert(min_load <= load(o, self.shards.entries()[j].0@) <= max_load);
            }
            self.shards.lemma_unique();
        }
        if ai == bi {
            let other = if ai == 0 { 1 } else { 0 };
            b_id = self.shards.as_entries()[other].0;
            proof {
                assert(load(o, self.shards.entries()[other as int].0@) <= max_load);
                assert(min_load <= load(o, self.shards.entries()[other as int].0@));
            }
        }
        assert(a_id@ != b_id@);
        let ghost ta = o[a_id@].transactions;
        let ghost tb = o[b_id@].transactions;
        let mut la = self.shard_load(&a_id);
        let mut lb = self.shard_load(&b_id);
        let ghost la0 = la as nat;
        let ghost lb0 = lb as nat;
        let ghost mut moved_yet = false;
        while lb > la && lb - la > 1 && lb / 4 > 0
            invariant
                self.wf(),
                self.cross_txs() == old(self).cross_txs(),
                a_id@ != b_id@,
                o.contains_key(a_id@),
                o.contains_key(b_id@),
                la0 == ta.len(),
                lb0 == tb.len(),
                ta == o[a_id@].transactions,
                tb == o[b_id@].transactions,
                ({
                    let cur = self.shard_states();
                    let ua = cur[a_id@].transactions;
                    let ub = cur[b_id@].transactions;
                    &&& cur.dom() == o.dom()
                    &&& forall|k: u64| #[trigger]
                        o.contains_key(k) && k != a_id@ && k != b_id@ ==> cur[k] == o[k]
                    &&& ta.subset_of(ua)
                    &&& ub.subset_of(tb)
                    &&& ua + ub == ta + tb
                    &&& ua.finite() && ub.finite()
                    &&& cur[a_id@].id == o[a_id@].id && cur[a_id@].state_root == o[a_id@].state_root
                    &&& cur[b_id@].id == o[b_id@].id && cur[b_id@].state_root == o[b_id@].state_root
                    &&& la == ua.len()
                    &&& lb == ub.len()
                    &&& ta.disjoint(tb) ==> ua.disjoint(ub) && rebalance_loads(la as nat, lb as nat)
                        == rebalance_loads(la0, lb0)
                    &&& !moved_yet ==> cur == o && la == la0 && lb == lb0
                    &&& moved_yet ==> cur[a_id@].last_updated == now && cur[b_id@].last_updated == now
                    &&& moved_yet ==> moves(la0, lb0)
                }),
            decreases lb,
        {
            let ghost before = self.shard_states();
            let ghost la_b = la as nat;
            let ghost lb_b = lb as nat;
            self.migrate_transactions(b_id, a_id, now);
            let ghost after = self.shard_states();
            let ghost m = choose|m: Set<Seq<char>>|
                #[trigger] migrated(before, after, b_id@, a_id@, m, now) && m.len() == load(before, b_id@) / 4;
            la = self.shard_load(&a_id);
            lb = self.shard_load(&b_id);
            proof {
                let ua = before[a_id@].transactions;
                let ub = before[b_id@].transactions;
                assert(after[a_id@].transactions == ua.union(m));
                assert(after[b_id@].transactions == ub.difference(m));
                assert(ub.difference(m).len() == ub.len() - m.len()) by {
                    vstd::set_lib::lemma_set_difference_len(ub, m);
                    assert(ub.intersect(m) =~= m);
                }
                assert(after[a_id@].transactions + after[b_id@].transactions =~= ua + ub);
                if ta.disjoint(tb) {
                    assert(ua.disjoint(m));
                    vstd::set_lib::lemma_set_disjoint_lens(ua, m);
                    assert(ua.union(m).disjoint(ub.difference(m)));
                    assert(moves(la_b, lb_b));
                    assert(rebalance_loads(la_b, lb_b) == rebalance_loads(la_b + lb_b / 4, (lb_b - lb_b / 4) as nat));
                }
                assert(moves(la0, lb0));
                moved_yet = true;
                assert forall|k: u64| #[trigger]
                    o.contains_key(k) && k != a_id@ && k != b_id@ implies after[k] == o[k] by {
                    assert(before[k] == o[k]);
                }
                assert(after.dom() =~= o.dom());
            }
        }
        proof {
            let cur = self.shard_states();
            if moves(ta.len(), tb.len()) {
                assert(moved_yet);
            }
            if ta.disjoint(tb) {
                assert(rebalance_loads(la as nat, lb as nat) == (la as nat, lb as nat));
            }
            assert(forall|k: u64| #[trigger]
                o.contains_key(k) ==> load(o, a_id@) <= load(o, k) <= load(o, b_id@));
            assert(!moves(cur[a_id@].transactions.len(), cur[b_id@].transactions.len()));
            assert(if moves(ta.len(), tb.len()) {
                cur[a_id@].last_updated == now && cur[b_id@].last_updated == now
            } else {
                cur == o
            });
            assert(rebalanced(o, cur, a_id@, b_id@, now));
        }
    }

    /// The state of shard `id`, if it exists.
    pub fn get_shard(&self, id: &ShardId) -> (r: Option<&ShardState>)
        requires
            self.wf(),
        ensures
            r is Some <==> self.shard_states().contains_key(id@),
            r matches Some(st) ==> st@ == self.shard_states()[id@] && st.wf(),
    {
        match self.shards.get(id) {
            Some(st) => {
                proof {
                    let e = self.shards.entries();
                    let j = choose|j: int| 0 <= j < e.len() && (#[trigger] e[j]).1 == *st;
                    assert(e[j].1.wf());
                }
                Some(st)
            },
            None => None,
        }
    }

    /// The cross-shard transaction `id`, if recorded.
    pub fn get_cross_shard_tx(&self, id: &TxId) -> (r: Option<&CrossShardTx>)
        requires
            self.wf(),
        ensures
            r is Some <==> self.cross_txs().contains_key(id@),
            r matches Some(t) ==> t@ == self.cross_txs()[id@],
    {
        self.cross_shard_txs.get(id)
    }

    /// Takes shard `sid` out of the manager, if present.
    fn take_shard(&mut self, sid: &ShardId) -> (r: Option<ShardState>)
        requires
            old(self).wf(),
        ensures
            final(self).wf(),
            final(self).cross_txs() == old(self).cross_txs(),
            final(self).shard_states() == old(self).shard_states().remove(sid@),
            r is Some <==> old(self).shard_states().contains_key(sid@),
            r matches Some(st) ==> st.wf() && st@ == old(self).shard_states()[sid@],
    {
        let removed = self.shards.remove(sid);
        proof {
            let e = old(self).shards.entries();
            assert forall|i: int| 0 <= i < self.shards.entries().len() implies (#[trigger] self.shards.entries()[i]).1.wf() by {
                let x = self.shards.entries()[i];
                assert(e.contains(x));
                let a = choose|a: int| 0 <= a < e.len() && e[a] == x;
                assert(e[a].1.wf());
            }
            if removed is Some {
                let st = removed->0;
                let pair = (e[old(self).shards.index_of_key(sid@)].0, st);
                assert(e.contains(pair));
                let j = choose|j: int| 0 <= j < e.len() && #[trigger] e[j] == pair;
                assert(e[j].1.wf());
            }
        }
        removed
    }

    /// Puts `state` in the manager as shard `sid`.
    fn put_shard(&mut self, sid: ShardId, state: ShardState)
        requires
            old(self).wf(),
            state.wf(),
        ensures
            final(self).wf(),
            final(self).cross_txs() == old(self).cross_txs(),
            final(self).shard_states() == old(self).shard_states().insert(sid@, state@),
    {
        let ghost mid = self.shards.entries();
        let ghost st = state;
        self.shards.insert(sid, state);
        proof {
            assert forall|i: int| 0 <= i < self.shards.entries().len() implies (#[trigger] self.shards.entries()[i]).1.wf() by {
                let x = self.shards.entries()[i];
                if x != (sid, st) {
                    assert(mid.contains(x));
                    let a = choose|a: int| 0 <= a < mid.len() && mid[a] == x;
                    assert(mid[a].1.wf());
                }
            }
        }
    }

    /// The shard a transaction id selects.
    fn shard_of(id: &TxId) -> (r: u64)
        requires
            id@.len() > 0,
        ensures
            r == shard_for(id@),
    {
        let s = id.as_str();
        let b = s.as_bytes();
        assert(b@.len() > 0);
        (b[0] % 4) as u64
    }
}

} // verus!
