use vstd::prelude::*;
use vstd::string::StringSliceAdditionalSpecFns;
use vstd::utf8::encode_utf8;
use crate::bytes::extend_bytes;
use crate::node::dag::{Transaction, TxId};
use crate::node::shard_coordinator::{ShardId, ShardState, ShardStateView};

verus! {

/// A key-value store, for stores to implement.
pub trait StorageEngine {
    /// The value under `key`, if any.
    fn get(&self, key: &[u8]) -> Result<Option<Vec<u8>>, String>;

    /// Stores `value` under `key`.
    fn put(&mut self, key: &[u8], value: &[u8]) -> Result<(), String>;

    /// Deletes `key`.
    fn delete(&mut self, key: &[u8]) -> Result<(), String>;

    /// Writes a batch: each key with `Some` value is stored, each with `None` deleted.
    fn batch_write(&mut self, batch: Vec<(Vec<u8>, Option<Vec<u8>>)>) -> Result<(), String>;
}

/// The column family of shard states.
pub const CF_SHARD_STATE: &'static str = "shard_state";

/// The column family of transactions.
pub const CF_TRANSACTIONS: &'static str = "transactions";

/// The column family of metadata.
pub const CF_METADATA: &'static str = "metadata";

/// The key prefix of shard states: "shard/".
pub open spec fn prefix_shard() -> Seq<u8> {
    seq![115u8, 104, 97, 114, 100, 47]
}

/// The key prefix of transactions: "tx/".
pub open spec fn prefix_tx() -> Seq<u8> {
    seq![116u8, 120, 47]
}

/// The key prefix of metadata: "meta/".
pub open spec fn prefix_meta() -> Seq<u8> {
    seq![109u8, 101, 116, 97, 47]
}

/// The eight bytes of a `u64`, most significant first.
pub open spec fn be_bytes_u64(x: u64) -> Seq<u8> {
    Seq::new(8, |i: int| ((x as int / pow256(7 - i)) % 256) as u8)
}

/// 256 to the power `n`.
pub open spec fn pow256(n: int) -> int
    decreases n,
{
    if n <= 0 {
        1
    } else {
        256 * pow256(n - 1)
    }
}

/// Appends the bytes of a short prefix.
fn push_prefix(key: &mut Vec<u8>, prefix: &[u8])
    ensures
        final(key)@ == old(key)@ + prefix@,
{
    extend_bytes(key, prefix);
}

/// The storage key of a shard's state: "shard/" and the shard id's eight bytes, most
/// significant first.
pub fn make_shard_key(shard_id: &ShardId) -> (r: Vec<u8>)
    ensures
        r@ == prefix_shard() + be_bytes_u64(shard_id.0),
{
    let mut key: Vec<u8> = Vec::with_capacity(14);
    key.push(115u8);
    key.push(104u8);
    key.push(97u8);
    key.push(114u8);
    key.push(100u8);
    key.push(47u8);
    let x = shard_id.0;
    let mut i: usize = 0;
    let mut div: u64 = 72057594037927936;
    assert(key@ =~= prefix_shard());
    assert(pow256(7) == 72057594037927936) by {
        reveal_with_fuel(pow256, 8);
    }
    while i < 8
        invariant
            i <= 8,
            key@.len() == 6 + i,
            key@.subrange(0, 6) == prefix_shard(),
            forall|j: int| 0 <= j < i ==> key@[6 + j] == be_bytes_u64(x)[j],
            div as int == pow256(7 - i),
            i < 8 ==> div > 0,
        decreases 8 - i,
    {
        proof {
            lemma_pow256_positive(7 - i);
        }
        let b = ((x / div) % 256) as u8;
        key.push(b);
        proof {
            assert(key@[6 + i as int] == be_bytes_u64(x)[i as int]);
        }
        if i < 7 {
            div = div / 256;
            proof {
                assert(pow256(7 - i) == 256 * pow256(7 - i - 1));
            }
        }
        i = i + 1;
    }
    assert(key@ =~= prefix_shard() + be_bytes_u64(x));
    key
}

proof fn lemma_pow256_positive(n: int)
    ensures
        pow256(n) > 0,
    decreases n,
{
    if n > 0 {
        lemma_pow256_positive(n - 1);
    }
}

/// The global state of the chain.
#[derive(Debug)]
pub struct GlobalState {
    pub last_block_height: u64,
    pub total_transactions: u64,
    /// Seconds since the Unix epoch.
    pub last_updated: i64,
    pub network_version: String,
}

/// The keys under which transactions and metadata are stored, over a storage engine `S`.
#[derive(Debug)]
pub struct StateManager<S> {
    storage: S,
}

impl<S> StateManager<S> {
    /// A state manager over `storage`.
    pub fn new(storage: S) -> (r: Self)
        ensures
            r.storage() == storage,
    {
        StateManager { storage }
    }

    /// The storage engine.
    pub closed spec fn storage(&self) -> S {
        self.storage
    }

    /// The storage engine, borrowed.
    pub fn engine(&self) -> (r: &S)
        ensures
            *r == self.storage(),
    {
        &self.storage
    }

    /// The storage engine, borrowed for writing.
    pub fn engine_mut(&mut self) -> (r: &mut S)
        ensures
            *r == old(self).storage(),
            final(self).storage() == *final(r),
    {
        &mut self.storage
    }

    /// The key of a transaction: "tx/" and the id's UTF-8 bytes.
    pub fn make_tx_key(&self, tx_id: &TxId) -> (r: Vec<u8>)
        ensures
            r@ == prefix_tx() + encode_utf8(tx_id@),
    {
        let id = tx_id.as_str();
        let bytes = id.as_bytes();
        let mut key: Vec<u8> = Vec::with_capacity(3);
        key.push(116u8);
        key.push(120u8);
        key.push(47u8);
        assert(key@ =~= prefix_tx());
        push_prefix(&mut key, bytes);
        key
    }

    /// The key of a metadata entry: "meta/" and the given key.
    pub fn make_meta_key(&self, key: &[u8]) -> (r: Vec<u8>)
        ensures
            r@ == prefix_meta() + key@,
    {
        let mut full_key: Vec<u8> = Vec::with_capacity(5);
        full_key.push(109u8);
        full_key.push(101u8);
        full_key.push(116u8);
        full_key.push(97u8);
        full_key.push(47u8);
        assert(full_key@ =~= prefix_meta());
        push_prefix(&mut full_key, key);
        full_key
    }
}

/// A change of state between two block heights.
#[derive(Debug)]
pub struct StateDiff {
    pub from_height: u64,
    pub to_height: u64,
    pub transactions: Vec<(Vec<u8>, Transaction)>,
    pub metadata_changes: Vec<(Vec<u8>, Vec<u8>)>,
}

/// Whether a transaction's timestamp lies in `[start, end]`.
pub open spec fn in_range(tx: Transaction, start: i64, end: i64) -> bool {
    start <= tx.timestamp <= end
}

/// The transactions stamped within a range, as a predicate.
pub open spec fn within(start: i64, end: i64) -> spec_fn(Transaction) -> bool {
    |tx: Transaction| in_range(tx, start, end)
}

/// Synchronises state between nodes, over a storage engine `S`.
#[derive(Debug)]
pub struct StateSyncManager<S> {
    storage: S,
}

impl<S> StateSyncManager<S> {
    /// A synchronisation manager over `storage`.
    pub fn new(storage: S) -> (r: Self)
        ensures
            r.storage() == storage,
    {
        StateSyncManager { storage }
    }

    /// The storage engine.
    pub closed spec fn storage(&self) -> S {
        self.storage
    }

    /// The storage engine, borrowed.
    pub fn engine(&self) -> (r: &S)
        ensures
            *r == self.storage(),
    {
        &self.storage
    }

    /// The storage engine, borrowed for writing.
    pub fn engine_mut(&mut self) -> (r: &mut S)
        ensures
            *r == old(self).storage(),
            final(self).storage() == *final(r),
    {
        &mut self.storage
    }

    /// The transactions stamped within `[start_time, end_time]`, in their order.
    pub fn select_in_range(&self, txs: Vec<Transaction>, start_time: i64, end_time: i64) -> (r: Vec<
        Transaction,
    >)
        ensures
            r@ == txs@.filter(within(start_time, end_time)),
    {
        let ghost all = txs@;
        let mut rest = txs;
        let mut out: Vec<Transaction> = Vec::new();
        let ghost mut taken: nat = 0;
        while rest.len() > 0
            invariant
                taken + rest@.len() == all.len(),
                rest@ == all.subrange(taken as int, all.len() as int),
                out@ == all.subrange(0, taken as int).filter(within(start_time, end_time)),
            decreases rest@.len(),
        {
            let tx = rest.remove(0);
            proof {
                reveal(Seq::filter);
                assert(all.subrange(0, taken as int + 1).drop_last() =~= all.subrange(0, taken as int));
                assert(all.subrange(0, taken as int + 1).last() == tx);
            }
            if start_time <= tx.timestamp && tx.timestamp <= end_time {
                out.push(tx);
            }
            proof {
                taken = taken + 1;
                assert(rest@ =~= all.subrange(taken as int, all.len() as int));
            }
        }
        assert(all.subrange(0, all.len() as int) =~= all);
        out
    }

    /// The difference between two heights: no transaction and no metadata change is
    /// computed yet.
    pub fn calculate_state_diff(&self, from_height: u64, to_height: u64) -> (r: StateDiff)
        ensures
            r.from_height == from_height,
            r.to_height == to_height,
            r.transactions@.len() == 0,
            r.metadata_changes@.len() == 0,
    {
        StateDiff {
            from_height,
            to_height,
            transactions: Vec::new(),
            metadata_changes: Vec::new(),
        }
    }
}

/// Why shard states could not be merged.
#[derive(Debug, Clone, Copy, PartialEq, Eq)]
pub enum MergeError {
    /// There was no state to merge.
    NoStates,
}

/// The merge of shard states, first to last: the transactions of all of them, and the state
/// root and time of the first one whose time is strictly later than every earlier one.
pub open spec fn merged(s: Seq<ShardStateView>) -> ShardStateView
    decreases s.len(),
{
    if s.len() <= 1 {
        s[0]
    } else {
        let m = merged(s.drop_last());
        let x = s.last();
        if x.last_updated > m.last_updated {
            ShardStateView {
                transactions: m.transactions.union(x.transactions),
                state_root: x.state_root,
                last_updated: x.last_updated,
                ..m
            }
        } else {
            ShardStateView { transactions: m.transactions.union(x.transactions), ..m }
        }
    }
}

/// The views of a list of shard states.
pub open spec fn state_views(states: Seq<ShardState>) -> Seq<ShardStateView> {
    states.map_values(|s: ShardState| s@)
}

/// Merges shard states gathered from several nodes; refused when there is none.
pub fn merge_states(states: Vec<ShardState>) -> (r: Result<ShardState, MergeError>)
    requires
        forall|i: int| 0 <= i < states@.len() ==> (#[trigger] states@[i]).wf(),
    ensures
        states@.len() == 0 ==> r == Err::<ShardState, MergeError>(MergeError::NoStates),
        states@.len() > 0 ==> (r matches Ok(m) && m.wf() && m@ == merged(state_views(states@))),
{
    let ghost all = states@;
    if states.len() == 0 {
        return Err(MergeError::NoStates);
    }
    let mut rest = states;
    let mut m = rest.remove(0);
    let ghost mut taken: nat = 1;
    proof {
        assert(state_views(all).subrange(0, 1) =~= seq![m@]);
        assert(all[0] == m);
    }
    while rest.len() > 0
        invariant
            1 <= taken <= all.len(),
            taken + rest@.len() == all.len(),
            rest@ == all.subrange(taken as int, all.len() as int),
            forall|i: int| 0 <= i < all.len() ==> (#[trigger] all[i]).wf(),
            m.wf(),
            m@ == merged(state_views(all).subrange(0, taken as int)),
        decreases rest@.len(),
    {
        let st = rest.remove(0);
        proof {
            assert(st == all[taken as int]);
            let pre = state_views(all).subrange(0, taken as int + 1);
            assert(pre.drop_last() =~= state_views(all).subrange(0, taken as int));
            assert(pre.last() == st@);
        }
        m.transactions.extend_from(&st.transactions);
        if st.last_updated > m.last_updated {
            m.last_updated = st.last_updated;
            m.state_root = st.state_root;
        }
        proof {
            let pre = state_views(all).subrange(0, taken as int);
            assert(m.transactions@.dom() =~= merged(pre).transactions.union(st@.transactions));
            taken = taken + 1;
            assert(rest@ =~= all.subrange(taken as int, all.len() as int));
        }
    }
    assert(state_views(all).subrange(0, all.len() as int) =~= state_views(all));
    Ok(m)
}

/// Every state that goes into a merge gives it all of its transactions, and the merge is no
/// older than any of them; what the merge holds comes from one of them.
pub proof fn law_merge_covers_every_state(s: Seq<ShardStateView>)
    requires
        s.len() > 0,
    ensures
        forall|i: int| 0 <= i < s.len() ==> (#[trigger] s[i]).transactions.subset_of(
            merged(s).transactions,
        ),
        forall|i: int| 0 <= i < s.len() ==> (#[trigger] s[i]).last_updated <= merged(s).last_updated,
        forall|t: Seq<char>| #[trigger]
            merged(s).transactions.contains(t) ==> exists|i: int|
                0 <= i < s.len() && (#[trigger] s[i]).transactions.contains(t),
        merged(s).id == s[0].id,
    decreases s.len(),
{
    if s.len() > 1 {
        let p = s.drop_last();
        law_merge_covers_every_state(p);
        assert forall|i: int| 0 <= i < p.len() implies #[trigger] s[i] == p[i] by {}
        assert forall|t: Seq<char>| #[trigger] merged(s).transactions.contains(t) implies exists|i: int|
            0 <= i < s.len() && (#[trigger] s[i]).transactions.contains(t) by {
            if merged(p).transactions.contains(t) {
                let i = choose|i: int| 0 <= i < p.len() && (#[trigger] p[i]).transactions.contains(t);
                assert(s[i] == p[i]);
            } else {
                assert(s[s.len() - 1].transactions.contains(t));
            }
        }
    }
}

/// Backs shard states up to, and restores them from, snapshots of a storage engine `S`.
#[derive(Debug)]
pub struct ShardStateBackup<S> {
    storage: S,
}

impl<S> ShardStateBackup<S> {
    /// A backup manager over `storage`.
    pub fn new(storage: S) -> (r: Self)
        ensures
            r.storage() == storage,
    {
        ShardStateBackup { storage }
    }

    /// The storage engine.
    pub closed spec fn storage(&self) -> S {
        self.storage
    }

    /// The storage engine, borrowed.
    pub fn engine(&self) -> (r: &S)
        ensures
            *r == self.storage(),
    {
        &self.storage
    }

    /// The storage engine, borrowed for writing.
    pub fn engine_mut(&mut self) -> (r: &mut S)
        ensures
            *r == old(self).storage(),
            final(self).storage() == *final(r),
    {
        &mut self.storage
    }
}

} // verus!
