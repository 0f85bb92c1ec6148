pub mod state;
pub mod cross_shard;

use vstd::prelude::*;
use crate::bytes::extend_bytes;
use crate::codec::{blake3_digest, blake3_hash, hex_encode, hex_lower};
use crate::keyed::KeyedVec;
use crate::text::{decimal, push_decimal, push_str};

verus! {

/// Identifier of a shard.
pub type ShardId = u32;

/// Identifier of an account.
pub type AccountId = [u8; 32];

/// A time in seconds since the Unix epoch.
pub type Timestamp = u64;

/// The four bytes of a `u32`, most significant first.
pub open spec fn be_bytes_u32(x: u32) -> Seq<u8> {
    seq![
        (x / 0x1000000) as u8,
        ((x / 0x10000) % 0x100) as u8,
        ((x / 0x100) % 0x100) as u8,
        (x % 0x100) as u8,
    ]
}

/// The checksum of a shard address: the first four bytes of the BLAKE3 digest of the shard id
/// (big-endian) followed by the account id.
pub open spec fn shard_checksum(shard_id: u32, account_id: Seq<u8>) -> Seq<u8> {
    blake3_digest(be_bytes_u32(shard_id) + account_id).subrange(0, 4)
}

/// An account's address within a shard, with a checksum over both parts.
#[derive(Debug, Clone, PartialEq, Eq, Hash)]
pub struct ShardAddress {
    pub shard_id: ShardId,
    pub account_id: AccountId,
    pub checksum: [u8; 4],
}

impl ShardAddress {
    /// Creates the address of `account_id` in shard `shard_id`, with its checksum.
    pub fn new(shard_id: ShardId, account_id: AccountId) -> (r: Self)
        ensures
            r.shard_id == shard_id,
            r.account_id@ == account_id@,
            r.checksum@ == shard_checksum(shard_id, account_id@),
    {
        let mut address = ShardAddress { shard_id, account_id, checksum: [0u8; 4] };
        address.update_checksum();
        address
    }

    /// Recomputes the checksum from the shard id and the account id.
    fn update_checksum(&mut self)
        ensures
            final(self).shard_id == old(self).shard_id,
            final(self).account_id@ == old(self).account_id@,
            final(self).checksum@ == shard_checksum(old(self).shard_id, old(self).account_id@),
    {
        let id = self.shard_id;
        let mut data: Vec<u8> = Vec::with_capacity(36);
        data.push((id / 0x1000000) as u8);
        data.push(((id / 0x10000) % 0x100) as u8);
        data.push(((id / 0x100) % 0x100) as u8);
        data.push((id % 0x100) as u8);
        assert(data@ =~= be_bytes_u32(id));
        extend_bytes(&mut data, self.account_id.as_slice());
        let hash = blake3_hash(data.as_slice());
        self.checksum = [hash[0], hash[1], hash[2], hash[3]];
        assert(self.checksum@ =~= hash@.subrange(0, 4));
    }

    /// The address as text: "sh", the shard id in decimal, "-", the account id in hex, "-",
    /// the checksum in hex.
    pub fn to_string(&self) -> (r: String)
        ensures
            r@ == "sh"@ + decimal(self.shard_id as nat) + "-"@ + hex_lower(self.account_id@) + "-"@
                + hex_lower(self.checksum@),
    {
        let mut out = String::from_str("sh");
        push_decimal(&mut out, self.shard_id as u64);
        push_str(&mut out, "-");
        let account = hex_encode(self.account_id.as_slice());
        push_str(&mut out, account.as_str());
        push_str(&mut out, "-");
        let checksum = hex_encode(self.checksum.as_slice());
        push_str(&mut out, checksum.as_str());
        out
    }
}

/// An account held by a shard.
#[derive(Debug)]
pub struct Account {
    pub balance: u128,
    pub nonce: u64,
    pub code: Option<Vec<u8>>,
    pub storage: KeyedVec<Vec<u8>, Vec<u8>>,
}

/// What an account holds.
pub struct AccountView {
    pub balance: u128,
    pub nonce: u64,
    pub code: Option<Seq<u8>>,
    pub storage: Map<Seq<u8>, Seq<u8>>,
}

impl View for Account {
    type V = AccountView;

    open spec fn view(&self) -> AccountView {
        AccountView {
            balance: self.balance,
            nonce: self.nonce,
            code: match self.code {
                Some(c) => Some(c@),
                None => None,
            },
            storage: self.storage@,
        }
    }
}

/// The limits of a shard. (How close to a limit a shard may come before it scales, a
/// fraction, is the node's to judge.)
#[derive(Debug, Clone, Copy, PartialEq, Eq)]
pub struct ShardConfig {
    pub max_tps: u32,
    pub max_accounts: u32,
    pub max_storage: u64,
    pub max_total_value: u128,
    pub min_validators: u32,
    pub optimal_size: u64,
}

/// The default limits: 10 000 transactions per second, a million accounts, 1 TB of storage,
/// a total value of 10^18, 4 validators, an optimal size of 100 GB.
pub open spec fn default_shard_config() -> ShardConfig {
    ShardConfig {
        max_tps: 10_000,
        max_accounts: 1_000_000,
        max_storage: 1_000_000_000_000,
        max_total_value: 1_000_000_000_000_000,
        min_validators: 4,
        optimal_size: 100_000_000_000,
    }
}

impl Default for ShardConfig {
    fn default() -> (r: Self)
        ensures
            r == default_shard_config(),
            r.max_tps == 10_000,
            r.max_accounts == 1_000_000,
            r.max_storage == 1_000_000_000_000,
            r.max_total_value == 1_000_000_000_000_000,
            r.min_validators == 4,
            r.optimal_size == 100_000_000_000,
    {
        ShardConfig {
            max_tps: 10_000,
            max_accounts: 1_000_000,
            max_storage: 1_000_000_000_000,
            max_total_value: 1_000_000_000_000_000,
            min_validators: 4,
            optimal_size: 100_000_000_000,
        }
    }
}

/// Why a shard or the shard manager refused a request.
#[derive(Debug, Clone, Copy, PartialEq, Eq)]
pub enum ShardingError {
    /// The shard holds as many validators as its configuration's count.
    ValidatorsFull,
    /// The shard holds no more validators than its configuration's count.
    ValidatorsAtMinimum,
    /// A shard with this id exists already.
    ShardExists(ShardId),
    /// No shard has this id.
    ShardNotFound(ShardId),
}

impl ShardingError {
    /// The message of the error.
    pub fn message(&self) -> (r: String)
        ensures
            r@ == match *self {
                ShardingError::ValidatorsFull => "Maximum number of validators reached"@,
                ShardingError::ValidatorsAtMinimum => "Cannot remove validator: minimum number reached"@,
                ShardingError::ShardExists(_) => "Shard already exists"@,
                ShardingError::ShardNotFound(_) => "Shard not found"@,
            },
    {
        match self {
            ShardingError::ValidatorsFull => String::from_str("Maximum number of validators reached"),
            ShardingError::ValidatorsAtMinimum => String::from_str(
                "Cannot remove validator: minimum number reached",
            ),
            ShardingError::ShardExists(_) => String::from_str("Shard already exists"),
            ShardingError::ShardNotFound(_) => String::from_str("Shard not found"),
        }
    }
}

/// A shard: its id, its limits, its validators and its accounts.
#[derive(Debug)]
pub struct Shard {
    pub id: ShardId,
    pub config: ShardConfig,
    pub validators: Vec<String>,
    pub accounts: KeyedVec<AccountId, Account>,
}

/// What a shard holds.
pub struct ShardView {
    pub id: ShardId,
    pub config: ShardConfig,
    pub validators: Seq<Seq<char>>,
    pub accounts: Map<Seq<u8>, AccountView>,
}

impl View for Shard {
    type V = ShardView;

    open spec fn view(&self) -> ShardView {
        ShardView {
            id: self.id,
            config: self.config,
            validators: self.validators@.map_values(|v: String| v@),
            accounts: self.accounts@,
        }
    }
}

/// A new shard: no validator, no account.
pub open spec fn fresh_shard(id: ShardId, config: ShardConfig) -> ShardView {
    ShardView { id, config, validators: Seq::empty(), accounts: Map::empty() }
}

impl Shard {
    /// The shard's invariant: its accounts are well formed.
    pub open spec fn wf(&self) -> bool {
        self.accounts.wf()
    }

    /// A new shard with no validator and no account.
    pub fn new(id: ShardId, config: ShardConfig) -> (r: Self)
        ensures
            r.wf(),
            r@ == fresh_shard(id, config),
    {
        let r = Shard { id, config, validators: Vec::new(), accounts: KeyedVec::new() };
        assert(r@.validators =~= Seq::<Seq<char>>::empty());
        r
    }

    /// Adds a validator at the end; refused once the shard holds as many validators as its
    /// configuration's validator count.
    pub fn add_validator(&mut self, validator_id: String) -> (r: Result<(), ShardingError>)
        ensures
            final(self).id == old(self).id,
            final(self).config == old(self).config,
            final(self).accounts == old(self).accounts,
            old(self).validators@.len() >= old(self).config.min_validators ==> {
                &&& r == Err::<(), ShardingError>(ShardingError::ValidatorsFull)
                &&& final(self)@ == old(self)@
            },
            old(self).validators@.len() < old(self).config.min_validators ==> {
                &&& r is Ok
                &&& final(self)@.validators == old(self)@.validators.push(validator_id@)
            },
    {
        if self.validators.len() >= self.config.min_validators as usize {
            return Err(ShardingError::ValidatorsFull);
        }
        self.validators.push(validator_id);
        proof {
            assert(self@.validators =~= old(self)@.validators.push(validator_id@));
        }
        Ok(())
    }

    /// Removes every validator named `validator_id`; refused while the shard holds no more
    /// validators than its configuration's validator count.
    pub fn remove_validator(&mut self, validator_id: &str) -> (r: Result<(), ShardingError>)
        ensures
            final(self).id == old(self).id,
            final(self).config == old(self).config,
            final(self).accounts == old(self).accounts,
            old(self).validators@.len() <= old(self).config.min_validators ==> {
                &&& r == Err::<(), ShardingError>(ShardingError::ValidatorsAtMinimum)
                &&& final(self)@ == old(self)@
            },
            old(self).validators@.len() > old(self).config.min_validators ==> {
                &&& r is Ok
                &&& final(self)@.validators == old(self)@.validators.filter(
                    |v: Seq<char>| v != validator_id@,
                )
            },
    {
        if self.validators.len() <= self.config.min_validators as usize {
            return Err(ShardingError::ValidatorsAtMinimum);
        }
        let ghost before = old(self)@.validators;
        let ghost keep = |v: Seq<char>| v != validator_id@;
        let target = String::from_str(validator_id);
        let mut kept: Vec<String> = Vec::new();
        let mut i: usize = 0;
        while i < self.validators.len()
            invariant
                i <= self.validators@.len(),
                before == self.validators@.map_values(|v: String| v@),
                target@ == validator_id@,
                keep == (|v: Seq<char>| v != validator_id@),
                kept@.map_values(|v: String| v@) == before.take(i as int).filter(keep),
            decreases self.validators@.len() - i,
        {
            proof {
                reveal(Seq::filter);
                assert(before.take(i + 1).drop_last() =~= before.take(i as int));
            }
            let same = self.validators[i] == target;
            if !same {
                kept.push(self.validators[i].clone());
                proof {
                    assert(kept@.map_values(|v: String| v@) =~= before.take(i as int).filter(keep).push(
                        before[i as int],
                    ));
                }
            } else {
                proof {
                    assert(self.validators@[i as int]@ == validator_id@);
                }
            }
            i = i + 1;
        }
        proof {
            assert(before.take(i as int) =~= before);
        }
        self.validators = kept;
        Ok(())
    }
}

/// The shard ids that one scaling pass creates, and the one it was refused, if any: for each
/// id of `ids` in turn that `overloaded` names, the shard `2 * id + 1` is created, until one
/// of these exists already.
pub open spec fn scale_plan(dom: Set<ShardId>, ids: Seq<ShardId>, overloaded: Seq<ShardId>) -> (
    Set<ShardId>,
    Option<ShardId>,
)
    decreases ids.len(),
{
    if ids.len() == 0 {
        (dom, None)
    } else {
        let prev = scale_plan(dom, ids.drop_last(), overloaded);
        let id = ids.last();
        let child = (2 * id + 1) as ShardId;
        if prev.1 is Some || !overloaded.contains(id) {
            prev
        } else if prev.0.contains(child) {
            (prev.0, Some(child))
        } else {
            (prev.0.insert(child), None)
        }
    }
}

proof fn lemma_plan_stops(dom: Set<ShardId>, ids: Seq<ShardId>, overloaded: Seq<ShardId>, j: int, k: int)
    requires
        0 <= j <= k <= ids.len(),
        scale_plan(dom, ids.take(j), overloaded).1 is Some,
    ensures
        scale_plan(dom, ids.take(k), overloaded) == scale_plan(dom, ids.take(j), overloaded),
    decreases k - j,
{
    if k > j {
        lemma_plan_stops(dom, ids, overloaded, j, k - 1);
        assert(ids.take(k).drop_last() =~= ids.take(k - 1));
    }
}

/// A scaling pass creates only children of overloaded shards: every shard id it adds is
/// `2 * id + 1` for some listed id that `overloaded` names.
pub proof fn law_scaling_creates_children(dom: Set<ShardId>, ids: Seq<ShardId>, overloaded: Seq<ShardId>, k: ShardId)
    requires
        scale_plan(dom, ids, overloaded).0.contains(k),
        !dom.contains(k),
    ensures
        exists|m: int|
            0 <= m < ids.len() && overloaded.contains(#[trigger] ids[m]) && k == (2 * ids[m] + 1) as ShardId,
    decreases ids.len(),
{
    if ids.len() > 0 {
        let prev = scale_plan(dom, ids.drop_last(), overloaded);
        if prev.0.contains(k) {
            law_scaling_creates_children(dom, ids.drop_last(), overloaded, k);
            let m = choose|m: int|
                0 <= m < ids.drop_last().len() && overloaded.contains(#[trigger] ids.drop_last()[m])
                    && k == (2 * ids.drop_last()[m] + 1) as ShardId;
            assert(ids[m] == ids.drop_last()[m]);
        } else {
            assert(ids[ids.len() - 1] == ids.last());
        }
    }
}

/// Once `remove_validator` has succeeded, the validator is no longer among the validators,
/// and the list has not grown.
pub proof fn law_removed_validator_is_gone(validators: Seq<Seq<char>>, id: Seq<char>)
    ensures
        !validators.filter(|v: Seq<char>| v != id).contains(id),
        validators.filter(|v: Seq<char>| v != id).len() <= validators.len(),
    decreases validators.len(),
{
    reveal(Seq::filter);
    let keep = |v: Seq<char>| v != id;
    if validators.len() > 0 {
        law_removed_validator_is_gone(validators.drop_last(), id);
        let rest = validators.drop_last().filter(keep);
        if keep(validators.last()) {
            assert forall|m: int| 0 <= m < rest.push(validators.last()).len() implies rest.push(validators.last())[m] != id by {
                if m < rest.len() {
                    assert(!rest.contains(id));
                    if rest[m] == id {
                        assert(rest.contains(id));
                    }
                }
            }
        }
    }
}

/// The shards of a node, by id.
#[derive(Debug)]
pub struct ShardManager {
    shards: KeyedVec<ShardId, Shard>,
    config: ShardConfig,
}

impl ShardManager {
    /// The shards, by id.
    pub closed spec fn shards_view(&self) -> Map<ShardId, ShardView> {
        self.shards@
    }

    /// The ids of the shards, in the order they were created.
    pub closed spec fn shard_order(&self) -> Seq<ShardId> {
        self.shards.entries().map_values(|e: (ShardId, Shard)| e.0)
    }

    /// The limits every new shard gets.
    pub closed spec fn shard_config(&self) -> ShardConfig {
        self.config
    }

    /// The manager's invariant.
    pub closed spec fn wf(&self) -> bool {
        &&& self.shards.wf()
        &&& forall|i: int| 0 <= i < self.shards.entries().len() ==> (#[trigger] self.shards.entries()[i]).1.wf()
    }

    /// A manager with the default limits and one shard, shard 0.
    pub fn new() -> (r: Self)
        ensures
            r.wf(),
            r.shard_config() == default_shard_config(),
            r.shards_view() == Map::<ShardId, ShardView>::empty().insert(0, fresh_shard(0, r.shard_config())),
    {
        let config = ShardConfig::default();
        let mut shards: KeyedVec<ShardId, Shard> = KeyedVec::new();
        let first = Shard::new(0, config);
        let ghost g = first;
        shards.insert(0, first);
        let r = ShardManager { shards, config };
        proof {
            assert(r.shards_view() =~= Map::<ShardId, ShardView>::empty().insert(0, fresh_shard(0, config)));
            assert forall|i: int| 0 <= i < r.shards.entries().len() implies (#[trigger] r.shards.entries()[i]).1.wf() by {
                assert(r.shards.entries()[i] == (0u32, g));
            }
        }
        r
    }

    /// The limits every new shard gets.
    pub fn config(&self) -> (r: ShardConfig)
        ensures
            r == self.shard_config(),
    {
        self.config
    }

    /// The ids of the shards, in the order they were created.
    pub fn shard_ids(&self) -> (r: Vec<ShardId>)
        ensures
            r@ == self.shard_order(),
    {
        let entries = self.shards.as_entries();
        let mut ids: Vec<ShardId> = Vec::new();
        let mut j: usize = 0;
        while j < entries.len()
            invariant
                j <= entries@.len(),
                entries@ == self.shards.entries(),
                ids@ == entries@.take(j as int).map_values(|e: (ShardId, Shard)| e.0),
            decreases entries@.len() - j,
        {
            ids.push(entries[j].0);
            proof {
                assert(entries@.take(j + 1).map_values(|e: (ShardId, Shard)| e.0) =~= entries@.take(
                    j as int,
                ).map_values(|e: (ShardId, Shard)| e.0).push(entries@[j as int].0));
            }
            j = j + 1;
        }
        proof {
            assert(entries@.take(j as int) =~= entries@);
        }
        ids
    }

    /// Creates shard `id` with the manager's limits; refused when it exists.
    pub fn create_shard(&mut self, id: ShardId) -> (r: Result<(), ShardingError>)
        requires
            old(self).wf(),
        ensures
            final(self).wf(),
            final(self).shard_config() == old(self).shard_config(),
            old(self).shards_view().contains_key(id) ==> {
                &&& r == Err::<(), ShardingError>(ShardingError::ShardExists(id))
                &&& final(self).shards_view() == old(self).shards_view()
                &&& final(self).shard_order() == old(self).shard_order()
            },
            !old(self).shards_view().contains_key(id) ==> {
                &&& r is Ok
                &&& final(self).shards_view() == old(self).shards_view().insert(
                    id,
                    fresh_shard(id, old(self).shard_config()),
                )
                &&& final(self).shard_order() == old(self).shard_order().push(id)
            },
    {
        if self.shards.get(&id).is_some() {
            return Err(ShardingError::ShardExists(id));
        }
        let shard = Shard::new(id, self.config);
        let ghost g = shard;
        let ghost before = self.shards.entries();
        self.shards.insert(id, shard);
        proof {
            assert forall|i: int| 0 <= i < self.shards.entries().len() implies (#[trigger] self.shards.entries()[i]).1.wf() by {
                if self.shards.entries()[i] != (id, g) {
                    let j = choose|j: int| 0 <= j < before.len() && before[j] == self.shards.entries()[i];
                    assert(before[j].1.wf());
                }
            }
            assert(self.shard_order() =~= old(self).shard_order().push(id));
        }
        Ok(())
    }

    /// The shard with id `id`.
    pub fn get_shard(&self, id: ShardId) -> (r: Result<&Shard, ShardingError>)
        requires
            self.wf(),
        ensures
            self.shards_view().contains_key(id) ==> (r matches Ok(s) && s@ == self.shards_view()[id]
                && s.wf()),
            !self.shards_view().contains_key(id) ==> r == Err::<&Shard, ShardingError>(
                ShardingError::ShardNotFound(id),
            ),
    {
        match self.shards.get(&id) {
            Some(s) => Ok(s),
            None => Err(ShardingError::ShardNotFound(id)),
        }
    }

    /// Scales the overloaded shards: for each shard, in the order they were created, that
    /// `overloaded` names, shard `2 * id + 1` is created; the first refusal ends the pass and
    /// is returned. Which shards are overloaded is the caller's measurement.
    pub fn check_and_scale(&mut self, overloaded: &[ShardId]) -> (r: Result<(), ShardingError>)
        requires
            old(self).wf(),
            forall|k: ShardId|
                old(self).shards_view().contains_key(k) && overloaded@.contains(k) ==> 2 * k + 1
                    <= u32::MAX,
        ensures
            final(self).wf(),
            final(self).shard_config() == old(self).shard_config(),
            final(self).shards_view().dom() == scale_plan(
                old(self).shards_view().dom(),
                old(self).shard_order(),
                overloaded@,
            ).0,
            r == match scale_plan(old(self).shards_view().dom(), old(self).shard_order(), overloaded@).1 {
                None => Ok::<(), ShardingError>(()),
                Some(c) => Err(ShardingError::ShardExists(c)),
            },
            forall|k: ShardId|
                old(self).shards_view().contains_key(k) ==> #[trigger] final(self).shards_view()[k]
                    == old(self).shards_view()[k],
            forall|k: ShardId|
                #[trigger] final(self).shards_view().contains_key(k) && !old(self).shards_view().contains_key(k)
                    ==> final(self).shards_view()[k] == fresh_shard(k, old(self).shard_config()),
    {
        let ghost dom0 = self.shards_view().dom();
        let ghost view0 = self.shards_view();
        let ids = self.shard_ids();
        proof {
            self.shards.lemma_view();
            assert forall|m: int| 0 <= m < ids@.len() implies dom0.contains(#[trigger] ids@[m]) by {
                assert(ids@[m] == self.shards.entries()[m].0);
                assert(crate::keyed::has_key(self.shards.entries(), ids@[m]));
            }
            assert(ids@.take(0) =~= Seq::<ShardId>::empty());
        }
        let mut i: usize = 0;
        while i < ids.len()
            invariant
                self.wf(),
                self.shard_config() == old(self).shard_config(),
                ids@ == old(self).shard_order(),
                dom0 == old(self).shards_view().dom(),
                view0 == old(self).shards_view(),
                forall|m: int| 0 <= m < ids@.len() ==> dom0.contains(#[trigger] ids@[m]),
                forall|k: ShardId| dom0.contains(k) && overloaded@.contains(k) ==> 2 * k + 1 <= u32::MAX,
                i <= ids@.len(),
                scale_plan(dom0, ids@.take(i as int), overloaded@).1 is None,
                self.shards_view().dom() == scale_plan(dom0, ids@.take(i as int), overloaded@).0,
                forall|k: ShardId| dom0.contains(k) ==> #[trigger] self.shards_view().contains_key(k),
                forall|k: ShardId| dom0.contains(k) ==> #[trigger] self.shards_view()[k] == view0[k],
                forall|k: ShardId|
                    #[trigger] self.shards_view().contains_key(k) && !dom0.contains(k)
                        ==> self.shards_view()[k] == fresh_shard(k, self.shard_config()),
            decreases ids@.len() - i,
        {
            let id = ids[i];
            proof {
                assert(ids@.take(i + 1).drop_last() =~= ids@.take(i as int));
                assert(dom0.contains(id));
            }
            if slice_names(overloaded, id) {
                let child = id * 2 + 1;
                match self.create_shard(child) {
                    Ok(()) => {
                        proof {
                            assert(self.shards_view().dom() =~= scale_plan(dom0, ids@.take(i + 1), overloaded@).0);
                        }
                    },
                    Err(e) => {
                        proof {
                            lemma_plan_stops(dom0, ids@, overloaded@, i + 1, ids@.len() as int);
                            assert(ids@.take(ids@.len() as int) =~= ids@);
                        }
                        return Err(e);
                    },
                }
            }
            i = i + 1;
        }
        proof {
            assert(ids@.take(i as int) =~= ids@);
        }
        Ok(())
    }

    /// Processes a cross-shard transaction: nothing is done yet, and it succeeds.
    pub fn process_cross_shard_tx(&self, tx: &[u8]) -> (r: Result<(), ShardingError>)
        ensures
            r is Ok,
    {
        Ok(())
    }
}

/// Whether `ids` holds `id`.
fn slice_names(ids: &[ShardId], id: ShardId) -> (r: bool)
    ensures
        r == ids@.contains(id),
{
    let mut i: usize = 0;
    while i < ids.len()
        invariant
            i <= ids@.len(),
            forall|m: int| 0 <= m < i ==> ids@[m] != id,
        decreases ids@.len() - i,
    {
        if ids[i] == id {
            return true;
        }
        i = i + 1;
    }
    false
}


} // verus!
