use vstd::prelude::*;
use crate::keyed::KeyedVec;
use crate::node::types::Address;

verus! {

/// The state of a contract: a key-value storage, balances by address, and named metadata.
pub struct ContractState {
    storage: KeyedVec<Vec<u8>, Vec<u8>>,
    balances: KeyedVec<Address, u64>,
    metadata: KeyedVec<String, Vec<u8>>,
}

/// What a contract state holds.
pub struct ContractStateView {
    pub storage: Map<Seq<u8>, Seq<u8>>,
    pub balances: Map<Seq<u8>, u64>,
    pub metadata: Map<Seq<char>, Seq<u8>>,
}

/// The balance an address holds: 0 where none was set.
pub open spec fn balance_of(balances: Map<Seq<u8>, u64>, a: Seq<u8>) -> u64 {
    if balances.contains_key(a) {
        balances[a]
    } else {
        0
    }
}

impl View for ContractState {
    type V = ContractStateView;

    closed spec fn view(&self) -> ContractStateView {
        ContractStateView { storage: self.storage@, balances: self.balances@, metadata: self.metadata@ }
    }
}

impl ContractState {
    pub closed spec fn wf(&self) -> bool {
        self.storage.wf() && self.balances.wf() && self.metadata.wf()
    }

    /// Creates an empty state.
    pub fn new() -> (r: Self)
        ensures
            r.wf(),
            r@.storage == Map::<Seq<u8>, Seq<u8>>::empty(),
            r@.balances == Map::<Seq<u8>, u64>::empty(),
            r@.metadata == Map::<Seq<char>, Seq<u8>>::empty(),
    {
        ContractState { storage: KeyedVec::new(), balances: KeyedVec::new(), metadata: KeyedVec::new() }
    }

    /// Sets the value stored under `key`.
    pub fn set(&mut self, key: &[u8], value: Vec<u8>)
        requires
            old(self).wf(),
        ensures
            final(self).wf(),
            final(self)@.storage == old(self)@.storage.insert(key@, value@),
            final(self)@.balances == old(self)@.balances,
            final(self)@.metadata == old(self)@.metadata,
    {
        let k = crate::bytes::bytes_to_vec(key);
        self.storage.insert(k, value);
    }

    /// The value stored under `key`, if any.
    pub fn get(&self, key: &[u8]) -> (r: Option<&Vec<u8>>)
        requires
            self.wf(),
        ensures
            r is Some <==> self@.storage.contains_key(key@),
            r matches Some(v) ==> v@ == self@.storage[key@],
    {
        let k = crate::bytes::bytes_to_vec(key);
        self.storage.get(&k)
    }

    /// Removes the value stored under `key`, returning it.
    pub fn remove(&mut self, key: &[u8]) -> (r: Option<Vec<u8>>)
        requires
            old(self).wf(),
        ensures
            final(self).wf(),
            final(self)@.storage == old(self)@.storage.remove(key@),
            final(self)@.balances == old(self)@.balances,
            final(self)@.metadata == old(self)@.metadata,
            r is Some <==> old(self)@.storage.contains_key(key@),
            r matches Some(v) ==> v@ == old(self)@.storage[key@],
    {
        let k = crate::bytes::bytes_to_vec(key);
        self.storage.remove(&k)
    }

    /// Sets the balance of `address`.
    pub fn set_balance(&mut self, address: &Address, amount: u64)
        requires
            old(self).wf(),
        ensures
            final(self).wf(),
            final(self)@.balances == old(self)@.balances.insert(address@, amount),
            final(self)@.storage == old(self)@.storage,
            final(self)@.metadata == old(self)@.metadata,
    {
        self.balances.insert(*address, amount);
    }

    /// The balance of `address`: 0 where none was set.
    pub fn get_balance(&self, address: &Address) -> (r: u64)
        requires
            self.wf(),
        ensures
            r == balance_of(self@.balances, address@),
    {
        match self.balances.get(address) {
            Some(b) => *b,
            None => 0,
        }
    }

    /// Adds `amount` to the balance of `address`.
    pub fn add_balance(&mut self, address: &Address, amount: u64)
        requires
            old(self).wf(),
            balance_of(old(self)@.balances, address@) + amount <= u64::MAX,
        ensures
            final(self).wf(),
            final(self)@.balances == old(self)@.balances.insert(
                address@,
                (balance_of(old(self)@.balances, address@) + amount) as u64,
            ),
            final(self)@.storage == old(self)@.storage,
            final(self)@.metadata == old(self)@.metadata,
    {
        let balance = self.get_balance(address);
        self.set_balance(address, balance + amount);
    }

    /// Subtracts `amount` from the balance of `address` if it holds that much; says whether it did.
    pub fn sub_balance(&mut self, address: &Address, amount: u64) -> (r: bool)
        requires
            old(self).wf(),
        ensures
            final(self).wf(),
            r == (balance_of(old(self)@.balances, address@) >= amount),
            r ==> final(self)@.balances == old(self)@.balances.insert(
                address@,
                (balance_of(old(self)@.balances, address@) - amount) as u64,
            ),
            !r ==> final(self)@.balances == old(self)@.balances,
            final(self)@.storage == old(self)@.storage,
            final(self)@.metadata == old(self)@.metadata,
    {
        let balance = self.get_balance(address);
        if balance >= amount {
            self.set_balance(address, balance - amount);
            true
        } else {
            false
        }
    }

    /// Sets the metadata entry `key`.
    pub fn set_metadata(&mut self, key: &str, value: Vec<u8>)
        requires
            old(self).wf(),
        ensures
            final(self).wf(),
            final(self)@.metadata == old(self)@.metadata.insert(key@, value@),
            final(self)@.storage == old(self)@.storage,
            final(self)@.balances == old(self)@.balances,
    {
        self.metadata.insert(key.to_owned(), value);
    }

    /// The metadata entry `key`, if any.
    pub fn get_metadata(&self, key: &str) -> (r: Option<&Vec<u8>>)
        requires
            self.wf(),
        ensures
            r is Some <==> self@.metadata.contains_key(key@),
            r matches Some(v) ==> v@ == self@.metadata[key@],
    {
        let k = key.to_owned();
        self.metadata.get(&k)
    }

    /// Removes the metadata entry `key`, returning it.
    pub fn remove_metadata(&mut self, key: &str) -> (r: Option<Vec<u8>>)
        requires
            old(self).wf(),
        ensures
            final(self).wf(),
            final(self)@.metadata == old(self)@.metadata.remove(key@),
            final(self)@.storage == old(self)@.storage,
            final(self)@.balances == old(self)@.balances,
            r is Some <==> old(self)@.metadata.contains_key(key@),
            r matches Some(v) ==> v@ == old(self)@.metadata[key@],
    {
        let k = key.to_owned();
        self.metadata.remove(&k)
    }
}

/// A value set under a key is what a read of that key gives back, and other keys keep theirs.
pub proof fn law_get_after_set(s: Map<Seq<u8>, Seq<u8>>, key: Seq<u8>, value: Seq<u8>, other: Seq<u8>)
    requires
        other != key,
    ensures
        s.insert(key, value).contains_key(key),
        s.insert(key, value)[key] == value,
        s.insert(key, value).contains_key(other) == s.contains_key(other),
        s.contains_key(other) ==> s.insert(key, value)[other] == s[other],
{
}

/// Subtracting what was just added gives the balance back.
pub proof fn law_add_then_sub_balance(balances: Map<Seq<u8>, u64>, a: Seq<u8>, amount: u64)
    requires
        balance_of(balances, a) + amount <= u64::MAX,
    ensures
        ({
            let added = balances.insert(a, (balance_of(balances, a) + amount) as u64);
            &&& balance_of(added, a) >= amount
            &&& balance_of(added.insert(a, (balance_of(added, a) - amount) as u64), a) == balance_of(balances, a)
        }),
{
}

} // verus!
