use vstd::prelude::*;
use crate::keyed::{DeepClone, KeyEq, KeyedVec};
use crate::node::types::Address;
use crate::token::contract::ContractModule;
use crate::token::{TokenError, TokenId, TokenType};

verus! {

/// The whole-number economic parameters of a token.
#[derive(Debug, Clone, Copy, PartialEq, Eq)]
pub struct TokenomicsParams {
    pub max_supply: u64,
    /// The fee in basis points.
    pub fee: u64,
    /// The least staking period, in seconds.
    pub min_staking_period: u64,
    pub initial_liquidity: u64,
    pub min_liquidity: u64,
}

/// The settings a token is made from.
pub struct TokenConfig {
    pub name: String,
    pub symbol: String,
    pub decimals: u8,
    pub total_supply: u64,
    pub token_type: TokenType,
    pub economics: TokenomicsParams,
    pub modules: Vec<ContractModule>,
}

/// An owner and a spender that the owner allows to move its tokens.
#[derive(Debug, Clone, Copy, PartialEq, Eq, Hash)]
pub struct AllowanceKey {
    pub owner: Address,
    pub spender: Address,
}

impl View for AllowanceKey {
    type V = (Seq<u8>, Seq<u8>);

    open spec fn view(&self) -> (Seq<u8>, Seq<u8>) {
        (self.owner@, self.spender@)
    }
}

impl KeyEq for AllowanceKey {
    fn key_eq(&self, other: &Self) -> (r: bool) {
        self.owner.same_as(&other.owner) && self.spender.same_as(&other.spender)
    }
}

impl DeepClone for AllowanceKey {
    fn deep_clone(&self) -> (r: Self) {
        *self
    }
}

/// The balance of `a`: zero where it has none.
pub open spec fn balance_in(m: Map<Seq<u8>, u64>, a: Seq<u8>) -> u64 {
    if m.contains_key(a) {
        m[a]
    } else {
        0
    }
}

/// The amount `spender` may move for `owner`: zero where none was approved.
pub open spec fn allowance_in(m: Map<(Seq<u8>, Seq<u8>), u64>, owner: Seq<u8>, spender: Seq<u8>) -> u64 {
    if m.contains_key((owner, spender)) {
        m[(owner, spender)]
    } else {
        0
    }
}

/// The balances after `amount` moves from `from` to `to`: the sender's balance is lowered
/// first, then the receiver's (as it then stands) raised.
pub open spec fn transferred(m: Map<Seq<u8>, u64>, from: Seq<u8>, to: Seq<u8>, amount: u64) -> Map<
    Seq<u8>,
    u64,
> {
    let m1 = m.insert(from, (balance_in(m, from) - amount) as u64);
    m1.insert(to, (balance_in(m1, to) + amount) as u64)
}

/// Whether the receiver's new balance fits a `u64`.
pub open spec fn transfer_fits(m: Map<Seq<u8>, u64>, from: Seq<u8>, to: Seq<u8>, amount: u64) -> bool {
    let m1 = m.insert(from, (balance_in(m, from) - amount) as u64);
    balance_in(m1, to) + amount <= u64::MAX
}

/// A token with balances, allowances and attached contract modules.
pub struct StandardToken {
    id: TokenId,
    name: String,
    symbol: String,
    decimals: u8,
    total_supply: u64,
    token_type: TokenType,
    balances: KeyedVec<Address, u64>,
    allowances: KeyedVec<AllowanceKey, u64>,
    modules: KeyedVec<String, ContractModule>,
}

/// What a token holds: its header (id, name, symbol, decimals, supply, kind), its balances,
/// its allowances and the names of its modules.
pub struct StandardTokenView {
    pub header: (Seq<u8>, Seq<char>, Seq<char>, u8, u64, TokenType),
    pub balances: Map<Seq<u8>, u64>,
    pub allowances: Map<(Seq<u8>, Seq<u8>), u64>,
    pub module_names: Set<Seq<char>>,
}

impl View for StandardToken {
    type V = StandardTokenView;

    open spec fn view(&self) -> StandardTokenView {
        StandardTokenView {
            header: self.header(),
            balances: self.balances(),
            allowances: self.allowances(),
            module_names: self.module_names(),
        }
    }
}

impl StandardToken {
    /// The balances, by address.
    pub closed spec fn balances(&self) -> Map<Seq<u8>, u64> {
        self.balances@
    }

    /// The allowances, by (owner, spender).
    pub closed spec fn allowances(&self) -> Map<(Seq<u8>, Seq<u8>), u64> {
        self.allowances@
    }

    /// The names of the attached modules.
    pub closed spec fn module_names(&self) -> Set<Seq<char>> {
        self.modules@.dom()
    }

    /// The token's id, name, symbol, decimals, supply and kind.
    pub closed spec fn header(&self) -> (Seq<u8>, Seq<char>, Seq<char>, u8, u64, TokenType) {
        (self.id@, self.name@, self.symbol@, self.decimals, self.total_supply, self.token_type)
    }

    /// Whether the token's maps are well formed.
    pub closed spec fn wf(&self) -> bool {
        self.balances.wf() && self.allowances.wf() && self.modules.wf()
    }

    /// A token with the settings of `config`, the id `[0]`, and no balance, allowance or
    /// module.
    pub fn new(config: TokenConfig) -> (r: Self)
        ensures
            r.wf(),
            r.header() == (seq![0u8], config.name@, config.symbol@, config.decimals, config.total_supply, config.token_type),
            r.balances() == Map::<Seq<u8>, u64>::empty(),
            r.allowances() == Map::<(Seq<u8>, Seq<u8>), u64>::empty(),
            r.module_names() == Set::<Seq<char>>::empty(),
    {
        let mut id_bytes: Vec<u8> = Vec::new();
        id_bytes.push(0u8);
        let r = StandardToken {
            id: TokenId::new(id_bytes),
            name: config.name,
            symbol: config.symbol,
            decimals: config.decimals,
            total_supply: config.total_supply,
            token_type: config.token_type,
            balances: KeyedVec::new(),
            allowances: KeyedVec::new(),
            modules: KeyedVec::new(),
        };
        assert(r.id@ =~= seq![0u8]);
        assert(r.modules@.dom() =~= Set::<Seq<char>>::empty());
        r
    }

    /// The token's id.
    pub fn id(&self) -> (r: TokenId)
        ensures
            r@ == self.header().0,
    {
        self.id.deep_clone()
    }

    /// The token's name.
    pub fn name(&self) -> (r: &str)
        ensures
            r@ == self.header().1,
    {
        self.name.as_str()
    }

    /// The token's symbol.
    pub fn symbol(&self) -> (r: &str)
        ensures
            r@ == self.header().2,
    {
        self.symbol.as_str()
    }

    /// The number of decimals.
    pub fn decimals(&self) -> (r: u8)
        ensures
            r == self.header().3,
    {
        self.decimals
    }

    /// The total supply.
    pub fn total_supply(&self) -> (r: u64)
        ensures
            r == self.header().4,
    {
        self.total_supply
    }

    /// The kind of token.
    pub fn token_type(&self) -> (r: TokenType)
        ensures
            r == self.header().5,
    {
        self.token_type
    }

    /// The balance of `address`: zero where it has none.
    pub fn balance_of(&self, address: &Address) -> (r: u64)
        requires
            self.wf(),
        ensures
            r == balance_in(self.balances(), address@),
    {
        match self.balances.get(address) {
            Some(b) => *b,
            None => 0,
        }
    }

    /// Moves `amount` from `from` to `to`; refused, changing nothing, where `from` holds less.
    pub fn transfer(&mut self, from: &Address, to: &Address, amount: u64) -> (r: Result<(), TokenError>)
        requires
            old(self).wf(),
            balance_in(old(self).balances(), from@) >= amount ==> transfer_fits(
                old(self).balances(),
                from@,
                to@,
                amount,
            ),
        ensures
            final(self).wf(),
            final(self).allowances() == old(self).allowances(),
            final(self).module_names() == old(self).module_names(),
            final(self).header() == old(self).header(),
            balance_in(old(self).balances(), from@) < amount ==> r == Err::<(), TokenError>(
                TokenError::InsufficientBalance,
            ) && final(self).balances() == old(self).balances(),
            balance_in(old(self).balances(), from@) >= amount ==> r is Ok && final(self).balances()
                == transferred(old(self).balances(), from@, to@, amount),
    {
        let from_balance = self.balance_of(from);
        if from_balance < amount {
            return Err(TokenError::InsufficientBalance);
        }
        self.balances.insert(*from, from_balance - amount);
        let to_balance = self.balance_of(to);
        self.balances.insert(*to, to_balance + amount);
        Ok(())
    }

    /// Allows `spender` to move up to `amount` of `owner`'s tokens, replacing any earlier
    /// allowance.
    pub fn approve(&mut self, owner: &Address, spender: &Address, amount: u64)
        requires
            old(self).wf(),
        ensures
            final(self).wf(),
            final(self).balances() == old(self).balances(),
            final(self).module_names() == old(self).module_names(),
            final(self).header() == old(self).header(),
            final(self).allowances() == old(self).allowances().insert((owner@, spender@), amount),
    {
        self.allowances.insert(AllowanceKey { owner: *owner, spender: *spender }, amount);
    }

    /// The amount `spender` may move for `owner`: zero where none was approved.
    pub fn allowance(&self, owner: &Address, spender: &Address) -> (r: u64)
        requires
            self.wf(),
        ensures
            r == allowance_in(self.allowances(), owner@, spender@),
    {
        match self.allowances.get(&AllowanceKey { owner: *owner, spender: *spender }) {
            Some(a) => *a,
            None => 0,
        }
    }

    /// `spender` moves `amount` of `owner`'s tokens to `to`, within its allowance, which then
    /// shrinks by `amount`. Refused, changing nothing, where the allowance or the balance is
    /// too small (the allowance is checked first).
    pub fn transfer_from(&mut self, owner: &Address, spender: &Address, to: &Address, amount: u64) -> (r:
        Result<(), TokenError>)
        requires
            old(self).wf(),
            balance_in(old(self).balances(), owner@) >= amount ==> transfer_fits(
                old(self).balances(),
                owner@,
                to@,
                amount,
            ),
        ensures
            final(self).wf(),
            final(self).module_names() == old(self).module_names(),
            final(self).header() == old(self).header(),
            ({
                let allowed = allowance_in(old(self).allowances(), owner@, spender@);
                let held = balance_in(old(self).balances(), owner@);
                if allowed < amount {
                    &&& r == Err::<(), TokenError>(TokenError::InsufficientAllowance)
                    &&& final(self).balances() == old(self).balances()
                    &&& final(self).allowances() == old(self).allowances()
                } else if held < amount {
                    &&& r == Err::<(), TokenError>(TokenError::InsufficientBalance)
                    &&& final(self).balances() == old(self).balances()
                    &&& final(self).allowances() == old(self).allowances()
                } else {
                    &&& r is Ok
                    &&& final(self).balances() == transferred(old(self).balances(), owner@, to@, amount)
                    &&& final(self).allowances() == old(self).allowances().insert(
                        (owner@, spender@),
                        (allowed - amount) as u64,
                    )
                }
            }),
    {
        let allowed = self.allowance(owner, spender);
        if allowed < amount {
            return Err(TokenError::InsufficientAllowance);
        }
        match self.transfer(owner, to, amount) {
            Ok(()) => {},
            Err(e) => {
                return Err(e);
            },
        }
        self.allowances.insert(AllowanceKey { owner: *owner, spender: *spender }, allowed - amount);
        Ok(())
    }

    /// Takes new settings; nothing is changed yet.
    pub fn update_config(&mut self, _config: TokenConfig) -> (r: Result<(), TokenError>)
        ensures
            r is Ok,
            *final(self) == *old(self),
    {
        Ok(())
    }

    /// Takes new economic parameters; nothing is changed yet.
    pub fn update_economics(&mut self, _params: TokenomicsParams) -> (r: Result<(), TokenError>)
        ensures
            r is Ok,
            *final(self) == *old(self),
    {
        Ok(())
    }

    /// Attaches a module under its name, replacing any module of that name.
    pub fn add_module(&mut self, module: ContractModule)
        requires
            old(self).wf(),
        ensures
            final(self).wf(),
            final(self).balances() == old(self).balances(),
            final(self).allowances() == old(self).allowances(),
            final(self).header() == old(self).header(),
            final(self).module_names() == old(self).module_names().insert(module@),
    {
        let name = String::from_str(module.name());
        self.modules.insert(name, module);
    }

    /// Detaches the module named `module_name`, if any.
    pub fn remove_module(&mut self, module_name: &str)
        requires
            old(self).wf(),
        ensures
            final(self).wf(),
            final(self).balances() == old(self).balances(),
            final(self).allowances() == old(self).allowances(),
            final(self).header() == old(self).header(),
            final(self).module_names() == old(self).module_names().remove(module_name@),
    {
        let name = String::from_str(module_name);
        let _ = self.modules.remove(&name);
    }
}

/// A transfer between two distinct accounts moves exactly the amount: the sender loses it,
/// the receiver gains it, and every other account keeps its balance.
pub proof fn law_transfer_conserves(m: Map<Seq<u8>, u64>, from: Seq<u8>, to: Seq<u8>, amount: u64, other: Seq<u8>)
    requires
        from != to,
        balance_in(m, from) >= amount,
        transfer_fits(m, from, to, amount),
    ensures
        balance_in(transferred(m, from, to, amount), from) == balance_in(m, from) - amount,
        balance_in(transferred(m, from, to, amount), to) == balance_in(m, to) + amount,
        other != from && other != to ==> balance_in(transferred(m, from, to, amount), other)
            == balance_in(m, other),
{
}

/// A transfer to oneself leaves every balance as it was, once the sender has an entry.
pub proof fn law_self_transfer_keeps_balance(m: Map<Seq<u8>, u64>, a: Seq<u8>, amount: u64, other: Seq<u8>)
    requires
        balance_in(m, a) >= amount,
    ensures
        balance_in(transferred(m, a, a, amount), other) == balance_in(m, other),
{
}

/// What was approved is what the allowance then reads, and no other pair's allowance moves.
pub proof fn law_allowance_reads_approval(
    m: Map<(Seq<u8>, Seq<u8>), u64>,
    owner: Seq<u8>,
    spender: Seq<u8>,
    amount: u64,
    o2: Seq<u8>,
    s2: Seq<u8>,
)
    ensures
        allowance_in(m.insert((owner, spender), amount), owner, spender) == amount,
        (o2, s2) != (owner, spender) ==> allowance_in(m.insert((owner, spender), amount), o2, s2)
            == allowance_in(m, o2, s2),
{
}

} // verus!
