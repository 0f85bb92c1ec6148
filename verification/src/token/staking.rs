use vstd::prelude::*;
use crate::clock::unix_now_secs;
use crate::codec::{bincode_stakes_read, decode_stakes, encode_stakes, le8, le_value, stake_rows, u64_from_le, u64_to_le};
use crate::keyed::{entries_map, unique_keys, KeyedVec};
use crate::text::push_str;
use crate::token::contract::{Contract, ContractEvent, ContractState};
use crate::token::TokenId;

verus! {

/// How a staking contract rewards a stake held for the whole staking period: from the amount
/// staked and the reward rate, given as the raw bits of the rate's eight bytes.
pub trait RewardRule {
    fn reward(&self, amount: u64, rate_bits: u64) -> u64;
}

/// The stakes that rows stand for, by address: a later row of an address replaces an earlier
/// one.
pub open spec fn stakes_map(rows: Seq<(Seq<u8>, u64, u64)>) -> Map<Seq<u8>, (u64, u64)>
    decreases rows.len(),
{
    if rows.len() == 0 {
        Map::empty()
    } else {
        let last = rows.last();
        stakes_map(rows.drop_last()).insert(last.0, (last.1, last.2))
    }
}

/// The stakes (amount, start) that contract variables hold: none where "stakes" is absent,
/// `None` where its bytes cannot be read.
pub open spec fn stakes_in(vars: Map<Seq<char>, Seq<u8>>) -> Option<Map<Seq<u8>, (u64, u64)>> {
    if vars.contains_key("stakes"@) {
        match bincode_stakes_read(vars["stakes"@]) {
            Some(rows) => Some(stakes_map(rows)),
            None => None,
        }
    } else {
        Some(Map::empty())
    }
}

/// The stakes with `address` staking `amount` from `start`.
pub open spec fn with_stake(m: Map<Seq<u8>, (u64, u64)>, address: Seq<u8>, amount: u64, start: u64) -> Map<
    Seq<u8>,
    (u64, u64),
> {
    m.insert(address, (amount, start))
}

/// Whether `e` is the event of `address` staking `amount`.
pub open spec fn stake_event(e: ContractEvent, address: Seq<u8>, amount: u64) -> bool {
    &&& e.name@ == "Stake"@
    &&& e.params@ == map!["address"@ => address, "amount"@ => le8(amount)]
}

/// Whether `e` is the event of `address` taking back `amount` with `reward`.
pub open spec fn unstake_event(e: ContractEvent, address: Seq<u8>, amount: u64, reward: u64) -> bool {
    &&& e.name@ == "Unstake"@
    &&& e.params@ == map!["address"@ => address, "amount"@ => le8(amount), "reward"@ => le8(reward)]
}

/// The seconds from `start` to `now`, counted modulo 2^64 as unsigned clock readings wrap.
pub open spec fn elapsed(now: u64, start: u64) -> int {
    if now >= start {
        now - start
    } else {
        now - start + 0x1_0000_0000_0000_0000
    }
}

/// Whether a stake from `start` taken back at `now` has run the staking period at a nonzero
/// rate, so that the reward rule decides its reward; otherwise the reward is zero.
pub open spec fn reward_due(now: u64, start: u64, period: u64, rate_bits: u64) -> bool {
    elapsed(now, start) >= period && rate_bits != 0
}

/// Whether staking `amount` for `address` at `now` took the contract from `vars0`, `events0`
/// to `vars1`, `events1`: the stake (amount, now) replaces any earlier one of the address, and
/// the "Stake" event, stamped `now`, is logged.
pub open spec fn staked_at(
    vars0: Map<Seq<char>, Seq<u8>>,
    vars1: Map<Seq<char>, Seq<u8>>,
    events0: Seq<ContractEvent>,
    events1: Seq<ContractEvent>,
    address: Seq<u8>,
    amount: u64,
    now: u64,
) -> bool {
    &&& stakes_in(vars0) is Some
    &&& stakes_in(vars1) == Some(with_stake(stakes_in(vars0)->0, address, amount, now))
    &&& events1.len() == events0.len() + 1 && events1.drop_last() == events0
    &&& stake_event(events1.last(), address, amount)
    &&& events1.last().timestamp == now
}

/// Whether taking back the stake of `address` at `now` took the contract from `vars0`,
/// `events0` to `vars1`, `events1`: the stake is dropped and the "Unstake" event, stamped
/// `now`, is logged with its amount and a reward that is zero unless `reward_due`.
pub open spec fn unstaked_at(
    vars0: Map<Seq<char>, Seq<u8>>,
    vars1: Map<Seq<char>, Seq<u8>>,
    events0: Seq<ContractEvent>,
    events1: Seq<ContractEvent>,
    address: Seq<u8>,
    now: u64,
    period: u64,
    rate_bits: u64,
) -> bool {
    &&& stakes_in(vars0) matches Some(m)
    &&& m.contains_key(address)
    &&& stakes_in(vars1) == Some(m.remove(address))
    &&& events1.len() == events0.len() + 1 && events1.drop_last() == events0
    &&& events1.last().timestamp == now
    &&& exists|reward: u64| #[trigger] unstake_event(events1.last(), address, m[address].0, reward)
        && (!reward_due(now, m[address].1, period, rate_bits) ==> reward == 0)
}

/// Whether the parameters hold an "address" of 32 bytes.
pub open spec fn address_ok(params: Map<Seq<char>, Seq<u8>>) -> bool {
    params.contains_key("address"@) && params["address"@].len() == 32
}

/// Whether the parameters hold an "amount" of eight bytes.
pub open spec fn amount_ok(params: Map<Seq<char>, Seq<u8>>) -> bool {
    params.contains_key("amount"@) && params["amount"@].len() == 8
}

/// Whether a "stake" call with `params` staked, at some reading of the clock, the amount
/// (parameter "amount", little-endian) for the address (parameter "address").
#[verifier::opaque]
pub open spec fn staked(
    vars0: Map<Seq<char>, Seq<u8>>,
    vars1: Map<Seq<char>, Seq<u8>>,
    events0: Seq<ContractEvent>,
    events1: Seq<ContractEvent>,
    params: Map<Seq<char>, Seq<u8>>,
) -> bool {
    &&& address_ok(params) && amount_ok(params)
    &&& exists|now: u64| #[trigger] staked_at(vars0, vars1, events0, events1, params["address"@], le_value(params["amount"@]) as u64, now)
}

/// Whether an "unstake" call with `params` took back, at some reading of the clock, the stake
/// of the address (parameter "address").
#[verifier::opaque]
pub open spec fn unstaked(
    vars0: Map<Seq<char>, Seq<u8>>,
    vars1: Map<Seq<char>, Seq<u8>>,
    events0: Seq<ContractEvent>,
    events1: Seq<ContractEvent>,
    params: Map<Seq<char>, Seq<u8>>,
    period: u64,
    rate_bits: u64,
) -> bool {
    &&& address_ok(params)
    &&& exists|now: u64| #[trigger] unstaked_at(vars0, vars1, events0, events1, params["address"@], now, period, rate_bits)
}

/// The message of a parameter of the wrong length.
pub open spec fn conversion_error() -> Seq<char> {
    "could not convert slice to array"@
}

/// Stakes lists each address once: its rows stand for the map of its entries.
proof fn lemma_rows_map(e: Seq<([u8; 32], (u64, u64))>)
    requires
        unique_keys(e),
    ensures
        stakes_map(stake_rows(e)) == entries_map(e),
    decreases e.len(),
{
    if e.len() > 0 {
        let p = e.drop_last();
        assert(unique_keys(p)) by {
            assert forall|x: int, y: int| 0 <= x < p.len() && 0 <= y < p.len() && x != y implies (#[trigger] p[x]).0@
                != (#[trigger] p[y]).0@ by {
                assert(p[x] == e[x] && p[y] == e[y]);
            }
        }
        lemma_rows_map(p);
        assert(stake_rows(e).drop_last() =~= stake_rows(p));
        KeyedVec::<[u8; 32], (u64, u64)>::lemma_prefix_map(e, e.len() - 1);
        assert(e.subrange(0, e.len() as int) =~= e);
        assert(e.subrange(0, e.len() - 1) =~= p);
    }
}

/// A staking contract of a token: stakes are kept, encoded, in the variable "stakes"; a stake
/// held for the staking period earns the reward that `rule` gives.
pub struct StakingContract<R> {
    token_id: TokenId,
    state: ContractState,
    staking_period: u64,
    reward_rate_bits: u64,
    rule: R,
}

/// The eight bytes of parameter `key`, or `missing` where it is absent, or the conversion
/// error where it is not eight bytes long.
fn param8(params: &KeyedVec<String, Vec<u8>>, key: &str, missing: &str) -> (r: Result<[u8; 8], String>)
    requires
        params.wf(),
    ensures
        !params@.contains_key(key@) ==> (r matches Err(m) && m@ == missing@),
        params@.contains_key(key@) && params@[key@].len() != 8 ==> (r matches Err(m) && m@ == conversion_error()),
        params@.contains_key(key@) && params@[key@].len() == 8 ==> (r matches Ok(b) && b@ == params@[key@]),
{
    match params.get(&String::from_str(key)) {
        None => Err(String::from_str(missing)),
        Some(v) => {
            if v.len() != 8 {
                Err(String::from_str("could not convert slice to array"))
            } else {
                let b = [v[0], v[1], v[2], v[3], v[4], v[5], v[6], v[7]];
                assert(b@ =~= v@);
                Ok(b)
            }
        },
    }
}

/// The 32 bytes of parameter "address", or the errors as for `param8`.
fn param_address(params: &KeyedVec<String, Vec<u8>>) -> (r: Result<[u8; 32], String>)
    requires
        params.wf(),
    ensures
        !params@.contains_key("address"@) ==> (r matches Err(m) && m@ == "Missing address"@),
        params@.contains_key("address"@) && params@["address"@].len() != 32 ==> (r matches Err(m) && m@
            == conversion_error()),
        params@.contains_key("address"@) && params@["address"@].len() == 32 ==> (r matches Ok(b) && b@
            == params@["address"@]),
{
    match params.get(&String::from_str("address")) {
        None => Err(String::from_str("Missing address")),
        Some(v) => {
            if v.len() != 32 {
                Err(String::from_str("could not convert slice to array"))
            } else {
                let b = [v[0], v[1], v[2], v[3], v[4], v[5], v[6], v[7], v[8], v[9], v[10], v[11], v[12], v[13], v[14], v[15], v[16], v[17], v[18], v[19], v[20], v[21], v[22], v[23], v[24], v[25], v[26], v[27], v[28], v[29], v[30], v[31]];
                assert(b@ =~= v@);
                Ok(b)
            }
        },
    }
}

/// Seconds since the Unix epoch by the system clock, or the clock's error before the epoch;
/// nothing else is known of the reading.
fn current_time() -> (r: Result<u64, String>) {
    match unix_now_secs() {
        Some(t) => Ok(t),
        None => Err(String::from_str("second time provided was later than self")),
    }
}

impl<R> StakingContract<R> {
    #[verifier::type_invariant]
    spec fn inv(&self) -> bool {
        self.state.variables.wf()
    }
}

impl<R: RewardRule> StakingContract<R> {
    /// The contract's variables.
    pub closed spec fn vars(&self) -> Map<Seq<char>, Seq<u8>> {
        self.state.variables@
    }

    /// The events the contract logged, in order.
    pub closed spec fn events(&self) -> Seq<ContractEvent> {
        self.state.events@
    }

    /// The staking period, in seconds.
    pub closed spec fn period(&self) -> u64 {
        self.staking_period
    }

    /// The reward rate, as the raw bits of its eight bytes.
    pub closed spec fn rate_bits(&self) -> u64 {
        self.reward_rate_bits
    }

    /// The token the contract belongs to.
    pub closed spec fn token(&self) -> TokenId {
        self.token_id
    }

    /// A staking contract of token `token_id` with no stake, no event, a period and rate of
    /// zero, rewarding by `rule`.
    pub fn new(token_id: TokenId, rule: R) -> (r: Self)
        ensures
            r.token() == token_id,
            r.vars() == Map::<Seq<char>, Seq<u8>>::empty(),
            r.events().len() == 0,
            r.period() == 0,
            r.rate_bits() == 0,
    {
        StakingContract {
            token_id,
            state: ContractState { variables: KeyedVec::new(), events: Vec::new() },
            staking_period: 0,
            reward_rate_bits: 0,
            rule,
        }
    }

    /// The stakes held in the variables.
    fn get_stakes(&self) -> (r: Result<KeyedVec<[u8; 32], (u64, u64)>, String>)
        ensures
            r is Ok <==> stakes_in(self.vars()) is Some,
            r matches Ok(s) ==> s.wf() && stakes_in(self.vars()) == Some(s@),
    {
        proof {
            use_type_invariant(self);
        }
        match self.state.variables.get(&String::from_str("stakes")) {
            None => Ok(KeyedVec::new()),
            Some(bytes) => {
                let rows = decode_stakes(bytes.as_slice())?;
                let mut stakes: KeyedVec<[u8; 32], (u64, u64)> = KeyedVec::new();
                let mut i: usize = 0;
                while i < rows.len()
                    invariant
                        i <= rows@.len(),
                        stakes.wf(),
                        stakes@ == stakes_map(stake_rows(rows@.take(i as int))),
                    decreases rows@.len() - i,
                {
                    let (a, v) = rows[i];
                    stakes.insert(a, v);
                    proof {
                        assert(stake_rows(rows@.take(i as int + 1)).drop_last() =~= stake_rows(rows@.take(i as int)));
                    }
                    i = i + 1;
                }
                assert(rows@.take(rows@.len() as int) =~= rows@);
                Ok(stakes)
            },
        }
    }

    /// Writes `stakes` to the variables, encoded.
    fn set_stakes(&mut self, stakes: &KeyedVec<[u8; 32], (u64, u64)>)
        requires
            stakes.wf(),
        ensures
            stakes_in(final(self).vars()) == Some(stakes@),
            final(self).vars().dom() == old(self).vars().dom().insert("stakes"@),
            forall|k: Seq<char>| k != "stakes"@ && #[trigger] old(self).vars().contains_key(k)
                ==> final(self).vars()[k] == old(self).vars()[k],
            final(self).events() == old(self).events(),
            final(self).period() == old(self).period(),
            final(self).rate_bits() == old(self).rate_bits(),
            final(self).token() == old(self).token(),
    {
        let encoded = encode_stakes(stakes.as_entries().as_slice());
        let bytes = match encoded {
            Ok(b) => b,
            Err(_) => {
                proof {
                    assert(false);
                }
                Vec::new()
            },
        };
        proof {
            use_type_invariant(&*self);
        }
        let mut vars: KeyedVec<String, Vec<u8>> = KeyedVec::new();
        std::mem::swap(&mut vars, &mut self.state.variables);
        vars.insert(String::from_str("stakes"), bytes);
        std::mem::swap(&mut vars, &mut self.state.variables);
        proof {
            stakes.lemma_unique();
            stakes.lemma_view_entries();
            lemma_rows_map(stakes.entries());
        }
    }

    /// Logs `e` after the earlier events.
    fn log(&mut self, e: ContractEvent)
        ensures
            final(self).events() == old(self).events().push(e),
            final(self).vars() == old(self).vars(),
            final(self).period() == old(self).period(),
            final(self).rate_bits() == old(self).rate_bits(),
            final(self).token() == old(self).token(),
    {
        proof {
            use_type_invariant(&*self);
        }
        let mut events: Vec<ContractEvent> = Vec::new();
        std::mem::swap(&mut events, &mut self.state.events);
        events.push(e);
        std::mem::swap(&mut events, &mut self.state.events);
    }

    /// Stakes `amount` for `address` at `now` (seconds since the epoch): the stake replaces
    /// any earlier one of the address, and a "Stake" event stamped `now` is logged. Refused,
    /// with nothing changed, exactly where the stakes cannot be read.
    pub fn stake_at(&mut self, address: [u8; 32], amount: u64, now: u64) -> (r: Result<(), String>)
        ensures
            r is Ok <==> stakes_in(old(self).vars()) is Some,
            r is Err ==> final(self).vars() == old(self).vars() && final(self).events() == old(self).events(),
            r is Ok ==> staked_at(old(self).vars(), final(self).vars(), old(self).events(), final(self).events(), address@, amount, now),
            final(self).period() == old(self).period(),
            final(self).rate_bits() == old(self).rate_bits(),
            final(self).token() == old(self).token(),
    {
        let mut stakes = self.get_stakes()?;
        stakes.insert(address, (amount, now));
        self.set_stakes(&stakes);
        let mut params: KeyedVec<String, Vec<u8>> = KeyedVec::new();
        params.insert(String::from_str("address"), crate::bytes::bytes_to_vec(address.as_slice()));
        let amount_bytes = u64_to_le(amount);
        params.insert(String::from_str("amount"), crate::bytes::bytes_to_vec(amount_bytes.as_slice()));
        let ghost before = self.events();
        self.log(ContractEvent { name: String::from_str("Stake"), params, timestamp: now });
        assert(self.events().drop_last() =~= before);
        Ok(())
    }

    /// Takes back the stake of `address` at `now` (seconds since the epoch): an "Unstake" event
    /// stamped `now` is logged with the amount and the reward, then the stake is dropped. The
    /// reward is the rule's where the stake ran the staking period (the seconds counted modulo
    /// 2^64) at a nonzero rate, else zero. Refused, with nothing changed, where the stakes
    /// cannot be read or the address has no stake ("No stake found").
    pub fn unstake_at(&mut self, address: [u8; 32], now: u64) -> (r: Result<(), String>)
        ensures
            r is Ok <==> (stakes_in(old(self).vars()) matches Some(m) && m.contains_key(address@)),
            (stakes_in(old(self).vars()) matches Some(m) && !m.contains_key(address@)) ==> (r matches Err(e) && e@
                == "No stake found"@),
            r is Err ==> final(self).vars() == old(self).vars() && final(self).events() == old(self).events(),
            r is Ok ==> unstaked_at(old(self).vars(), final(self).vars(), old(self).events(), final(self).events(),
                address@, now, old(self).period(), old(self).rate_bits()),
            final(self).period() == old(self).period(),
            final(self).rate_bits() == old(self).rate_bits(),
            final(self).token() == old(self).token(),
    {
        let mut stakes = self.get_stakes()?;
        let (amount, start) = match stakes.remove(&address) {
            Some(v) => v,
            None => {
                return Err(String::from_str("No stake found"));
            },
        };
        let duration: u64 = if now >= start {
            now - start
        } else {
            (u64::MAX - (start - now)) + 1
        };
        let reward = if duration >= self.staking_period && self.reward_rate_bits != 0 {
            self.rule.reward(amount, self.reward_rate_bits)
        } else {
            0
        };
        let mut params: KeyedVec<String, Vec<u8>> = KeyedVec::new();
        params.insert(String::from_str("address"), crate::bytes::bytes_to_vec(address.as_slice()));
        let amount_bytes = u64_to_le(amount);
        params.insert(String::from_str("amount"), crate::bytes::bytes_to_vec(amount_bytes.as_slice()));
        let reward_bytes = u64_to_le(reward);
        params.insert(String::from_str("reward"), crate::bytes::bytes_to_vec(reward_bytes.as_slice()));
        let ghost before = self.events();
        self.log(ContractEvent { name: String::from_str("Unstake"), params, timestamp: now });
        proof {
            assert(self.events().drop_last() =~= before);
            assert(unstake_event(self.events().last(), address@, amount, reward));
        }
        self.set_stakes(&stakes);
        Ok(())
    }

    /// The "stake" function: parameters "address" (32 bytes) and "amount" (eight
    /// little-endian bytes); the stakes are read, then the clock.
    fn stake_call(&mut self, params: &KeyedVec<String, Vec<u8>>) -> (r: Result<Vec<u8>, String>)
        requires
            params.wf(),
        ensures
            r matches Ok(v) ==> v@.len() == 0,
            r is Err ==> final(self).vars() == old(self).vars() && final(self).events() == old(self).events(),
            !params@.contains_key("address"@) ==> (r matches Err(m) && m@ == "Missing address"@),
            params@.contains_key("address"@) && !address_ok(params@) ==> (r matches Err(m) && m@ == conversion_error()),
            address_ok(params@) && !params@.contains_key("amount"@) ==> (r matches Err(m) && m@ == "Missing amount"@),
            address_ok(params@) && params@.contains_key("amount"@) && !amount_ok(params@) ==> (r matches Err(m) && m@
                == conversion_error()),
            stakes_in(old(self).vars()) is None ==> r is Err,
            r is Ok ==> staked(old(self).vars(), final(self).vars(), old(self).events(), final(self).events(), params@),
            final(self).period() == old(self).period(),
            final(self).rate_bits() == old(self).rate_bits(),
    {
        let address = param_address(params)?;
        let amount = param8(params, "amount", "Missing amount")?;
        let value = u64_from_le(amount);
        let _ = self.get_stakes()?;
        let now = current_time()?;
        self.stake_at(address, value, now)?;
        assert(value == le_value(params@["amount"@]) as u64);
        assert(address@ == params@["address"@]);
        proof {
            reveal(staked);
            assert(staked_at(old(self).vars(), self.vars(), old(self).events(), self.events(), params@["address"@],
                le_value(params@["amount"@]) as u64, now));
        }
        Ok(Vec::new())
    }

    /// The "unstake" function: parameter "address" (32 bytes); the stakes are read and the
    /// stake looked up before the clock is read.
    fn unstake_call(&mut self, params: &KeyedVec<String, Vec<u8>>) -> (r: Result<Vec<u8>, String>)
        requires
            params.wf(),
        ensures
            r matches Ok(v) ==> v@.len() == 0,
            r is Err ==> final(self).vars() == old(self).vars() && final(self).events() == old(self).events(),
            !params@.contains_key("address"@) ==> (r matches Err(m) && m@ == "Missing address"@),
            params@.contains_key("address"@) && !address_ok(params@) ==> (r matches Err(m) && m@ == conversion_error()),
            address_ok(params@) && stakes_in(old(self).vars()) is None ==> r is Err,
            (stakes_in(old(self).vars()) matches Some(m) && address_ok(params@) && !m.contains_key(params@["address"@]))
                ==> (r matches Err(e) && e@ == "No stake found"@),
            r is Ok ==> unstaked(old(self).vars(), final(self).vars(), old(self).events(), final(self).events(), params@,
                old(self).period(), old(self).rate_bits()),
            final(self).period() == old(self).period(),
            final(self).rate_bits() == old(self).rate_bits(),
    {
        let address = param_address(params)?;
        let stakes = self.get_stakes()?;
        if stakes.get(&address).is_none() {
            return Err(String::from_str("No stake found"));
        }
        let now = current_time()?;
        self.unstake_at(address, now)?;
        assert(address@ == params@["address"@]);
        proof {
            reveal(unstaked);
            assert(unstaked_at(old(self).vars(), self.vars(), old(self).events(), self.events(), params@["address"@],
                now, old(self).period(), old(self).rate_bits()));
        }
        Ok(Vec::new())
    }
}

impl<R: RewardRule> Contract for StakingContract<R> {
    /// Reads the staking period and the reward rate, eight little-endian bytes each; a missing
    /// or ill-sized parameter is refused, the period staying set where only the rate fails.
    fn initialize(&mut self, params: KeyedVec<String, Vec<u8>>) -> (r: Result<(), String>)
        ensures
            !params@.contains_key("staking_period"@) ==> (r matches Err(m) && m@ == "Missing staking_period"@),
            r is Ok ==> params@.contains_key("staking_period"@) && params@.contains_key("reward_rate"@)
                && final(self).period() == le_value(params@["staking_period"@])
                && final(self).rate_bits() == le_value(params@["reward_rate"@]),
            params@.contains_key("staking_period"@) && params@["staking_period"@].len() == 8
                && params@.contains_key("reward_rate"@) && params@["reward_rate"@].len() == 8 ==> r is Ok,
            final(self).vars() == old(self).vars(),
            final(self).events() == old(self).events(),
    {
        proof {
            use_type_invariant(&*self);
        }
        let p = param8(&params, "staking_period", "Missing staking_period")?;
        self.staking_period = u64_from_le(p);
        let q = param8(&params, "reward_rate", "Missing reward_rate")?;
        self.reward_rate_bits = u64_from_le(q);
        Ok(())
    }

    /// Runs "stake" (parameters "address", 32 bytes, and "amount", eight little-endian bytes)
    /// or "unstake" (parameter "address"); both return nothing. Any other function is refused.
    fn execute(&mut self, function: &str, params: KeyedVec<String, Vec<u8>>) -> (r: Result<Vec<u8>, String>)
        ensures
            r matches Ok(v) ==> v@.len() == 0,
            r is Err ==> final(self).vars() == old(self).vars() && final(self).events() == old(self).events(),
            final(self).period() == old(self).period(),
            final(self).rate_bits() == old(self).rate_bits(),
            function@ != "stake"@ && function@ != "unstake"@ ==> (r matches Err(m) && m@ == "Unknown function: "@
                + function@),
            (function@ == "stake"@ || function@ == "unstake"@) && !params@.contains_key("address"@) ==> (r matches Err(m)
                && m@ == "Missing address"@),
            (function@ == "stake"@ || function@ == "unstake"@) && params@.contains_key("address"@) && !address_ok(params@)
                ==> (r matches Err(m) && m@ == conversion_error()),
            function@ == "stake"@ && address_ok(params@) && !params@.contains_key("amount"@) ==> (r matches Err(m) && m@
                == "Missing amount"@),
            function@ == "stake"@ && address_ok(params@) && params@.contains_key("amount"@) && !amount_ok(params@) ==> (
            r matches Err(m) && m@ == conversion_error()),
            function@ == "stake"@ && stakes_in(old(self).vars()) is None ==> r is Err,
            function@ == "stake"@ && r is Ok ==> staked(old(self).vars(), final(self).vars(), old(self).events(), final(self).events(), params@),
            function@ == "unstake"@ && stakes_in(old(self).vars()) is None ==> r is Err,
            (stakes_in(old(self).vars()) matches Some(m) && function@ == "unstake"@ && address_ok(params@)
                && !m.contains_key(params@["address"@])) ==> (r matches Err(e) && e@ == "No stake found"@),
            function@ == "unstake"@ && r is Ok ==> unstaked(old(self).vars(), final(self).vars(), old(self).events(), final(self).events(), params@,
                old(self).period(), old(self).rate_bits()),
    {
        proof {
            reveal_strlit("stake");
            reveal_strlit("unstake");
            assert("stake"@.len() != "unstake"@.len());
        }
        let f = function.to_owned();
        if f == String::from_str("stake") {
            self.stake_call(&params)
        } else if f == String::from_str("unstake") {
            self.unstake_call(&params)
        } else {
            let mut m = String::from_str("Unknown function: ");
            push_str(&mut m, function);
            Err(m)
        }
    }

    fn state(&self) -> &ContractState {
        &self.state
    }

    fn set_state(&mut self, state: ContractState) {
        self.state = state;
    }
}

} // verus!
