use vstd::prelude::*;
use crate::node::types::Address;
use crate::legacy::contract::{CallInfo, Contract, ContractType, ContractConfig, ContractInfo, ExecutionContext, ExecutionResult};
use crate::legacy::contract::state::ContractState;
use crate::legacy::contract::error::ContractError;
use crate::codec::u64_to_le;
use crate::random::random_u64;

verus! {

/// A multi-signature wallet.
pub struct MultisigWallet {
    owner: Address,
    state: ContractState,
}

/// A staking contract.
pub struct StakingContract {
    owner: Address,
    state: ContractState,
}

/// A token swap contract.
pub struct SwapContract {
    owner: Address,
    state: ContractState,
}

impl MultisigWallet {
    /// The owner of the contract.
    pub closed spec fn owner_of(&self) -> Address {
        self.owner
    }

    /// The state the contract holds.
    pub closed spec fn held_state(&self) -> ContractState {
        self.state
    }

    /// A wallet of `owner` with an empty state.
    pub fn new(owner: Address) -> (r: Self)
        ensures
            r.owner_of() == owner,
            r.held_state().wf(),
            r.held_state()@.storage.len() == 0 && r.held_state()@.balances.len() == 0 && r.held_state()@.metadata.len() == 0,
    {
        MultisigWallet { owner, state: ContractState::new() }
    }
}

impl StakingContract {
    /// The owner of the contract.
    pub closed spec fn owner_of(&self) -> Address {
        self.owner
    }

    /// The state the contract holds.
    pub closed spec fn held_state(&self) -> ContractState {
        self.state
    }

    /// A staking contract of `owner` with an empty state.
    pub fn new(owner: Address) -> (r: Self)
        ensures
            r.owner_of() == owner,
            r.held_state().wf(),
            r.held_state()@.storage.len() == 0 && r.held_state()@.balances.len() == 0 && r.held_state()@.metadata.len() == 0,
    {
        StakingContract { owner, state: ContractState::new() }
    }
}

impl SwapContract {
    /// The owner of the contract.
    pub closed spec fn owner_of(&self) -> Address {
        self.owner
    }

    /// The state the contract holds.
    pub closed spec fn held_state(&self) -> ContractState {
        self.state
    }

    /// A swap contract of `owner` with an empty state.
    pub fn new(owner: Address) -> (r: Self)
        ensures
            r.owner_of() == owner,
            r.held_state().wf(),
            r.held_state()@.storage.len() == 0 && r.held_state()@.balances.len() == 0 && r.held_state()@.metadata.len() == 0,
    {
        SwapContract { owner, state: ContractState::new() }
    }
}

impl Contract for MultisigWallet {
    fn initialize(&mut self, params: &[u8]) -> (r: Result<(), ContractError>)
        ensures
            r is Ok,
    {
        Ok(())
    }

    fn execute(&mut self, function: &str, params: &[u8]) -> (r: Result<Vec<u8>, ContractError>)
        ensures
            r matches Ok(v) && v@.len() == 0,
    {
        Ok(Vec::new())
    }

    fn view(&self, function: &str, params: &[u8]) -> (r: Result<Vec<u8>, ContractError>)
        ensures
            r matches Ok(v) && v@.len() == 0,
    {
        Ok(Vec::new())
    }

    fn state(&self) -> (r: &ContractState)
        ensures
            *r == self.held_state(),
    {
        &self.state
    }

    fn set_state(&mut self, state: ContractState)
        ensures
            final(self).held_state() == state,
    {
        self.state = state;
    }
}

impl Contract for StakingContract {
    fn initialize(&mut self, params: &[u8]) -> (r: Result<(), ContractError>)
        ensures
            r is Ok,
    {
        Ok(())
    }

    fn execute(&mut self, function: &str, params: &[u8]) -> (r: Result<Vec<u8>, ContractError>)
        ensures
            r matches Ok(v) && v@.len() == 0,
    {
        Ok(Vec::new())
    }

    fn view(&self, function: &str, params: &[u8]) -> (r: Result<Vec<u8>, ContractError>)
        ensures
            r matches Ok(v) && v@.len() == 0,
    {
        Ok(Vec::new())
    }

    fn state(&self) -> (r: &ContractState)
        ensures
            *r == self.held_state(),
    {
        &self.state
    }

    fn set_state(&mut self, state: ContractState)
        ensures
            final(self).held_state() == state,
    {
        self.state = state;
    }
}

impl Contract for SwapContract {
    fn initialize(&mut self, params: &[u8]) -> (r: Result<(), ContractError>)
        ensures
            r is Ok,
    {
        Ok(())
    }

    fn execute(&mut self, function: &str, params: &[u8]) -> (r: Result<Vec<u8>, ContractError>)
        ensures
            r matches Ok(v) && v@.len() == 0,
    {
        Ok(Vec::new())
    }

    fn view(&self, function: &str, params: &[u8]) -> (r: Result<Vec<u8>, ContractError>)
        ensures
            r matches Ok(v) && v@.len() == 0,
    {
        Ok(Vec::new())
    }

    fn state(&self) -> (r: &ContractState)
        ensures
            *r == self.held_state(),
    {
        &self.state
    }

    fn set_state(&mut self, state: ContractState)
        ensures
            final(self).held_state() == state,
    {
        self.state = state;
    }
}

/// The factory of custom contracts: none is supported yet, so it always fails.
pub fn create_custom_contract(name: &str, owner: Address) -> (r: Result<Box<dyn Contract>, ContractError>)
    ensures
        r matches Err(ContractError::InternalError(m)) && m@ == "Custom contracts not implemented yet"@,
{
    Err(ContractError::InternalError(String::from_str("Custom contracts not implemented yet")))
}

/// The contract a deployment creates for its kind, owned by `owner` and initialised with
/// `params`; custom kinds fail as `create_custom_contract` does, and the built-in kinds always
/// initialise.
pub fn instantiate_initialized(contract_type: &ContractType, owner: Address, params: &[u8]) -> (r: Result<
    Box<dyn Contract>,
    ContractError,
>)
    ensures
        r is Ok <==> !(contract_type is Custom),
        contract_type is Custom ==> (r matches Err(ContractError::InternalError(m)) && m@ == "Custom contracts not implemented yet"@),
{
    match contract_type {
        ContractType::Multisig => {
            let mut c = MultisigWallet::new(owner);
            match c.initialize(params) {
                Ok(()) => Ok(Box::new(c)),
                Err(e) => Err(e),
            }
        },
        ContractType::Staking => {
            let mut c = StakingContract::new(owner);
            match c.initialize(params) {
                Ok(()) => Ok(Box::new(c)),
                Err(e) => Err(e),
            }
        },
        ContractType::Swap => {
            let mut c = SwapContract::new(owner);
            match c.initialize(params) {
                Ok(()) => Ok(Box::new(c)),
                Err(e) => Err(e),
            }
        },
        ContractType::Custom(name) => create_custom_contract(name.as_str(), owner),
    }
}

/// An address of 32 random bytes; nothing is known of which.
fn random_address() -> Address {
    let a = u64_to_le(random_u64());
    let b = u64_to_le(random_u64());
    let c = u64_to_le(random_u64());
    let d = u64_to_le(random_u64());
    Address::new(
        [
            a[0], a[1], a[2], a[3], a[4], a[5], a[6], a[7],
            b[0], b[1], b[2], b[3], b[4], b[5], b[6], b[7],
            c[0], c[1], c[2], c[3], c[4], c[5], c[6], c[7],
            d[0], d[1], d[2], d[3], d[4], d[5], d[6], d[7],
        ],
    )
}

/// The record of a contract deployed at `address`: created and updated at the block's time.
pub fn deployment_info(address: Address, config: ContractConfig, context: &ExecutionContext) -> (r: ContractInfo)
    ensures
        r.address == address,
        r.contract_type == config.contract_type,
        r.owner == config.owner,
        r.created_at == context.block_info.timestamp,
        r.updated_at == context.block_info.timestamp,
{
    ContractInfo {
        address,
        contract_type: config.contract_type,
        owner: config.owner,
        created_at: context.block_info.timestamp,
        updated_at: context.block_info.timestamp,
    }
}

/// The addresses of a list of contracts.
pub open spec fn address_views(a: Seq<Address>) -> Seq<Seq<u8>> {
    a.map_values(|x: Address| x@)
}

/// The contracts deployed, by address, over a storage engine `S`: the contract at position
/// `i` of `contracts` is the one deployed at position `i` of `addresses`.
pub struct ContractEngine<S> {
    storage: S,
    addresses: Vec<Address>,
    contracts: Vec<Box<dyn Contract>>,
}

/// The message of a call to an address where no contract is deployed.
pub open spec fn not_found_message() -> Seq<char> {
    "Contract not found"@
}

impl<S> ContractEngine<S> {
    /// The addresses of the deployed contracts, in order of first deployment.
    pub closed spec fn deployed(&self) -> Seq<Seq<u8>> {
        address_views(self.addresses@)
    }

    /// Whether each address appears once.
    pub closed spec fn wf(&self) -> bool {
        self.deployed().no_duplicates()
    }

    /// An engine with no contract.
    pub fn new(storage: S) -> (r: Self)
        ensures
            r.wf(),
            r.deployed() == Seq::<Seq<u8>>::empty(),
            r.storage_of() == storage,
    {
        let r = ContractEngine { storage, addresses: Vec::new(), contracts: Vec::new() };
        assert(r.deployed() =~= Seq::<Seq<u8>>::empty());
        r
    }

    /// The storage engine.
    pub closed spec fn storage_of(&self) -> S {
        self.storage
    }

    /// The storage engine, borrowed.
    pub fn engine(&self) -> (r: &S)
        ensures
            *r == self.storage_of(),
    {
        &self.storage
    }

    /// The position of the contract at `address`, if any.
    fn position(&self, address: &Address) -> (r: Option<usize>)
        ensures
            r is None <==> !self.deployed().contains(address@),
            r matches Some(i) ==> i < self.deployed().len() && self.deployed()[i as int] == address@,
    {
        let mut i: usize = 0;
        while i < self.addresses.len()
            invariant
                i <= self.addresses@.len(),
                forall|j: int| 0 <= j < i ==> self.deployed()[j] != address@,
            decreases self.addresses@.len() - i,
        {
            assert(self.deployed()[i as int] == self.addresses@[i as int]@);
            if self.addresses[i].same_as(address) {
                return Some(i);
            }
            i = i + 1;
        }
        proof {
            if self.deployed().contains(address@) {
                let j = choose|j: int| 0 <= j < self.deployed().len() && self.deployed()[j] == address@;
                assert(self.deployed()[j] != address@);
            }
        }
        None
    }

    /// Deploys a contract of the kind `config` asks for at a newly drawn random address (32
    /// random bytes), as `deploy_at` does there. Which address is drawn is not known; a draw
    /// that meets an address in use replaces the contract there, as `deploy_at` says.
    pub fn deploy(&mut self, config: ContractConfig, context: &ExecutionContext) -> (r: Result<
        ContractInfo,
        ContractError,
    >)
        requires
            old(self).wf(),
        ensures
            final(self).wf(),
            r is Ok <==> !(config.contract_type is Custom),
            config.contract_type is Custom ==> (r matches Err(ContractError::InternalError(m)) && m@
                == "Custom contracts not implemented yet"@),
            r is Err ==> final(self).deployed() == old(self).deployed(),
            r matches Ok(info) ==> info.contract_type == config.contract_type && info.owner == config.owner
                && info.created_at == context.block_info.timestamp && info.updated_at == context.block_info.timestamp,
            r matches Ok(info) ==> final(self).deployed() == if old(self).deployed().contains(info.address@) {
                old(self).deployed()
            } else {
                old(self).deployed().push(info.address@)
            },
    {
        let address = random_address();
        self.deploy_at(config, context, address)
    }

    /// Deploys a contract of the kind `config` asks for at `address`, initialised with the
    /// configuration's parameters, and returns its record, stamped with the block's time. A
    /// custom kind, or a failed initialisation, deploys nothing. A contract already at
    /// `address` is replaced.
    pub fn deploy_at(&mut self, config: ContractConfig, context: &ExecutionContext, address: Address) -> (r: Result<
        ContractInfo,
        ContractError,
    >)
        requires
            old(self).wf(),
        ensures
            final(self).wf(),
            config.contract_type is Custom ==> (r matches Err(ContractError::InternalError(m)) && m@
                == "Custom contracts not implemented yet"@),
            r is Ok <==> !(config.contract_type is Custom),
            r is Err ==> final(self).deployed() == old(self).deployed(),
            r matches Ok(info) ==> info.address == address && info.contract_type == config.contract_type
                && info.owner == config.owner && info.created_at == context.block_info.timestamp
                && info.updated_at == context.block_info.timestamp,
            r is Ok ==> final(self).deployed() == if old(self).deployed().contains(address@) {
                old(self).deployed()
            } else {
                old(self).deployed().push(address@)
            },
    {
        let contract = match instantiate_initialized(&config.contract_type, config.owner, config.params.as_slice()) {
            Ok(c) => c,
            Err(e) => {
                return Err(e);
            },
        };
        let info = deployment_info(address, config, context);
        match self.position(&address) {
            Some(i) => {
                if i < self.contracts.len() {
                    self.contracts.set(i, contract);
                }
            },
            None => {
                let ghost before = self.deployed();
                let ghost a0 = self.addresses@;
                self.addresses.push(address);
                self.contracts.push(contract);
                proof {
                    assert forall|j: int| 0 <= j <= before.len() implies self.deployed()[j] == before.push(address@)[j] by {
                        assert(self.deployed()[j] == self.addresses@[j]@);
                        if j < before.len() {
                            assert(before[j] == a0[j]@);
                        }
                    }
                    assert(self.deployed() =~= before.push(address@));
                    assert forall|a: int, b: int| 0 <= a < b < self.deployed().len() implies self.deployed()[a] != self.deployed()[b] by {
                        if b == before.len() {
                            assert(before[a] == self.deployed()[a]);
                        } else {
                            assert(before[a] == self.deployed()[a] && before[b] == self.deployed()[b]);
                        }
                    }
                }
            },
        }
        Ok(info)
    }

    /// Calls a function of the contract at `call_info.contract`: its return value, no event,
    /// and the gas used between the two readings of the block's gas limit (none yet). Refused
    /// where no contract is there; a failing function fails the call.
    pub fn call(&mut self, call_info: &CallInfo, context: &ExecutionContext) -> (r: Result<
        ExecutionResult,
        ContractError,
    >)
        requires
            old(self).wf(),
        ensures
            final(self).wf(),
            final(self).deployed() == old(self).deployed(),
            !old(self).deployed().contains(call_info.contract@) ==> (r matches Err(ContractError::InvalidAddress(m))
                && m@ == not_found_message()),
            r matches Ok(res) ==> res.events@.len() == 0 && res.gas_used == 0,
    {
        match self.position(&call_info.contract) {
            Some(i) => {
                if i >= self.contracts.len() {
                    return Err(ContractError::InvalidAddress(String::from_str("Contract not found")));
                }
                let start_gas = context.block_info.gas_limit;
                let mut c = self.contracts.remove(i);
                let outcome = c.execute(call_info.function.as_str(), call_info.params.as_slice());
                if i <= self.contracts.len() {
                    self.contracts.insert(i, c);
                } else {
                    self.contracts.push(c);
                }
                let end_gas = context.block_info.gas_limit;
                match outcome {
                    Ok(v) => Ok(call_outcome(v, start_gas, end_gas)),
                    Err(e) => Err(e),
                }
            },
            None => Err(ContractError::InvalidAddress(String::from_str("Contract not found"))),
        }
    }

    /// Reads through a function of the contract at `call_info.contract`; refused where no
    /// contract is there.
    pub fn view(&self, call_info: &CallInfo) -> (r: Result<Vec<u8>, ContractError>)
        ensures
            !self.deployed().contains(call_info.contract@) ==> (r matches Err(ContractError::InvalidAddress(m))
                && m@ == not_found_message()),
    {
        match self.position(&call_info.contract) {
            Some(i) => {
                if i < self.contracts.len() {
                    self.contracts[i].view(call_info.function.as_str(), call_info.params.as_slice())
                } else {
                    Err(ContractError::InvalidAddress(String::from_str("Contract not found")))
                }
            },
            None => Err(ContractError::InvalidAddress(String::from_str("Contract not found"))),
        }
    }
}

/// The outcome of a call: the returned value, no event, and the gas consumed between the two
/// readings of the block's gas limit.
pub fn call_outcome(return_value: Vec<u8>, start_gas: u64, end_gas: u64) -> (r: ExecutionResult)
    requires
        end_gas <= start_gas,
    ensures
        r.return_value == return_value,
        r.events@.len() == 0,
        r.gas_used == start_gas - end_gas,
{
    ExecutionResult { return_value, events: Vec::new(), gas_used: start_gas - end_gas }
}

} // verus!
