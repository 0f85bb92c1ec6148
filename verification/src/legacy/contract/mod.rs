pub mod state;
pub mod error;
pub mod engine;
pub mod context;

use vstd::prelude::*;
use crate::node::types::Address;
use crate::legacy::contract::state::ContractState;
use crate::legacy::contract::error::ContractError;

verus! {

/// The interface of a smart contract.
pub trait Contract {
    /// Initializes the contract with its parameters.
    fn initialize(&mut self, params: &[u8]) -> Result<(), ContractError>;

    /// Runs a function of the contract.
    fn execute(&mut self, function: &str, params: &[u8]) -> Result<Vec<u8>, ContractError>;

    /// Reads the state through a function of the contract.
    fn view(&self, function: &str, params: &[u8]) -> Result<Vec<u8>, ContractError>;

    /// The state of the contract.
    fn state(&self) -> &ContractState;

    /// Replaces the state of the contract.
    fn set_state(&mut self, state: ContractState)
        requires
            state.wf(),
    ;
}

/// The kinds of contracts.
#[derive(Debug, Clone)]
pub enum ContractType {
    Multisig,
    Staking,
    Swap,
    Custom(String),
}

/// What a deployment asks for.
#[derive(Debug)]
pub struct ContractConfig {
    pub contract_type: ContractType,
    pub owner: Address,
    pub params: Vec<u8>,
}

/// What is known of a deployed contract.
#[derive(Debug)]
pub struct ContractInfo {
    pub address: Address,
    pub contract_type: ContractType,
    pub owner: Address,
    pub created_at: u64,
    pub updated_at: u64,
}

/// An event a contract emits.
#[derive(Debug)]
pub struct ContractEvent {
    pub contract_address: Address,
    pub name: String,
    pub params: Vec<u8>,
    pub timestamp: u64,
}

/// The outcome of a contract call.
#[derive(Debug)]
pub struct ExecutionResult {
    pub return_value: Vec<u8>,
    pub events: Vec<ContractEvent>,
    pub gas_used: u64,
}

/// A call of a contract function.
#[derive(Debug)]
pub struct CallInfo {
    pub caller: Address,
    pub contract: Address,
    pub function: String,
    pub params: Vec<u8>,
    pub value: u64,
    pub gas_limit: u64,
}

/// The block a call runs in.
#[derive(Debug, Clone, Copy)]
pub struct BlockInfo {
    pub number: u64,
    pub timestamp: u64,
    pub gas_limit: u64,
}

/// The transaction a call runs in.
#[derive(Debug)]
pub struct TxInfo {
    pub id: Vec<u8>,
    pub sender: Address,
    pub gas_price: u64,
}

/// The context of a contract call.
#[derive(Debug)]
pub struct ExecutionContext {
    pub call_info: CallInfo,
    pub block_info: BlockInfo,
    pub tx_info: TxInfo,
}

} // verus!
