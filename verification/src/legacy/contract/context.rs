use vstd::prelude::*;
use crate::node::types::Address;

verus! {

/// The context a contract runs in: who calls, which contract, the block, and the gas.
pub struct ContractContext<M> {
    pub token_manager: M,
    pub caller: Address,
    pub contract: Address,
    pub block_number: u64,
    pub timestamp: u64,
    pub gas_limit: u64,
    pub gas_price: u64,
}

impl<M> ContractContext<M> {
    pub fn new(
        token_manager: M,
        caller: Address,
        contract: Address,
        block_number: u64,
        timestamp: u64,
        gas_limit: u64,
        gas_price: u64,
    ) -> (r: Self)
        ensures
            r.token_manager == token_manager,
            r.caller == caller,
            r.contract == contract,
            r.block_number == block_number,
            r.timestamp == timestamp,
            r.gas_limit == gas_limit,
            r.gas_price == gas_price,
    {
        ContractContext { token_manager, caller, contract, block_number, timestamp, gas_limit, gas_price }
    }

    /// Consumes `amount` of gas if that much remains; says whether it did.
    pub fn consume_gas(&mut self, amount: u64) -> (r: bool)
        ensures
            r == (old(self).gas_limit >= amount),
            r ==> final(self).gas_limit == old(self).gas_limit - amount,
            !r ==> final(self).gas_limit == old(self).gas_limit,
            final(self).caller == old(self).caller,
            final(self).contract == old(self).contract,
            final(self).block_number == old(self).block_number,
            final(self).timestamp == old(self).timestamp,
            final(self).gas_price == old(self).gas_price,
            final(self).token_manager == old(self).token_manager,
    {
        if self.gas_limit >= amount {
            self.gas_limit = self.gas_limit - amount;
            true
        } else {
            false
        }
    }

    /// The cost of `amount` of gas at the gas price.
    pub fn calculate_gas_cost(&self, amount: u64) -> (r: u64)
        requires
            amount * self.gas_price <= u64::MAX,
        ensures
            r == amount * self.gas_price,
    {
        amount * self.gas_price
    }

    pub fn is_caller(&self, address: &Address) -> (r: bool)
        ensures
            r == (self.caller@ == address@),
    {
        self.caller.same_as(address)
    }

    pub fn is_contract(&self, address: &Address) -> (r: bool)
        ensures
            r == (self.contract@ == address@),
    {
        self.contract.same_as(address)
    }

    pub fn now(&self) -> (r: u64)
        ensures
            r == self.timestamp,
    {
        self.timestamp
    }

    pub fn block_number(&self) -> (r: u64)
        ensures
            r == self.block_number,
    {
        self.block_number
    }

    pub fn gas_remaining(&self) -> (r: u64)
        ensures
            r == self.gas_limit,
    {
        self.gas_limit
    }
}

} // verus!
