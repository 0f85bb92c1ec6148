use vstd::prelude::*;
use crate::keyed::KeyedVec;

verus! {

/// The state of a token contract: its variables and its event log.
#[derive(Debug)]
pub struct ContractState {
    pub variables: KeyedVec<String, Vec<u8>>,
    pub events: Vec<ContractEvent>,
}

/// An event that a token contract logged.
#[derive(Debug)]
pub struct ContractEvent {
    pub name: String,
    pub params: KeyedVec<String, Vec<u8>>,
    pub timestamp: u64,
}

/// The interface of a token contract, for contracts to implement.
pub trait Contract {
    /// Sets the contract up from its parameters.
    fn initialize(&mut self, params: KeyedVec<String, Vec<u8>>) -> Result<(), String>
        requires
            params.wf(),
    ;

    /// Runs a function of the contract.
    fn execute(&mut self, function: &str, params: KeyedVec<String, Vec<u8>>) -> Result<
        Vec<u8>,
        String,
    >
        requires
            params.wf(),
    ;

    /// The contract's state.
    fn state(&self) -> &ContractState;

    /// Replaces the contract's state.
    fn set_state(&mut self, state: ContractState)
        requires
            state.variables.wf(),
    ;
}

/// A named contract attached to a token.
pub struct ContractModule {
    name: String,
    contract: Box<dyn Contract>,
}

impl ContractModule {
    /// The module's name.
    pub closed spec fn module_name(&self) -> Seq<char> {
        self.name@
    }

    /// A module named `name` holding `contract`.
    pub fn new(name: String, contract: Box<dyn Contract>) -> (r: Self)
        ensures
            r.module_name() == name@,
    {
        ContractModule { name, contract }
    }

    /// The module's name.
    pub fn name(&self) -> (r: &str)
        ensures
            r@ == self.module_name(),
    {
        self.name.as_str()
    }

    /// The module's contract. Verus proves no equality between values of `Box<dyn Contract>`
    /// (not even of a field with the value stored in it), so no clause ties the result to the
    /// contract given to `new`; the body hands out that stored contract.
    pub fn contract(&self) -> &dyn Contract {
        &*self.contract
    }
}

impl View for ContractModule {
    type V = Seq<char>;

    open spec fn view(&self) -> Seq<char> {
        self.module_name()
    }
}

} // verus!
