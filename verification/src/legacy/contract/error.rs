use vstd::prelude::*;

verus! {

/// Errors of contracts.
#[derive(Debug)]
pub enum ContractError {
    InitializationError(String),
    ExecutionError(String),
    PermissionDenied(String),
    InsufficientBalance(String),
    OutOfGas(String),
    InvalidParameter(String),
    InvalidState(String),
    InvalidAddress(String),
    InvalidToken(String),
    InvalidFunction(String),
    Timeout(String),
    InternalError(String),
}

impl ContractError {
    /// The text of the error, as its display form gives it.
    pub fn message(&self) -> (r: String)
        ensures
            r@ == match self {
                ContractError::InitializationError(m) => "Failed to initialize contract: "@ + m@,
                ContractError::ExecutionError(m) => "Failed to execute contract: "@ + m@,
                ContractError::PermissionDenied(m) => "Permission denied: "@ + m@,
                ContractError::InsufficientBalance(m) => "Insufficient balance: "@ + m@,
                ContractError::OutOfGas(m) => "Out of gas: "@ + m@,
                ContractError::InvalidParameter(m) => "Invalid parameter: "@ + m@,
                ContractError::InvalidState(m) => "Invalid state: "@ + m@,
                ContractError::InvalidAddress(m) => "Invalid address: "@ + m@,
                ContractError::InvalidToken(m) => "Invalid token: "@ + m@,
                ContractError::InvalidFunction(m) => "Invalid function: "@ + m@,
                ContractError::Timeout(m) => "Timeout: "@ + m@,
                ContractError::InternalError(m) => "Internal error: "@ + m@,
            },
    {
        let (prefix, m) = match self {
            ContractError::InitializationError(m) => ("Failed to initialize contract: ", m),
            ContractError::ExecutionError(m) => ("Failed to execute contract: ", m),
            ContractError::PermissionDenied(m) => ("Permission denied: ", m),
            ContractError::InsufficientBalance(m) => ("Insufficient balance: ", m),
            ContractError::OutOfGas(m) => ("Out of gas: ", m),
            ContractError::InvalidParameter(m) => ("Invalid parameter: ", m),
            ContractError::InvalidState(m) => ("Invalid state: ", m),
            ContractError::InvalidAddress(m) => ("Invalid address: ", m),
            ContractError::InvalidToken(m) => ("Invalid token: ", m),
            ContractError::InvalidFunction(m) => ("Invalid function: ", m),
            ContractError::Timeout(m) => ("Timeout: ", m),
            ContractError::InternalError(m) => ("Internal error: ", m),
        };
        let mut out = String::from_str(prefix);
        out.append(m.as_str());
        out
    }
}

} // verus!
