use vstd::prelude::*;
use crate::token::TokenError;

verus! {

/// The fee on `amount` at `fee` basis points, rounded down.
pub fn calculate_fee(amount: u64, fee: u64) -> (r: u64)
    requires
        amount * fee <= u64::MAX,
    ensures
        r == amount * fee / 10000,
{
    amount * fee / 10000
}

/// The new supply, where it does not exceed `max_supply`.
pub fn update_supply(new_supply: u64, max_supply: u64) -> (r: Result<u64, TokenError>)
    ensures
        new_supply <= max_supply ==> r == Ok::<u64, TokenError>(new_supply),
        new_supply > max_supply ==> r == Err::<u64, TokenError>(TokenError::SupplyExceedsMaximum),
{
    if new_supply > max_supply {
        Err(TokenError::SupplyExceedsMaximum)
    } else {
        Ok(new_supply)
    }
}

} // verus!
