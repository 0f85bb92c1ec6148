use vstd::prelude::*;

verus! {

/// A token as the node stores it.
#[derive(Debug)]
pub struct Token {
    pub id: Vec<u8>,
    pub name: String,
    pub symbol: String,
    pub decimals: u8,
    pub total_supply: u64,
    pub owner: Vec<u8>,
}

/// The tokens of a node over its storage `S`; no operation reaches the storage yet.
pub struct TokenManager<S> {
    storage: S,
}

impl<S> TokenManager<S> {
    /// The storage of the manager.
    pub closed spec fn storage_of(&self) -> S {
        self.storage
    }

    /// A manager over `storage`.
    pub fn new(storage: S) -> (r: Self)
        ensures
            r.storage_of() == storage,
    {
        TokenManager { storage }
    }

    /// Creates a token; nothing is stored yet, and it succeeds.
    pub fn create_token(&self, _token: Token) -> (r: Result<(), String>)
        ensures
            r is Ok,
    {
        Ok(())
    }

    /// The token with id `token_id`; none is stored yet.
    pub fn get_token(&self, _token_id: &[u8]) -> (r: Result<Option<Token>, String>)
        ensures
            r matches Ok(None),
    {
        Ok(None)
    }

    /// Moves `amount` from `from` to `to`; nothing is moved yet, and it succeeds.
    pub fn transfer(&self, _from: &[u8], _to: &[u8], _amount: u64) -> (r: Result<(), String>)
        ensures
            r is Ok,
    {
        Ok(())
    }

    /// The balance of `address`; none is stored yet, so it is zero.
    pub fn get_balance(&self, _address: &[u8]) -> (r: Result<u64, String>)
        ensures
            r == Ok::<u64, String>(0),
    {
        Ok(0)
    }
}

} // verus!
