pub mod contract;
pub mod economics;
pub mod generator;
pub mod manager;
pub mod staking;
pub mod standard;

use vstd::prelude::*;
use crate::keyed::{DeepClone, KeyEq};

verus! {

/// Identifier of a token.
#[derive(Debug, Clone, Hash, PartialEq, Eq)]
pub struct TokenId(Vec<u8>);

impl View for TokenId {
    type V = Seq<u8>;

    closed spec fn view(&self) -> Seq<u8> {
        self.0@
    }
}

impl KeyEq for TokenId {
    fn key_eq(&self, other: &Self) -> (r: bool) {
        crate::bytes::bytes_eq(self.0.as_slice(), other.0.as_slice())
    }
}

impl DeepClone for TokenId {
    fn deep_clone(&self) -> (r: Self) {
        TokenId(crate::bytes::bytes_to_vec(self.0.as_slice()))
    }
}

impl TokenId {
    /// A token id made of `id`.
    pub fn new(id: Vec<u8>) -> (r: Self)
        ensures
            r@ == id@,
    {
        TokenId(id)
    }

    /// The id as bytes.
    pub fn as_bytes(&self) -> (r: &[u8])
        ensures
            r@ == self@,
    {
        self.0.as_slice()
    }
}

/// The kind of a token.
#[derive(Debug, Clone, Copy, PartialEq, Eq)]
pub enum TokenType {
    Standard,
    Contract,
    NFT,
    Staking,
    Governance,
}

/// Why a token operation was refused.
#[derive(Debug, Clone, Copy, PartialEq, Eq)]
pub enum TokenError {
    /// The sender holds less than the amount.
    InsufficientBalance,
    /// The spender may move less than the amount.
    InsufficientAllowance,
    /// The new supply is above the maximum.
    SupplyExceedsMaximum,
    /// NFT tokens are not made yet.
    NftNotImplemented,
    /// Governance tokens are not made yet.
    GovernanceNotImplemented,
    /// No token has this id.
    TokenNotFound,
}

} // verus!
