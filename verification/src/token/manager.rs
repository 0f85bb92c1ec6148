use vstd::prelude::*;
use crate::keyed::{DeepClone, KeyedVec};
use crate::node::types::Address;
use crate::token::contract::ContractModule;
use crate::token::staking::RewardRule;
use crate::token::generator::TokenGenerator;
use crate::token::standard::{
    balance_in, transfer_fits, transferred, StandardToken, StandardTokenView, TokenConfig, TokenomicsParams,
};
use crate::token::{TokenError, TokenId, TokenType};

verus! {

/// The names of the modules a newly made token of kind `kind` carries.
pub open spec fn new_module_names(config_modules: Seq<ContractModule>, kind: TokenType) -> Set<Seq<char>> {
    match kind {
        TokenType::Contract => config_modules.map_values(|m: ContractModule| m@).to_set(),
        TokenType::Staking => set!["staking"@],
        _ => Set::empty(),
    }
}

/// The tokens of a node, by id, and the generator that makes new ones.
pub struct TokenManager<S> {
    tokens: KeyedVec<TokenId, StandardToken>,
    generator: TokenGenerator<S>,
}

impl<S> TokenManager<S> {
    /// The tokens, by id.
    pub closed spec fn tokens(&self) -> Map<Seq<u8>, StandardTokenView> {
        self.tokens@
    }

    /// The manager's invariant: the registry and every token in it are well formed.
    pub closed spec fn wf(&self) -> bool {
        &&& self.tokens.wf()
        &&& forall|i: int|
            0 <= i < self.tokens.entries().len() ==> (#[trigger] self.tokens.entries()[i]).1.wf()
    }

    /// A manager with no token, whose generator keeps `storage`.
    pub fn new(storage: S) -> (r: Self)
        ensures
            r.wf(),
            r.tokens() == Map::<Seq<u8>, StandardTokenView>::empty(),
            r.generator_of().storage_of() == storage,
            r.generator_of().names() == seq!["Standard Token"@, "Staking Token"@],
    {
        TokenManager { tokens: KeyedVec::new(), generator: TokenGenerator::new(storage) }
    }

    /// The generator of new tokens.
    pub closed spec fn generator_of(&self) -> TokenGenerator<S> {
        self.generator
    }

    /// The generator of new tokens.
    pub fn generator(&self) -> (r: &TokenGenerator<S>)
        ensures
            *r == self.generator_of(),
    {
        &self.generator
    }

    /// Takes token `id` out of the registry.
    fn take(&mut self, id: &TokenId) -> (r: Option<StandardToken>)
        requires
            old(self).wf(),
        ensures
            final(self).wf(),
            final(self).tokens() == old(self).tokens().remove(id@),
            r is Some <==> old(self).tokens().contains_key(id@),
            r matches Some(t) ==> t@ == old(self).tokens()[id@] && t.wf(),
    {
        let ghost before = self.tokens.entries();
        let r = self.tokens.remove(id);
        proof {
            assert forall|i: int| 0 <= i < self.tokens.entries().len() implies (#[trigger] self.tokens.entries()[i]).1.wf() by {
                let j = choose|j: int| 0 <= j < before.len() && before[j] == self.tokens.entries()[i];
                assert(before[j].1.wf());
            }
            if r is Some {
                let pair = (before[old(self).tokens.index_of_key(id@)].0, r->0);
                assert(before.contains(pair));
                let j = choose|j: int| 0 <= j < before.len() && #[trigger] before[j] == pair;
                assert(before[j].1.wf());
            }
        }
        r
    }

    /// Puts `token` in the registry under `id`.
    fn put(&mut self, id: TokenId, token: StandardToken)
        requires
            old(self).wf(),
            token.wf(),
        ensures
            final(self).wf(),
            final(self).tokens() == old(self).tokens().insert(id@, token@),
    {
        let ghost before = self.tokens.entries();
        let ghost g = token;
        let ghost k = id;
        self.tokens.insert(id, token);
        proof {
            assert forall|i: int| 0 <= i < self.tokens.entries().len() implies (#[trigger] self.tokens.entries()[i]).1.wf() by {
                if self.tokens.entries()[i] != (k, g) {
                    let j = choose|j: int| 0 <= j < before.len() && before[j] == self.tokens.entries()[i];
                    assert(before[j].1.wf());
                }
            }
        }
    }

    /// Makes a token from `config` with the generator and keeps it under its id, which is
    /// returned; NFT and governance tokens are refused as the generator refuses them.
    pub fn create_token<R: RewardRule + 'static>(&mut self, config: TokenConfig, rule: R) -> (r: Result<TokenId, TokenError>)
        requires
            old(self).wf(),
        ensures
            final(self).wf(),
            config.token_type == TokenType::NFT ==> r == Err::<TokenId, TokenError>(TokenError::NftNotImplemented)
                && final(self).tokens() == old(self).tokens(),
            config.token_type == TokenType::Governance ==> r == Err::<TokenId, TokenError>(
                TokenError::GovernanceNotImplemented,
            ) && final(self).tokens() == old(self).tokens(),
            !(config.token_type == TokenType::NFT || config.token_type == TokenType::Governance) ==> (
            r matches Ok(id) && id@ == seq![0u8] && final(self).tokens() == old(self).tokens().insert(
                id@,
                StandardTokenView {
                    header: (
                        seq![0u8],
                        config.name@,
                        config.symbol@,
                        config.decimals,
                        config.total_supply,
                        config.token_type,
                    ),
                    balances: Map::empty(),
                    allowances: Map::empty(),
                    module_names: new_module_names(config.modules@, config.token_type),
                },
            )),
    {
        let ghost kind = config.token_type;
        let ghost name = config.name@;
        let ghost symbol = config.symbol@;
        let ghost modules = config.modules@;
        match self.generator.generate_token(config, rule) {
            Err(e) => Err(e),
            Ok(token) => {
                let id = token.id();
                let key = id.deep_clone();
                proof {
                    assert(token@.module_names == new_module_names(modules, kind));
                    assert(token@.balances =~= Map::<Seq<u8>, u64>::empty());
                }
                self.put(key, token);
                Ok(id)
            },
        }
    }

    /// The token with id `id`, if any.
    pub fn get_token(&self, id: &TokenId) -> (r: Option<&StandardToken>)
        requires
            self.wf(),
        ensures
            r is Some <==> self.tokens().contains_key(id@),
            r matches Some(t) ==> t@ == self.tokens()[id@] && t.wf(),
    {
        let r = self.tokens.get(id);
        proof {
            if r is Some {
                let j = choose|j: int| 0 <= j < self.tokens.entries().len() && (#[trigger] self.tokens.entries()[j]).1 == *r->0;
                assert(self.tokens.entries()[j].1.wf());
            }
        }
        r
    }

    /// Moves `amount` of token `token_id` from `from` to `to`; refused where there is no such
    /// token or `from` holds less.
    pub fn transfer(&mut self, token_id: &TokenId, from: &Address, to: &Address, amount: u64) -> (r: Result<
        (),
        TokenError,
    >)
        requires
            old(self).wf(),
            old(self).tokens().contains_key(token_id@) && balance_in(
                old(self).tokens()[token_id@].balances,
                from@,
            ) >= amount ==> transfer_fits(old(self).tokens()[token_id@].balances, from@, to@, amount),
        ensures
            final(self).wf(),
            !old(self).tokens().contains_key(token_id@) ==> r == Err::<(), TokenError>(TokenError::TokenNotFound)
                && final(self).tokens() == old(self).tokens(),
            old(self).tokens().contains_key(token_id@) ==> ({
                let t = old(self).tokens()[token_id@];
                if balance_in(t.balances, from@) < amount {
                    &&& r == Err::<(), TokenError>(TokenError::InsufficientBalance)
                    &&& final(self).tokens() == old(self).tokens()
                } else {
                    &&& r is Ok
                    &&& final(self).tokens() == old(self).tokens().insert(
                        token_id@,
                        StandardTokenView { balances: transferred(t.balances, from@, to@, amount), ..t },
                    )
                }
            }),
    {
        match self.take(token_id) {
            None => Err(TokenError::TokenNotFound),
            Some(mut token) => {
                let r = token.transfer(from, to, amount);
                let key = token_id.deep_clone();
                self.put(key, token);
                proof {
                    assert(self.tokens() =~= old(self).tokens().insert(token_id@, token@));
                    if r is Err {
                        assert(token@ == old(self).tokens()[token_id@]);
                        assert(self.tokens() =~= old(self).tokens());
                    }
                }
                r
            },
        }
    }

    /// The balance of `address` in token `token_id`; refused where there is no such token.
    pub fn balance_of(&self, token_id: &TokenId, address: &Address) -> (r: Result<u64, TokenError>)
        requires
            self.wf(),
        ensures
            !self.tokens().contains_key(token_id@) ==> r == Err::<u64, TokenError>(TokenError::TokenNotFound),
            self.tokens().contains_key(token_id@) ==> r == Ok::<u64, TokenError>(
                balance_in(self.tokens()[token_id@].balances, address@),
            ),
    {
        match self.get_token(token_id) {
            None => Err(TokenError::TokenNotFound),
            Some(t) => Ok(t.balance_of(address)),
        }
    }

    /// Forgets token `id`, if it is kept.
    pub fn delete_token(&mut self, id: &TokenId) -> (r: Result<(), TokenError>)
        requires
            old(self).wf(),
        ensures
            final(self).wf(),
            r is Ok,
            final(self).tokens() == old(self).tokens().remove(id@),
    {
        let _ = self.take(id);
        Ok(())
    }

    /// The ids of the tokens kept, each once.
    pub fn list_tokens(&self) -> (r: Vec<TokenId>)
        requires
            self.wf(),
        ensures
            r@.len() == self.tokens().dom().len(),
            forall|i: int| 0 <= i < r@.len() ==> self.tokens().contains_key(#[trigger] r@[i]@),
            forall|k: Seq<u8>| #[trigger] self.tokens().contains_key(k) ==> exists|i: int| 0 <= i < r@.len() && r@[i]@ == k,
    {
        let entries = self.tokens.as_entries();
        let mut ids: Vec<TokenId> = Vec::new();
        let mut j: usize = 0;
        proof {
            self.tokens.lemma_view();
            self.tokens.lemma_len();
        }
        while j < entries.len()
            invariant
                j <= entries@.len(),
                entries@ == self.tokens.entries(),
                ids@.len() == j,
                forall|i: int| 0 <= i < j ==> (#[trigger] ids@[i])@ == entries@[i].0@,
            decreases entries@.len() - j,
        {
            ids.push(entries[j].0.deep_clone());
            j = j + 1;
        }
        proof {
            assert forall|i: int| 0 <= i < ids@.len() implies self.tokens().contains_key(#[trigger] ids@[i]@) by {
                assert(crate::keyed::has_key(self.tokens.entries(), ids@[i]@));
            }
            assert forall|k: Seq<u8>| #[trigger] self.tokens().contains_key(k) implies exists|i: int| 0 <= i < ids@.len() && ids@[i]@ == k by {
                let i = choose|i: int| 0 <= i < entries@.len() && (#[trigger] entries@[i]).0@ == k;
                assert(ids@[i]@ == k);
            }
        }
        ids
    }

    /// Gives token `id` new settings; refused where there is no such token. The token takes
    /// nothing from them yet.
    pub fn update_token(&mut self, id: &TokenId, config: TokenConfig) -> (r: Result<(), TokenError>)
        requires
            old(self).wf(),
        ensures
            final(self).wf(),
            final(self).tokens() == old(self).tokens(),
            r is Ok <==> old(self).tokens().contains_key(id@),
            r is Err ==> r == Err::<(), TokenError>(TokenError::TokenNotFound),
    {
        match self.take(id) {
            None => Err(TokenError::TokenNotFound),
            Some(mut token) => {
                let r = token.update_config(config);
                let key = id.deep_clone();
                self.put(key, token);
                proof {
                    assert(self.tokens() =~= old(self).tokens());
                }
                r
            },
        }
    }

    /// Gives token `id` new economic parameters; refused where there is no such token. The
    /// token takes nothing from them yet.
    pub fn update_economics(&mut self, id: &TokenId, params: TokenomicsParams) -> (r: Result<(), TokenError>)
        requires
            old(self).wf(),
        ensures
            final(self).wf(),
            final(self).tokens() == old(self).tokens(),
            r is Ok <==> old(self).tokens().contains_key(id@),
            r is Err ==> r == Err::<(), TokenError>(TokenError::TokenNotFound),
    {
        match self.take(id) {
            None => Err(TokenError::TokenNotFound),
            Some(mut token) => {
                let r = token.update_economics(params);
                let key = id.deep_clone();
                self.put(key, token);
                proof {
                    assert(self.tokens() =~= old(self).tokens());
                }
                r
            },
        }
    }

    /// Attaches `module` to token `id`; refused where there is no such token.
    pub fn add_module(&mut self, id: &TokenId, module: ContractModule) -> (r: Result<(), TokenError>)
        requires
            old(self).wf(),
        ensures
            final(self).wf(),
            !old(self).tokens().contains_key(id@) ==> r == Err::<(), TokenError>(TokenError::TokenNotFound)
                && final(self).tokens() == old(self).tokens(),
            old(self).tokens().contains_key(id@) ==> r is Ok && final(self).tokens() == old(self).tokens().insert(
                id@,
                StandardTokenView {
                    module_names: old(self).tokens()[id@].module_names.insert(module@),
                    ..old(self).tokens()[id@]
                },
            ),
    {
        match self.take(id) {
            None => Err(TokenError::TokenNotFound),
            Some(mut token) => {
                token.add_module(module);
                let key = id.deep_clone();
                self.put(key, token);
                proof {
                    assert(self.tokens() =~= old(self).tokens().insert(id@, token@));
                }
                Ok(())
            },
        }
    }

    /// Detaches the module named `module_name` from token `id`; refused where there is no
    /// such token.
    pub fn remove_module(&mut self, id: &TokenId, module_name: &str) -> (r: Result<(), TokenError>)
        requires
            old(self).wf(),
        ensures
            final(self).wf(),
            !old(self).tokens().contains_key(id@) ==> r == Err::<(), TokenError>(TokenError::TokenNotFound)
                && final(self).tokens() == old(self).tokens(),
            old(self).tokens().contains_key(id@) ==> r is Ok && final(self).tokens() == old(self).tokens().insert(
                id@,
                StandardTokenView {
                    module_names: old(self).tokens()[id@].module_names.remove(module_name@),
                    ..old(self).tokens()[id@]
                },
            ),
    {
        match self.take(id) {
            None => Err(TokenError::TokenNotFound),
            Some(mut token) => {
                token.remove_module(module_name);
                let key = id.deep_clone();
                self.put(key, token);
                proof {
                    assert(self.tokens() =~= old(self).tokens().insert(id@, token@));
                }
                Ok(())
            },
        }
    }
}

} // verus!
