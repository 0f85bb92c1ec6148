use vstd::prelude::*;
use crate::token::contract::ContractModule;
use crate::token::staking::{RewardRule, StakingContract};
use crate::token::standard::{StandardToken, TokenConfig, TokenomicsParams};
use crate::token::{TokenError, TokenType};

verus! {

/// A ready-made token configuration.
pub struct TokenTemplate {
    pub name: String,
    pub description: String,
    pub default_config: TokenConfig,
    pub recommended_modules: Vec<String>,
}

/// Seconds in thirty days: the least staking period of the templates.
pub const THIRTY_DAYS_SECS: u64 = 2592000;

/// Makes tokens from configurations, over a storage engine `S`, and keeps templates.
pub struct TokenGenerator<S> {
    storage: S,
    templates: Vec<TokenTemplate>,
}

/// The default configuration of the template "Standard Token". The rates of its economics
/// (price, inflation, fee shares, rewards) are floating point and stand outside the library.
pub open spec fn is_standard_template(t: TokenTemplate) -> bool {
    &&& t.name@ == "Standard Token"@
    &&& t.description@ == "Basic ERC20-like token"@
    &&& t.default_config.name@ == "Standard Token"@
    &&& t.default_config.symbol@ == "STD"@
    &&& t.default_config.decimals == 18
    &&& t.default_config.total_supply == 1_000_000
    &&& t.default_config.token_type == TokenType::Standard
    &&& t.default_config.economics == (TokenomicsParams {
        max_supply: 2_000_000,
        fee: 100,
        min_staking_period: THIRTY_DAYS_SECS,
        initial_liquidity: 100_000,
        min_liquidity: 10_000,
    })
    &&& t.default_config.modules@.len() == 0
    &&& t.recommended_modules@.len() == 0
}

/// The default configuration of the template "Staking Token", which recommends the staking
/// module. Its floating-point rates stand outside the library.
pub open spec fn is_staking_template(t: TokenTemplate) -> bool {
    &&& t.name@ == "Staking Token"@
    &&& t.description@ == "Token with staking capabilities"@
    &&& t.default_config.name@ == "Staking Token"@
    &&& t.default_config.symbol@ == "STK"@
    &&& t.default_config.decimals == 18
    &&& t.default_config.total_supply == 1_000_000
    &&& t.default_config.token_type == TokenType::Staking
    &&& t.default_config.economics == (TokenomicsParams {
        max_supply: 2_000_000,
        fee: 100,
        min_staking_period: THIRTY_DAYS_SECS,
        initial_liquidity: 200_000,
        min_liquidity: 20_000,
    })
    &&& t.default_config.modules@.len() == 0
    &&& t.recommended_modules@.len() == 1
    &&& t.recommended_modules@[0]@ == "staking"@
}

/// The template "Standard Token": a basic ERC20-like token.
fn standard_template() -> (r: TokenTemplate)
    ensures
        is_standard_template(r),
{
    TokenTemplate {
        name: String::from_str("Standard Token"),
        description: String::from_str("Basic ERC20-like token"),
        default_config: TokenConfig {
            name: String::from_str("Standard Token"),
            symbol: String::from_str("STD"),
            decimals: 18,
            total_supply: 1_000_000,
            token_type: TokenType::Standard,
            economics: TokenomicsParams {
                max_supply: 2_000_000,
                fee: 100,
                min_staking_period: THIRTY_DAYS_SECS,
                initial_liquidity: 100_000,
                min_liquidity: 10_000,
            },
            modules: Vec::new(),
        },
        recommended_modules: Vec::new(),
    }
}

/// The template "Staking Token": a token with staking, recommending the staking module.
fn staking_template() -> (r: TokenTemplate)
    ensures
        is_staking_template(r),
{
    let mut recommended: Vec<String> = Vec::new();
    recommended.push(String::from_str("staking"));
    TokenTemplate {
        name: String::from_str("Staking Token"),
        description: String::from_str("Token with staking capabilities"),
        default_config: TokenConfig {
            name: String::from_str("Staking Token"),
            symbol: String::from_str("STK"),
            decimals: 18,
            total_supply: 1_000_000,
            token_type: TokenType::Staking,
            economics: TokenomicsParams {
                max_supply: 2_000_000,
                fee: 100,
                min_staking_period: THIRTY_DAYS_SECS,
                initial_liquidity: 200_000,
                min_liquidity: 20_000,
            },
            modules: Vec::new(),
        },
        recommended_modules: recommended,
    }
}

/// The names of a list of templates.
pub open spec fn template_names(t: Seq<TokenTemplate>) -> Seq<Seq<char>> {
    t.map_values(|x: TokenTemplate| x.name@)
}

impl<S> TokenGenerator<S> {
    /// The names of the templates, in order.
    pub closed spec fn names(&self) -> Seq<Seq<char>> {
        template_names(self.templates@)
    }

    /// The templates, in order.
    pub closed spec fn templates(&self) -> Seq<TokenTemplate> {
        self.templates@
    }

    /// A generator over `storage` with the two built-in templates, "Standard Token" and
    /// "Staking Token".
    pub fn new(storage: S) -> (r: Self)
        ensures
            r.names() == seq!["Standard Token"@, "Staking Token"@],
            r.templates().len() == 2,
            is_standard_template(r.templates()[0]),
            is_staking_template(r.templates()[1]),
            r.storage_of() == storage,
    {
        let templates = Self::default_templates();
        TokenGenerator { storage, templates }
    }

    /// The built-in templates.
    fn default_templates() -> (r: Vec<TokenTemplate>)
        ensures
            template_names(r@) == seq!["Standard Token"@, "Staking Token"@],
            r@.len() == 2,
            is_standard_template(r@[0]),
            is_staking_template(r@[1]),
    {
        let mut v: Vec<TokenTemplate> = Vec::new();
        v.push(standard_template());
        v.push(staking_template());
        assert(template_names(v@) =~= seq!["Standard Token"@, "Staking Token"@]);
        v
    }

    /// Adds a template at the end.
    pub fn add_template(&mut self, template: TokenTemplate)
        ensures
            final(self).names() == old(self).names().push(template.name@),
            final(self).templates() == old(self).templates().push(template),
    {
        let ghost n = template.name@;
        self.templates.push(template);
        assert(template_names(self.templates@) =~= template_names(old(self).templates@).push(n));
    }

    /// The first template named `name`, if any.
    pub fn get_template(&self, name: &str) -> (r: Option<&TokenTemplate>)
        ensures
            r is None <==> !self.names().contains(name@),
            r matches Some(t) ==> t.name@ == name@,
            r matches Some(t) ==> exists|i: int|
                0 <= i < self.templates().len() && self.templates()[i] == *t
                    && forall|j: int| 0 <= j < i ==> #[trigger] self.names()[j] != name@,
    {
        let target = String::from_str(name);
        let mut i: usize = 0;
        while i < self.templates.len()
            invariant
                i <= self.templates@.len(),
                target@ == name@,
                forall|j: int| 0 <= j < i ==> self.names()[j] != name@,
            decreases self.templates@.len() - i,
        {
            assert(self.names()[i as int] == self.templates@[i as int].name@);
            if self.templates[i].name == target {
                proof {
                    assert(self.names().contains(name@));
                    assert(self.templates()[i as int] == self.templates@[i as int]);
                }
                return Some(&self.templates[i]);
            }
            i = i + 1;
        }
        proof {
            if self.names().contains(name@) {
                let j = choose|j: int| 0 <= j < self.names().len() && self.names()[j] == name@;
                assert(self.names()[j] != name@);
            }
        }
        None
    }

    /// The templates, in order.
    pub fn list_templates(&self) -> (r: &[TokenTemplate])
        ensures
            template_names(r@) == self.names(),
            r@ == self.templates(),
    {
        self.templates.as_slice()
    }

    /// Makes a token of the kind `config` names: a standard token as it is; a contract token
    /// with the configuration's modules attached; a staking token with the module "staking", a
    /// staking contract of the token that rewards by `rule`. NFT and governance tokens are not
    /// made yet.
    pub fn generate_token<R: RewardRule + 'static>(&self, config: TokenConfig, rule: R) -> (r: Result<StandardToken, TokenError>)
        ensures
            config.token_type == TokenType::NFT ==> r == Err::<StandardToken, TokenError>(TokenError::NftNotImplemented),
            config.token_type == TokenType::Governance ==> r == Err::<StandardToken, TokenError>(
                TokenError::GovernanceNotImplemented,
            ),
            config.token_type == TokenType::Standard ==> (r matches Ok(t) && t.wf() && t.module_names() == Set::<Seq<char>>::empty()),
            config.token_type == TokenType::Contract ==> (r matches Ok(t) && t.wf() && t.module_names() == config.modules@.map_values(|m: ContractModule| m@).to_set()),
            config.token_type == TokenType::Staking ==> (r matches Ok(t) && t.wf() && t.module_names() == set!["staking"@]),
            r matches Ok(t) ==> t.header().0 == seq![0u8] && t.balances() == Map::<Seq<u8>, u64>::empty()
                && t.allowances() == Map::<(Seq<u8>, Seq<u8>), u64>::empty(),
            r matches Ok(t) ==> t.header().1 == config.name@ && t.header().2 == config.symbol@
                && t.header().3 == config.decimals && t.header().4 == config.total_supply
                && t.header().5 == config.token_type,
    {
        let TokenConfig { name, symbol, decimals, total_supply, token_type, economics, modules } = config;
        let ghost module_views = modules@.map_values(|m: ContractModule| m@);
        let base = TokenConfig {
            name,
            symbol,
            decimals,
            total_supply,
            token_type,
            economics,
            modules: Vec::new(),
        };
        match token_type {
            TokenType::Standard => Ok(StandardToken::new(base)),
            TokenType::Contract => {
                let mut token = StandardToken::new(base);
                let mut rest = modules;
                let ghost mut taken: nat = 0;
                let ghost all = rest@;
                while rest.len() > 0
                    invariant
                        token.wf(),
                        taken + rest@.len() == all.len(),
                        rest@ == all.subrange(taken as int, all.len() as int),
                        token.module_names() == all.subrange(0, taken as int).map_values(|m: ContractModule| m@).to_set(),
                        token.header().0 == seq![0u8],
                        token.balances() == Map::<Seq<u8>, u64>::empty(),
                        token.allowances() == Map::<(Seq<u8>, Seq<u8>), u64>::empty(),
                        token.header().1 == name@ && token.header().2 == symbol@ && token.header().3 == decimals
                            && token.header().4 == total_supply && token.header().5 == token_type,
                    decreases rest@.len(),
                {
                    let m = rest.remove(0);
                    proof {
                        let pre = all.subrange(0, taken as int + 1).map_values(|x: ContractModule| x@);
                        assert(pre =~= all.subrange(0, taken as int).map_values(|x: ContractModule| x@).push(m@));
                        all.subrange(0, taken as int).map_values(|x: ContractModule| x@).lemma_push_to_set_commute(m@);
                    }
                    token.add_module(m);
                    proof {
                        taken = taken + 1;
                        assert(rest@ =~= all.subrange(taken as int, all.len() as int));
                    }
                }
                assert(all.subrange(0, all.len() as int) =~= all);
                Ok(token)
            },
            TokenType::NFT => Err(TokenError::NftNotImplemented),
            TokenType::Staking => {
                let mut token = StandardToken::new(base);
                let staking = StakingContract::new(token.id(), rule);
                token.add_module(ContractModule::new(String::from_str("staking"), Box::new(staking)));
                Ok(token)
            },
            TokenType::Governance => Err(TokenError::GovernanceNotImplemented),
        }
    }

    /// The storage engine.
    pub closed spec fn storage_of(&self) -> S {
        self.storage
    }

    /// The storage engine, borrowed.
    pub fn engine(&self) -> (r: &S)
        ensures
            *r == self.storage_of(),
    {
        &self.storage
    }
}

} // verus!
