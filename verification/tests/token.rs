use rustorium::node::types::Address;
use rustorium::token::contract::{Contract, ContractModule, ContractState};
use rustorium::token::economics::{calculate_fee, update_supply};
use rustorium::token::generator::TokenGenerator;
use rustorium::token::manager::TokenManager;
use rustorium::token::staking::{RewardRule, StakingContract};
use rustorium::token::standard::{StandardToken, TokenConfig, TokenomicsParams};
use rustorium::token::{TokenError, TokenId, TokenType};
use rustorium::keyed::KeyedVec;

fn addr(b: u8) -> Address {
    Address::new([b; 32])
}

fn config(kind: TokenType) -> TokenConfig {
    TokenConfig {
        name: "Test".to_string(),
        symbol: "TST".to_string(),
        decimals: 18,
        total_supply: 1000,
        token_type: kind,
        economics: TokenomicsParams {
            max_supply: 2000,
            fee: 100,
            min_staking_period: 10,
            initial_liquidity: 1,
            min_liquidity: 1,
        },
        modules: Vec::new(),
    }
}

struct Dummy {
    state: ContractState,
}

impl Contract for Dummy {
    fn initialize(&mut self, _params: KeyedVec<String, Vec<u8>>) -> Result<(), String> {
        Ok(())
    }
    fn execute(&mut self, _function: &str, _params: KeyedVec<String, Vec<u8>>) -> Result<Vec<u8>, String> {
        Ok(Vec::new())
    }
    fn state(&self) -> &ContractState {
        &self.state
    }
    fn set_state(&mut self, state: ContractState) {
        self.state = state;
    }
}

/// A reward of a tenth of the amount.
struct TenthRule;

impl RewardRule for TenthRule {
    fn reward(&self, amount: u64, _rate_bits: u64) -> u64 {
        amount / 10
    }
}

fn dummy(_id: TokenId) -> Box<dyn Contract> {
    Box::new(Dummy { state: ContractState { variables: KeyedVec::new(), events: Vec::new() } })
}

#[test]
fn new_token_has_settings_and_no_balance() {
    let t = StandardToken::new(config(TokenType::Standard));
    assert_eq!(t.name(), "Test");
    assert_eq!(t.symbol(), "TST");
    assert_eq!(t.decimals(), 18);
    assert_eq!(t.total_supply(), 1000);
    assert_eq!(t.token_type(), TokenType::Standard);
    assert_eq!(t.id().as_bytes(), &[0u8][..]);
    assert_eq!(t.balance_of(&addr(1)), 0);
}

#[test]
fn transfer_moves_exactly_the_amount() {
    let mut t = StandardToken::new(config(TokenType::Standard));
    assert_eq!(t.transfer(&addr(1), &addr(2), 1), Err(TokenError::InsufficientBalance));
    assert_eq!(t.transfer(&addr(1), &addr(2), 0), Ok(()));
    assert_eq!(t.balance_of(&addr(1)), 0);
    assert_eq!(t.balance_of(&addr(2)), 0);
}

#[test]
fn approve_and_transfer_from() {
    let mut t = StandardToken::new(config(TokenType::Standard));
    let (owner, spender, to) = (addr(1), addr(2), addr(3));
    assert_eq!(t.allowance(&owner, &spender), 0);
    t.approve(&owner, &spender, 50);
    assert_eq!(t.allowance(&owner, &spender), 50);
    assert_eq!(t.allowance(&spender, &owner), 0);
    // owner holds nothing: the allowance suffices, the balance does not
    assert_eq!(t.transfer_from(&owner, &spender, &to, 10), Err(TokenError::InsufficientBalance));
    assert_eq!(t.allowance(&owner, &spender), 50);
    assert_eq!(t.transfer_from(&owner, &spender, &to, 60), Err(TokenError::InsufficientAllowance));
    assert_eq!(t.transfer_from(&owner, &spender, &to, 0), Ok(()));
    assert_eq!(t.allowance(&owner, &spender), 50);
}

#[test]
fn modules_are_added_and_removed_by_name() {
    let mut t = StandardToken::new(config(TokenType::Contract));
    t.add_module(ContractModule::new("m1".to_string(), dummy(TokenId::new(vec![]))));
    t.remove_module("m2");
    t.remove_module("m1");
    assert!(t.update_config(config(TokenType::Standard)).is_ok());
}

#[test]
fn fee_and_supply() {
    assert_eq!(calculate_fee(10_000, 100), 100);
    assert_eq!(calculate_fee(99, 100), 0);
    assert_eq!(update_supply(2000, 2000), Ok(2000));
    assert_eq!(update_supply(2001, 2000), Err(TokenError::SupplyExceedsMaximum));
}

#[test]
fn generator_templates_and_kinds() {
    let g = TokenGenerator::new(());
    let names: Vec<&str> = g.list_templates().iter().map(|t| t.name.as_str()).collect();
    assert_eq!(names, vec!["Standard Token", "Staking Token"]);
    let staking = g.get_template("Staking Token").unwrap();
    assert_eq!(staking.default_config.symbol, "STK");
    assert_eq!(staking.recommended_modules, vec!["staking".to_string()]);
    assert!(g.get_template("Missing").is_none());
    assert!(matches!(g.generate_token(config(TokenType::NFT), TenthRule), Err(TokenError::NftNotImplemented)));
    assert!(matches!(
        g.generate_token(config(TokenType::Governance), TenthRule),
        Err(TokenError::GovernanceNotImplemented)
    ));
    let t = g.generate_token(config(TokenType::Staking), TenthRule).unwrap();
    assert_eq!(t.token_type(), TokenType::Staking);
    let mut c = config(TokenType::Contract);
    c.modules.push(ContractModule::new("a".to_string(), dummy(TokenId::new(vec![1]))));
    assert!(g.generate_token(c, TenthRule).is_ok());
}

#[test]
fn manager_keeps_created_tokens() {
    let mut m = TokenManager::new(());
    assert!(m.list_tokens().is_empty());
    assert_eq!(m.create_token(config(TokenType::NFT), TenthRule), Err(TokenError::NftNotImplemented));
    assert!(m.list_tokens().is_empty());
    let id = m.create_token(config(TokenType::Staking), TenthRule).unwrap();
    assert_eq!(id.as_bytes(), &[0u8]);
    assert_eq!(m.list_tokens(), vec![id.clone()]);
    let t = m.get_token(&id).unwrap();
    assert_eq!(t.name(), "Test");
    assert_eq!(t.token_type(), TokenType::Staking);
    assert!(m.get_token(&TokenId::new(vec![9])).is_none());
}

#[test]
fn manager_transfers_and_reads_balances() {
    let mut m = TokenManager::new(());
    let id = m.create_token(config(TokenType::Standard), TenthRule).unwrap();
    assert_eq!(m.balance_of(&id, &addr(1)), Ok(0));
    assert_eq!(m.transfer(&id, &addr(1), &addr(2), 5), Err(TokenError::InsufficientBalance));
    assert_eq!(m.transfer(&id, &addr(1), &addr(2), 0), Ok(()));
    let missing = TokenId::new(vec![7]);
    assert_eq!(m.transfer(&missing, &addr(1), &addr(2), 0), Err(TokenError::TokenNotFound));
    assert_eq!(m.balance_of(&missing, &addr(1)), Err(TokenError::TokenNotFound));
}

#[test]
fn manager_modules_updates_and_deletion() {
    let mut m = TokenManager::new(());
    let id = m.create_token(config(TokenType::Standard), TenthRule).unwrap();
    assert_eq!(m.add_module(&id, ContractModule::new("extra".to_string(), dummy(TokenId::new(vec![1])))), Ok(()));
    assert_eq!(m.remove_module(&id, "extra"), Ok(()));
    assert_eq!(m.update_token(&id, config(TokenType::Standard)), Ok(()));
    assert_eq!(m.update_economics(&id, config(TokenType::Standard).economics), Ok(()));
    let missing = TokenId::new(vec![7]);
    assert_eq!(m.update_token(&missing, config(TokenType::Standard)), Err(TokenError::TokenNotFound));
    assert_eq!(m.remove_module(&missing, "extra"), Err(TokenError::TokenNotFound));
    assert_eq!(m.delete_token(&id), Ok(()));
    assert!(m.get_token(&id).is_none());
    assert!(m.list_tokens().is_empty());
}

#[test]
fn template_default_configurations() {
    let g = TokenGenerator::new(());
    let t = g.list_templates();
    assert_eq!(t.len(), 2);
    let std_t = &t[0];
    assert_eq!(std_t.description, "Basic ERC20-like token");
    assert_eq!(std_t.default_config.name, "Standard Token");
    assert_eq!(std_t.default_config.symbol, "STD");
    assert_eq!(std_t.default_config.decimals, 18);
    assert_eq!(std_t.default_config.total_supply, 1_000_000);
    assert_eq!(std_t.default_config.token_type, TokenType::Standard);
    assert_eq!(std_t.default_config.economics.max_supply, 2_000_000);
    assert_eq!(std_t.default_config.economics.fee, 100);
    assert_eq!(std_t.default_config.economics.min_staking_period, 30 * 24 * 60 * 60);
    assert_eq!(std_t.default_config.economics.initial_liquidity, 100_000);
    assert_eq!(std_t.default_config.economics.min_liquidity, 10_000);
    assert!(std_t.default_config.modules.is_empty());
    assert!(std_t.recommended_modules.is_empty());
    let stk = &t[1];
    assert_eq!(stk.description, "Token with staking capabilities");
    assert_eq!(stk.default_config.symbol, "STK");
    assert_eq!(stk.default_config.decimals, 18);
    assert_eq!(stk.default_config.total_supply, 1_000_000);
    assert_eq!(stk.default_config.token_type, TokenType::Staking);
    assert_eq!(stk.default_config.economics.initial_liquidity, 200_000);
    assert_eq!(stk.default_config.economics.min_liquidity, 20_000);
    assert_eq!(stk.recommended_modules, vec!["staking".to_string()]);
}

fn params(pairs: &[(&str, Vec<u8>)]) -> KeyedVec<String, Vec<u8>> {
    let mut p = KeyedVec::new();
    for (k, v) in pairs {
        p.insert(k.to_string(), v.clone());
    }
    p
}

fn event_param(c: &StakingContract<TenthRule>, index: usize, key: &str) -> Vec<u8> {
    c.state().events[index].params.get(&key.to_string()).unwrap().clone()
}

#[test]
fn staking_contract_initializes_from_eight_byte_parameters() {
    let mut c = StakingContract::new(TokenId::new(vec![1]), TenthRule);
    assert_eq!(c.initialize(params(&[])), Err("Missing staking_period".to_string()));
    assert_eq!(
        c.initialize(params(&[("staking_period", vec![1, 2])])),
        Err("could not convert slice to array".to_string())
    );
    assert_eq!(
        c.initialize(params(&[("staking_period", 0u64.to_le_bytes().to_vec())])),
        Err("Missing reward_rate".to_string())
    );
    let ok = params(&[("staking_period", 0u64.to_le_bytes().to_vec()), ("reward_rate", 0.1f64.to_le_bytes().to_vec())]);
    assert_eq!(c.initialize(ok), Ok(()));
}

#[test]
fn staking_contract_stakes_and_unstakes() {
    let mut c = StakingContract::new(TokenId::new(vec![1]), TenthRule);
    let init = params(&[("staking_period", 0u64.to_le_bytes().to_vec()), ("reward_rate", 0.1f64.to_le_bytes().to_vec())]);
    assert_eq!(c.initialize(init), Ok(()));
    let who = vec![7u8; 32];
    let stake = params(&[("address", who.clone()), ("amount", 500u64.to_le_bytes().to_vec())]);
    assert_eq!(c.execute("stake", stake), Ok(vec![]));
    assert_eq!(c.state().events.len(), 1);
    assert_eq!(c.state().events[0].name, "Stake");
    assert_eq!(event_param(&c, 0, "address"), who);
    assert_eq!(event_param(&c, 0, "amount"), 500u64.to_le_bytes().to_vec());
    let stored = c.state().variables.get(&"stakes".to_string()).unwrap().clone();
    let rows: Vec<([u8; 32], (u64, u64))> = bincode::deserialize(&stored).unwrap();
    assert_eq!(rows.len(), 1);
    assert_eq!(rows[0].0, [7u8; 32]);
    assert_eq!(rows[0].1 .0, 500);
    assert_eq!(c.execute("unstake", params(&[("address", who.clone())])), Ok(vec![]));
    assert_eq!(c.state().events.len(), 2);
    assert_eq!(c.state().events[1].name, "Unstake");
    assert_eq!(event_param(&c, 1, "amount"), 500u64.to_le_bytes().to_vec());
    assert_eq!(event_param(&c, 1, "reward"), 50u64.to_le_bytes().to_vec());
    let stored = c.state().variables.get(&"stakes".to_string()).unwrap().clone();
    let rows: Vec<([u8; 32], (u64, u64))> = bincode::deserialize(&stored).unwrap();
    assert!(rows.is_empty());
    assert_eq!(c.execute("unstake", params(&[("address", who)])), Err("No stake found".to_string()));
}

#[test]
fn staking_contract_refuses_bad_calls() {
    let mut c = StakingContract::new(TokenId::new(vec![1]), TenthRule);
    assert_eq!(c.execute("burn", params(&[])), Err("Unknown function: burn".to_string()));
    assert_eq!(c.execute("stake", params(&[])), Err("Missing address".to_string()));
    assert_eq!(
        c.execute("stake", params(&[("address", vec![1; 31])])),
        Err("could not convert slice to array".to_string())
    );
    assert_eq!(c.execute("stake", params(&[("address", vec![1; 32])])), Err("Missing amount".to_string()));
    assert!(c.state().events.is_empty());
}

#[test]
fn staking_at_given_times() {
    let mut c = StakingContract::new(TokenId::new(vec![2]), TenthRule);
    let init = params(&[("staking_period", 100u64.to_le_bytes().to_vec()), ("reward_rate", 0.5f64.to_le_bytes().to_vec())]);
    assert_eq!(c.initialize(init), Ok(()));
    assert_eq!(c.stake_at([3; 32], 1000, 10), Ok(()));
    assert_eq!(c.state().events[0].timestamp, 10);
    // taken back before the period ends: no reward
    assert_eq!(c.unstake_at([3; 32], 50), Ok(()));
    assert_eq!(event_param(&c, 1, "reward"), 0u64.to_le_bytes().to_vec());
    assert_eq!(c.state().events[1].timestamp, 50);
    assert_eq!(c.unstake_at([3; 32], 60), Err("No stake found".to_string()));
    assert_eq!(c.state().events.len(), 2);
    // after the period: the rule's reward
    assert_eq!(c.stake_at([3; 32], 1000, 200), Ok(()));
    assert_eq!(c.unstake_at([3; 32], 300), Ok(()));
    assert_eq!(event_param(&c, 3, "reward"), 100u64.to_le_bytes().to_vec());
}

#[test]
fn staking_at_rate_zero_rewards_nothing() {
    let mut c = StakingContract::new(TokenId::new(vec![1]), TenthRule);
    let init = params(&[("staking_period", 0u64.to_le_bytes().to_vec()), ("reward_rate", 0.0f64.to_le_bytes().to_vec())]);
    assert_eq!(c.initialize(init), Ok(()));
    let a = vec![1u8; 32];
    assert_eq!(c.execute("stake", params(&[("address", a.clone()), ("amount", 100u64.to_le_bytes().to_vec())])), Ok(vec![]));
    assert_eq!(c.execute("unstake", params(&[("address", a.clone())])), Ok(vec![]));
    let names: Vec<&str> = c.state().events.iter().map(|e| e.name.as_str()).collect();
    assert_eq!(names, vec!["Stake", "Unstake"]);
    assert_eq!(event_param(&c, 1, "address"), a);
    assert_eq!(event_param(&c, 1, "amount"), 100u64.to_le_bytes().to_vec());
    assert_eq!(event_param(&c, 1, "reward"), 0u64.to_le_bytes().to_vec());
}

#[test]
fn staking_refusals_leave_the_state_alone() {
    let mut c = StakingContract::new(TokenId::new(vec![1]), TenthRule);
    assert_eq!(c.stake_at([5; 32], 7, 1), Ok(()));
    let before = c.state().variables.get(&"stakes".to_string()).unwrap().clone();
    assert_eq!(c.execute("unstake", params(&[("address", vec![6; 32])])), Err("No stake found".to_string()));
    assert_eq!(c.execute("stake", params(&[("address", vec![5; 32]), ("amount", vec![1, 2, 3])])), Err("could not convert slice to array".to_string()));
    assert_eq!(c.state().events.len(), 1);
    assert_eq!(c.state().variables.get(&"stakes".to_string()).unwrap(), &before);
}
