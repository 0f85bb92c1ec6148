use rustorium::legacy::contract::engine::ContractEngine;
use rustorium::legacy::contract::error::ContractError;
use rustorium::legacy::contract::{BlockInfo, CallInfo, ContractConfig, ContractType, ExecutionContext, TxInfo};
use rustorium::node::types::Address;

fn call(contract: Address) -> CallInfo {
    CallInfo {
        caller: Address::new([1; 32]),
        contract,
        function: "noop".to_string(),
        params: vec![],
        value: 0,
        gas_limit: 0,
    }
}

fn context() -> ExecutionContext {
    ExecutionContext {
        call_info: call(Address::new([0; 32])),
        block_info: BlockInfo { number: 1, timestamp: 77, gas_limit: 1000 },
        tx_info: TxInfo { id: vec![], sender: Address::new([1; 32]), gas_price: 1 },
    }
}

#[test]
fn built_in_contracts_deploy_and_custom_ones_do_not() {
    let mut engine = ContractEngine::new(());
    for (i, kind) in [ContractType::Multisig, ContractType::Staking, ContractType::Swap].into_iter().enumerate() {
        let address = Address::new([10 + i as u8; 32]);
        let config = ContractConfig { contract_type: kind, owner: Address::new([2; 32]), params: vec![] };
        let info = engine.deploy_at(config, &context(), address).expect("built-in kinds deploy");
        assert_eq!(info.address, address);
        assert_eq!(info.owner, Address::new([2; 32]));
        assert_eq!(info.created_at, 77);
        assert_eq!(info.updated_at, 77);
        assert!(engine.view(&call(address)).is_ok());
    }
    let custom = ContractConfig {
        contract_type: ContractType::Custom("mine".to_string()),
        owner: Address::new([2; 32]),
        params: vec![],
    };
    match engine.deploy_at(custom, &context(), Address::new([99; 32])) {
        Err(ContractError::InternalError(m)) => assert_eq!(m, "Custom contracts not implemented yet"),
        _ => panic!("custom contracts are refused"),
    }
    assert!(engine.view(&call(Address::new([99; 32]))).is_err());
}

#[test]
fn deploy_draws_an_address() {
    let mut engine = ContractEngine::new(());
    let config = ContractConfig { contract_type: ContractType::Swap, owner: Address::new([2; 32]), params: vec![] };
    let info = engine.deploy(config, &context()).expect("built-in kinds deploy");
    assert_eq!(info.created_at, 77);
    assert!(engine.view(&call(info.address)).is_ok());
    let custom = ContractConfig { contract_type: ContractType::Custom("x".to_string()), owner: Address::new([2; 32]), params: vec![] };
    assert!(engine.deploy(custom, &context()).is_err());
}
