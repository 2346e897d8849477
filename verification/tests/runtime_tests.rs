use pyrin_contracts::address::ContractAddress;
use pyrin_contracts::error::ContractError;
use pyrin_contracts::events::{ContractEvent, EventEmitter, EventFilter, EventStore};
use pyrin_contracts::runtime::{BlockInfo, ContractRuntime, RuntimeConfig};
use pyrin_contracts::transaction::{ContractTransaction, TransactionProcessor};
use pyrin_contracts::types::{ExecutionStatus, Log};

fn create_test_event(block: u64, address: ContractAddress) -> ContractEvent {
    ContractEvent::new(block, pyrin_contracts::digest::Hash::from_bytes([0u8; 32]), 0, 0, Log::new(address, vec![[1u8; 32]], vec![]))
}

#[test]
fn test_event_filter() {
    let event = create_test_event(100, ContractAddress::new([1u8; 20]));

    // Match block range
    let filter = EventFilter::new().with_from_block(50).with_to_block(150);
    assert!(filter.matches(&event));

    // Doesn't match block range
    let filter = EventFilter::new().with_from_block(101);
    assert!(!filter.matches(&event));

    // Match address
    let filter = EventFilter::new().with_address(ContractAddress::new([1u8; 20]));
    assert!(filter.matches(&event));

    // Doesn't match address
    let filter = EventFilter::new().with_address(ContractAddress::new([2u8; 20]));
    assert!(!filter.matches(&event));
}

#[test]
fn test_event_emitter() {
    let mut emitter = EventEmitter::new(100, pyrin_contracts::digest::Hash::from_bytes([0u8; 32]), 0);

    assert!(emitter.is_empty());

    emitter.emit(Log::new(ContractAddress::zero(), vec![], vec![]));
    emitter.emit(Log::new(ContractAddress::zero(), vec![], vec![]));

    assert_eq!(emitter.len(), 2);

    let events = emitter.take_events();
    assert_eq!(events.len(), 2);
    assert!(emitter.is_empty());
}

#[test]
fn test_event_store() {
    let mut store = EventStore::new();

    let addr1 = ContractAddress::new([1u8; 20]);
    let addr2 = ContractAddress::new([2u8; 20]);

    store.store(create_test_event(100, addr1));
    store.store(create_test_event(100, addr2));
    store.store(create_test_event(101, addr1));

    assert_eq!(store.len(), 3);
    assert_eq!(store.get_by_block(100).len(), 2);
    assert_eq!(store.get_by_address(&addr1).len(), 2);

    let filter = EventFilter::new().with_from_block(100).with_to_block(100);
    assert_eq!(store.query(&filter).len(), 2);
}

#[test]
fn event_filter_topics_by_position() {
    let event = ContractEvent::new(
        5,
        pyrin_contracts::digest::Hash::zero(),
        1,
        2,
        Log::new(ContractAddress::new([1u8; 20]), vec![[1u8; 32], [2u8; 32]], vec![9]),
    );
    assert!(EventFilter::new().with_topic(1, [2u8; 32]).matches(&event));
    assert!(!EventFilter::new().with_topic(1, [3u8; 32]).matches(&event));
    assert!(EventFilter::new().with_topic(1, [3u8; 32]).with_topic(1, [2u8; 32]).matches(&event));
    assert!(!EventFilter::new().with_topic(2, [2u8; 32]).matches(&event));
    let f = EventFilter::new().with_topic(2, [7u8; 32]);
    assert_eq!(f.topics.len(), 3);
    assert!(f.topics[0].is_empty() && f.topics[1].is_empty());
    assert_eq!(event.signature(), Some(&[1u8; 32]));
    assert_eq!(event.data(), &[9]);
    assert_eq!(event.topics().len(), 2);
    assert_eq!(*event.address(), ContractAddress::new([1u8; 20]));
}

#[test]
fn event_store_query_orders_by_block() {
    let mut store = EventStore::new();
    let a = ContractAddress::new([1u8; 20]);
    let b = ContractAddress::new([2u8; 20]);
    store.store(create_test_event(7, a));
    store.store(create_test_event(3, b));
    store.store(create_test_event(7, b));
    store.store(create_test_event(u64::MAX, a));
    let all = store.query(&EventFilter::new());
    let blocks: Vec<u64> = all.iter().map(|e| e.block_number).collect();
    assert_eq!(blocks, vec![3, 7, 7, u64::MAX]);
    let only_a = store.query(&EventFilter::new().with_address(a));
    assert_eq!(only_a.len(), 2);
    assert!(store.query(&EventFilter::new().with_from_block(8).with_to_block(9)).is_empty());
    assert!(store.query(&EventFilter::new().with_from_block(9).with_to_block(8)).is_empty());
    assert!(!store.is_empty());
    assert!(EventStore::new().is_empty());
    let mut other = EventStore::default();
    other.store_all(vec![create_test_event(1, a), create_test_event(2, a)]);
    assert_eq!(other.len(), 2);
}

#[test]
fn event_emitter_numbers_logs() {
    let mut emitter = EventEmitter::new(9, pyrin_contracts::digest::Hash::zero(), 4);
    emitter.emit_all(vec![
        Log::new(ContractAddress::zero(), vec![], vec![1]),
        Log::new(ContractAddress::zero(), vec![], vec![2]),
    ]);
    let events = emitter.events();
    assert_eq!(events[0].log_index, 0);
    assert_eq!(events[1].log_index, 1);
    assert_eq!(events[1].tx_index, 4);
    assert_eq!(events[1].block_number, 9);
    emitter.clear();
    assert_eq!(emitter.len(), 0);
}

#[test]
fn test_runtime_creation() {
    let runtime = ContractRuntime::default();
    assert_eq!(runtime.config().block_gas_limit, 30_000_000);
    assert_eq!(runtime.block_gas_used(), 0);
}

#[test]
fn test_block_lifecycle() {
    let mut runtime = ContractRuntime::default();

    runtime.begin_block();
    assert_eq!(runtime.block_gas_used(), 0);

    // Block gas tracking would happen during execution
    runtime.end_block();
}

#[test]
fn test_is_not_contract() {
    let runtime = ContractRuntime::default();
    let addr = ContractAddress::new([1u8; 20]);

    assert!(!runtime.is_contract(&addr));
}

fn block() -> BlockInfo {
    BlockInfo::new(10, 1000, 20)
}

const WASM_HEADER: [u8; 8] = [0x00, 0x61, 0x73, 0x6d, 0x01, 0x00, 0x00, 0x00];

#[test]
fn runtime_deploy_checks_and_deploys() {
    let mut runtime = ContractRuntime::default();
    let deployer = ContractAddress::new([4u8; 20]);
    let r = runtime.deploy(deployer, WASM_HEADER.to_vec(), vec![], 5, 1_000_000, block()).unwrap();
    assert_eq!(r.gas_used, 0);
    assert!(runtime.is_contract(&r.address));
    assert_eq!(runtime.get_code(&r.address), Some(WASM_HEADER.to_vec()));
    assert_eq!(runtime.get_balance(&r.address), 5);
    assert_eq!(runtime.get_nonce(&deployer), 1);
    assert_eq!(runtime.get_storage(&r.address, &[0u8; 32]), [0u8; 32]);
    assert!(runtime.get_code(&deployer).is_none());

    let big = vec![0u8; 24 * 1024 + 1];
    assert_eq!(
        runtime.deploy(deployer, big, vec![], 0, 1, block()).unwrap_err(),
        ContractError::CodeSizeExceeded { size: 24577, max: 24576 }
    );

    let mut config = RuntimeConfig::default();
    config.enable_create = false;
    let mut off = ContractRuntime::new(config);
    assert_eq!(
        off.deploy(deployer, WASM_HEADER.to_vec(), vec![], 0, 1, block()).unwrap_err(),
        ContractError::DeploymentFailed("contract creation disabled".to_string())
    );
}

#[test]
fn runtime_call_checks_and_settles() {
    let mut runtime = ContractRuntime::default();
    let caller = ContractAddress::new([4u8; 20]);
    let missing = ContractAddress::new([6u8; 20]);
    let r = runtime.call(caller, missing, vec![], 0, 100_000, block()).unwrap();
    assert!(!r.success);
    assert!(r.error.unwrap().starts_with("Contract not found: 0x"));

    let too_long = vec![0u8; 65537];
    assert_eq!(
        runtime.call(caller, missing, too_long, 0, 100_000, block()).unwrap_err(),
        ContractError::InvalidArguments("Input size 65537 exceeds maximum 65536".to_string())
    );

    let mut config = RuntimeConfig::default();
    config.block_gas_limit = 100;
    let mut small = ContractRuntime::new(config);
    assert_eq!(
        small.call(caller, missing, vec![], 0, 1000, block()).unwrap_err(),
        ContractError::OutOfGas { used: 1000, limit: 100 }
    );
    let mut config = RuntimeConfig::default();
    config.enable_call = false;
    let mut off = ContractRuntime::new(config);
    assert_eq!(
        off.call(caller, missing, vec![], 0, 1000, block()).unwrap_err(),
        ContractError::Revert("contract calls disabled".to_string())
    );
    assert!(runtime.static_call(caller, missing, vec![], 1000, block()).is_ok());
    assert_eq!(
        runtime.estimate_gas(caller, missing, vec![], 0, block()).unwrap_err(),
        ContractError::Revert(format!("Contract not found: 0x{}", "06".repeat(20)))
    );
    assert_eq!(runtime.block_gas_remaining(), 30_000_000);
}

#[test]
fn test_contract_transaction() {
    let tx = ContractTransaction::call(
        pyrin_contracts::digest::Hash::from_bytes([0u8; 32]),
        ContractAddress::new([1u8; 20]),
        0,
        1,
        100_000,
        ContractAddress::new([2u8; 20]),
        vec![0xa9, 0x05, 0x9c, 0xbb], // transfer selector
        1000,
    );

    assert_eq!(tx.to(), Some(ContractAddress::new([2u8; 20])));
    assert_eq!(tx.value(), 1000);
    assert_eq!(tx.max_fee(), 100_000);
}

#[test]
fn test_deploy_transaction() {
    let wasm = vec![0x00, 0x61, 0x73, 0x6d, 0x01, 0x00, 0x00, 0x00];
    let tx = ContractTransaction::deploy(
        pyrin_contracts::digest::Hash::from_bytes([0u8; 32]),
        ContractAddress::new([1u8; 20]),
        0,
        1,
        500_000,
        wasm,
        vec![],
        0,
    );

    assert!(tx.to().is_none());
    assert!(tx.payload.is_deploy());
}

#[test]
fn test_validate_nonce() {
    let tx = ContractTransaction::call(
        pyrin_contracts::digest::Hash::from_bytes([0u8; 32]),
        ContractAddress::new([1u8; 20]),
        5, // Wrong nonce
        1,
        100_000,
        ContractAddress::new([2u8; 20]),
        vec![],
        0,
    );

    let result = tx.validate(1_000_000, 0);
    assert!(result.is_err());
}

#[test]
fn test_validate_balance() {
    let tx = ContractTransaction::call(
        pyrin_contracts::digest::Hash::from_bytes([0u8; 32]),
        ContractAddress::new([1u8; 20]),
        0,
        1,
        100_000,
        ContractAddress::new([2u8; 20]),
        vec![],
        50_000, // Value + gas exceeds balance
    );

    let result = tx.validate(100_000, 0);
    assert!(result.is_err());
}

#[test]
fn transaction_validation_messages() {
    let tx = ContractTransaction::call(pyrin_contracts::digest::Hash::zero(), ContractAddress::new([1u8; 20]), 5, 2, 10, ContractAddress::zero(), vec![], 3);
    assert_eq!(
        tx.validate(100, 4),
        Err(ContractError::InvalidArguments("Invalid nonce: expected 4, got 5".to_string()))
    );
    assert_eq!(tx.validate(22, 5), Err(ContractError::InsufficientBalance { required: 23, available: 22 }));
    assert_eq!(tx.validate(23, 5), Ok(()));
    let zero = ContractTransaction::call(pyrin_contracts::digest::Hash::zero(), ContractAddress::new([1u8; 20]), 0, 0, 0, ContractAddress::zero(), vec![], 0);
    assert_eq!(zero.validate(0, 0), Err(ContractError::InvalidArguments("Gas limit cannot be zero".to_string())));
    let huge = ContractTransaction::call(pyrin_contracts::digest::Hash::zero(), ContractAddress::zero(), 0, u64::MAX, 2, ContractAddress::zero(), vec![], 0);
    assert_eq!(huge.max_fee(), u64::MAX);
}

#[test]
fn processor_turns_outcomes_into_receipts() {
    let mut processor = TransactionProcessor::new(ContractRuntime::default());
    let sender = ContractAddress::new([1u8; 20]);
    // The sender has no balance: a priced transaction is refused.
    let priced = ContractTransaction::call(pyrin_contracts::digest::Hash::zero(), sender, 0, 1, 10, ContractAddress::zero(), vec![], 0);
    assert!(processor.process(&priced, block()).is_err());
    // A free deployment of a bare module succeeds.
    let deploy = ContractTransaction::deploy(pyrin_contracts::digest::Hash::zero(), sender, 0, 0, 500_000, WASM_HEADER.to_vec(), vec![], 0);
    let receipt = processor.process(&deploy, block()).unwrap();
    assert_eq!(receipt.status, ExecutionStatus::Success);
    let address = receipt.contract_address.unwrap();
    assert!(processor.runtime().is_contract(&address));
    // A deployment that is refused gives a failed receipt charging all gas.
    let bad = ContractTransaction::deploy(pyrin_contracts::digest::Hash::zero(), sender, 1, 0, 777, vec![1, 2], vec![], 0);
    let receipt = processor.process(&bad, block()).unwrap();
    assert_eq!(receipt.status, ExecutionStatus::Failed);
    assert_eq!(receipt.gas_used, 777);
    assert_eq!(receipt.error, Some("Invalid bytecode: Code too short".to_string()));
    // A call to the module (it exports nothing) fails.
    let call = ContractTransaction::call(pyrin_contracts::digest::Hash::zero(), sender, 1, 0, 1000, address, vec![], 0);
    let receipt = processor.process(&call, block()).unwrap();
    assert_eq!(receipt.status, ExecutionStatus::Failed);
    assert!(receipt.error.unwrap().starts_with("Function not found: "));
}

#[test]
fn processor_batch_gives_one_outcome_per_transaction() {
    let mut processor = TransactionProcessor::new(ContractRuntime::default());
    let sender = ContractAddress::new([1u8; 20]);
    let txs = vec![
        ContractTransaction::deploy(pyrin_contracts::digest::Hash::zero(), sender, 0, 0, 500_000, WASM_HEADER.to_vec(), vec![], 0),
        ContractTransaction::deploy(pyrin_contracts::digest::Hash::zero(), sender, 0, 0, 500_000, WASM_HEADER.to_vec(), vec![], 0),
    ];
    let results = processor.process_batch(&txs, block());
    assert_eq!(results.len(), 2);
    assert!(results[0].is_ok());
    // The second reuses nonce 0 and is refused.
    assert!(results[1].is_err());
    assert_eq!(processor.runtime().block_gas_used(), 0);
}

#[test]
fn static_call_keeps_pending_state() {
    let mut runtime = ContractRuntime::default();
    let deployer = ContractAddress::new([4u8; 20]);
    let d = runtime.deploy(deployer, WASM_HEADER.to_vec(), vec![], 5, 1_000_000, block()).unwrap();
    let used = runtime.block_gas_used();
    let r = runtime.static_call(deployer, d.address, vec![], 1000, block()).unwrap();
    assert!(!r.success);
    assert_eq!(runtime.get_nonce(&deployer), 1);
    assert_eq!(runtime.get_balance(&d.address), 5);
    assert!(runtime.is_contract(&d.address));
    assert_eq!(runtime.block_gas_used(), used);
}
