use pyrin_contracts::abi::{AbiFunction, AbiType, ContractAbi, FunctionSelector};
use pyrin_contracts::address::ContractAddress;
use pyrin_contracts::error::ContractError;
use pyrin_contracts::gas::{GasCosts, GasMeter};
use pyrin_contracts::hexstr::HexError;
use pyrin_contracts::security::{InputValidator, RateLimiter, ReentrancyGuard};
use pyrin_contracts::types::{ContractCall, ContractDeploy, ContractPayload, ContractReceipt, ExecutionStatus, Log};

#[test]
fn test_function_selector() {
    // Known ERC-20 function selectors
    let transfer = FunctionSelector::from_signature("transfer(address,uint256)");
    assert_eq!(transfer.to_hex(), "a9059cbb");

    let balance_of = FunctionSelector::from_signature("balanceOf(address)");
    assert_eq!(balance_of.to_hex(), "70a08231");
}

#[test]
fn test_abi_function() {
    let func = AbiFunction::new(
        "transfer",
        vec![AbiType::Address, AbiType::Uint256],
        vec![AbiType::Bool],
        false,
        false,
    );

    assert_eq!(func.name, "transfer");
    assert_eq!(func.selector.to_hex(), "a9059cbb");
}

#[test]
fn test_abi_type_size() {
    assert_eq!(AbiType::Uint8.fixed_size(), Some(1));
    assert_eq!(AbiType::Uint256.fixed_size(), Some(32));
    assert_eq!(AbiType::Address.fixed_size(), Some(20));
    assert_eq!(AbiType::String.fixed_size(), None);
    assert!(AbiType::String.is_dynamic());
}

#[test]
fn test_zero_address() {
    let zero = ContractAddress::zero();
    assert!(zero.is_zero());
    assert_eq!(zero.to_hex(), "0000000000000000000000000000000000000000");
}

#[test]
fn test_create_address() {
    let deployer = [1u8; 32];
    let addr1 = ContractAddress::create(&deployer, 0);
    let addr2 = ContractAddress::create(&deployer, 1);

    assert!(!addr1.is_zero());
    assert!(!addr2.is_zero());
    assert_ne!(addr1, addr2);
}

#[test]
fn test_hex_roundtrip() {
    let addr = ContractAddress::new([
        0x12, 0x34, 0x56, 0x78, 0x9a, 0xbc, 0xde, 0xf0, 0x12, 0x34, 0x56, 0x78, 0x9a, 0xbc, 0xde, 0xf0, 0x12, 0x34,
        0x56, 0x78,
    ]);
    let hex = addr.to_hex();
    let parsed = ContractAddress::from_hex(&hex).unwrap();
    assert_eq!(addr, parsed);
}

#[test]
fn test_error_display() {
    let err = ContractError::out_of_gas(1000, 500);
    assert_eq!(err.to_string(), "Out of gas: used 1000, limit 500");
    assert!(err.is_out_of_gas());
}

#[test]
fn test_revert() {
    let err = ContractError::Revert("transfer failed".to_string());
    assert!(err.is_revert());
    assert!(!err.is_out_of_gas());
}

#[test]
fn test_gas_meter_basic() {
    let mut meter = GasMeter::new(1000);

    assert_eq!(meter.limit(), 1000);
    assert_eq!(meter.used(), 0);
    assert_eq!(meter.remaining(), 1000);

    meter.consume(100).unwrap();
    assert_eq!(meter.used(), 100);
    assert_eq!(meter.remaining(), 900);
}

#[test]
fn test_gas_meter_out_of_gas() {
    let mut meter = GasMeter::new(100);

    meter.consume(50).unwrap();
    let result = meter.consume(100);

    assert!(result.is_err());
    assert!(result.unwrap_err().is_out_of_gas());
}

#[test]
fn test_gas_refund() {
    let mut meter = GasMeter::new(1000);

    meter.consume(500).unwrap();
    meter.add_refund(200);

    // Max refund is 20% of used = 100
    assert_eq!(meter.effective_used(), 400);
}

#[test]
fn test_tx_data_cost() {
    let costs = GasCosts::default();

    // Empty data
    assert_eq!(costs.tx_data_cost(&[]), 0);

    // All zeros
    assert_eq!(costs.tx_data_cost(&[0, 0, 0, 0]), 16);

    // All non-zero
    assert_eq!(costs.tx_data_cost(&[1, 2, 3, 4]), 64);

    // Mixed
    assert_eq!(costs.tx_data_cost(&[0, 1, 0, 2]), 40);
}

#[test]
fn test_child_gas_meter() {
    let mut parent = GasMeter::new(1000);
    parent.consume(100).unwrap();

    let mut child = parent.child(500);
    assert!(child.limit() <= 500);

    child.consume(200).unwrap();
    parent.merge_child(&child);

    assert_eq!(parent.used(), 300);
}

#[test]
fn test_reentrancy_guard() {
    let mut guard = ReentrancyGuard::new();
    let addr1 = ContractAddress::new([1u8; 20]);
    let addr2 = ContractAddress::new([2u8; 20]);

    // First lock should succeed
    let lock1 = guard.acquire(&addr1).unwrap();
    assert!(guard.is_locked(&addr1));

    // Second lock on same address should fail
    assert!(guard.acquire(&addr1).is_err());

    // Lock on different address should succeed
    let _lock2 = guard.acquire(&addr2).unwrap();
    assert!(guard.is_locked(&addr2));

    // After releasing lock1, addr1 should be unlocked
    guard.release(lock1);
    assert!(!guard.is_locked(&addr1));

    // Now we can acquire addr1 again
    let _lock3 = guard.acquire(&addr1).unwrap();
    assert!(guard.is_locked(&addr1));
}

#[test]
fn test_input_validator() {
    // Valid input
    let data = vec![0u8; 1024];
    assert!(InputValidator::validate_input_size(&data).is_ok());

    // Too large input
    let large_data = vec![0u8; InputValidator::MAX_INPUT_SIZE + 1];
    assert!(InputValidator::validate_input_size(&large_data).is_err());
}

#[test]
fn test_log_validation() {
    assert!(InputValidator::validate_log(4, 1024).is_ok());
    assert!(InputValidator::validate_log(5, 1024).is_err()); // Too many topics
    assert!(InputValidator::validate_log(2, 20_000).is_err()); // Data too large
}

#[test]
fn test_rate_limiter() {
    let mut limiter = RateLimiter::new(3);

    assert!(limiter.try_consume().is_ok());
    assert!(limiter.try_consume().is_ok());
    assert!(limiter.try_consume().is_ok());
    assert!(limiter.try_consume().is_err()); // Limit reached

    limiter.reset();
    assert!(limiter.try_consume().is_ok()); // Works again after reset
}

#[test]
fn test_contract_call() {
    let call = ContractCall::new(
        ContractAddress::zero(),
        vec![0xa9, 0x05, 0x9c, 0xbb, 0x01, 0x02, 0x03], // transfer(...)
        50_000,
        100,
    );

    assert_eq!(call.selector(), Some([0xa9, 0x05, 0x9c, 0xbb]));
    assert_eq!(call.arguments(), &[0x01, 0x02, 0x03]);

    let payload = ContractPayload::Call(call);
    assert!(payload.is_call());
}

#[test]
fn test_log() {
    let log = Log::new(ContractAddress::zero(), vec![[1u8; 32], [2u8; 32]], vec![0x01, 0x02, 0x03]);

    assert_eq!(log.topics.len(), 2);
    assert_eq!(log.event_signature(), Some(&[1u8; 32]));
}

#[test]
fn test_receipt() {
    let receipt = ContractReceipt::success(
        pyrin_contracts::digest::Hash::from_bytes([0u8; 32]),
        50_000,
        Some(ContractAddress::new([1u8; 20])),
        vec![0x01],
        vec![],
    );

    assert!(receipt.is_success());
    assert!(receipt.contract_address.is_some());
}

#[test]
fn deploy_payload_reports_its_fields() {
    let deploy = ContractDeploy::new(vec![0x00, 0x61, 0x73, 0x6d], vec![], 100_000, 0);
    let payload = ContractPayload::Deploy(deploy);
    assert!(payload.is_deploy());
    assert!(!payload.is_call());
    assert_eq!(payload.gas_limit(), 100_000);
}

#[test]
fn create2_depends_on_salt() {
    let deployer = ContractAddress::new([7u8; 20]);
    let code_hash = pyrin_contracts::digest::Hash::keccak(&[0x00, 0x61, 0x73, 0x6d]);
    let a = ContractAddress::create2(&deployer, &[1u8; 32], &code_hash);
    let b = ContractAddress::create2(&deployer, &[2u8; 32], &code_hash);
    assert_ne!(a, b);
    assert_eq!(a, ContractAddress::create2(&deployer, &[1u8; 32], &code_hash));
}

#[test]
fn address_from_hex_accepts_prefix_and_rejects_bad_input() {
    let addr = ContractAddress::new([0xab; 20]);
    let with_prefix = format!("0x{}", addr.to_hex());
    assert_eq!(ContractAddress::from_hex(&with_prefix).unwrap(), addr);
    assert_eq!(addr.to_string(), with_prefix);
    assert_eq!(ContractAddress::from_hex("abc"), Err(HexError::OddLength));
    assert!(matches!(ContractAddress::from_hex("zz"), Err(HexError::InvalidHexCharacter { .. })));
    assert_eq!(ContractAddress::from_hex("abcd"), Err(HexError::InvalidStringLength));
}

#[test]
fn address_from_slice_needs_twenty_bytes() {
    assert!(ContractAddress::from_slice(&[1u8; 19]).is_none());
    assert_eq!(ContractAddress::from_slice(&[1u8; 20]), Some(ContractAddress::new([1u8; 20])));
}

#[test]
fn selector_of_abi_lookup() {
    let mut abi = ContractAbi::new();
    abi.add_function(AbiFunction::new("balanceOf", vec![AbiType::Address], vec![AbiType::Uint256], false, true));
    abi.add_function(AbiFunction::new("transfer", vec![AbiType::Address, AbiType::Uint256], vec![AbiType::Bool], false, false));
    let sel = FunctionSelector::new([0xa9, 0x05, 0x9c, 0xbb]);
    assert_eq!(abi.find_function(&sel).unwrap().name, "transfer");
    assert_eq!(abi.find_function_by_name("balanceOf").unwrap().selector.to_hex(), "70a08231");
    assert!(abi.find_function_by_name("mint").is_none());
}

#[test]
fn abi_type_sizes_of_other_types() {
    assert_eq!(AbiType::Bool.fixed_size(), Some(1));
    assert_eq!(AbiType::Int64.fixed_size(), Some(8));
    assert_eq!(AbiType::Bytes(7).fixed_size(), Some(7));
    assert_eq!(AbiType::DynamicBytes.fixed_size(), None);
    assert!(!AbiType::Uint32.is_dynamic());
    assert!(AbiType::DynamicArray(Box::new(AbiType::Uint8)).is_dynamic());
    assert_eq!(AbiType::Array(Box::new(AbiType::Uint16), 3).fixed_size(), Some(6));
}

#[test]
fn error_messages_of_each_kind() {
    assert_eq!(ContractError::insufficient_balance(10, 3).to_string(), "Insufficient balance: required 10, available 3");
    assert_eq!(ContractError::invalid_memory(65536, 1).to_string(), "Invalid memory access at offset 65536, size 1");
    assert_eq!(ContractError::code_size_exceeded(30000, 24576).to_string(), "Code size 30000 exceeds maximum 24576");
    assert_eq!(ContractError::CallDepthExceeded(1024).to_string(), "Call depth exceeded: 1024");
    assert_eq!(ContractError::StackOverflow.to_string(), "Stack overflow");
    assert_eq!(ContractError::Revert("no".to_string()).to_string(), "Execution reverted: no");
}

#[test]
fn gas_consume_failure_changes_nothing() {
    let mut meter = GasMeter::new(100);
    meter.consume(60).unwrap();
    assert_eq!(meter.consume(41), Err(ContractError::OutOfGas { used: 101, limit: 100 }));
    assert_eq!(meter.used(), 60);
    meter.consume(40).unwrap();
    assert_eq!(meter.remaining(), 0);
    assert_eq!(meter.consume(u64::MAX), Err(ContractError::OutOfGas { used: u64::MAX, limit: 100 }));
}

#[test]
fn gas_child_keeps_a_sixty_fourth() {
    let parent = GasMeter::new(6400);
    assert_eq!(parent.child(10_000).limit(), 6300);
    assert_eq!(parent.child(100).limit(), 100);
}

#[test]
fn gas_costs_of_memory_and_logs() {
    let costs = GasCosts::new();
    assert_eq!(costs.memory_expansion_cost(0, 32), 3);
    assert_eq!(costs.memory_expansion_cost(64, 32), 0);
    assert_eq!(costs.memory_expansion_cost(0, 65536), 14336);
    assert_eq!(costs.log_cost(2, 10), 375 + 2 * 375 + 10 * 8);
}

#[test]
fn input_validator_rules() {
    assert!(InputValidator::validate_return_size(&vec![0u8; 65536]).is_ok());
    assert!(InputValidator::validate_return_size(&vec![0u8; 65537]).is_err());
    assert!(InputValidator::validate_address(&ContractAddress::zero()).is_err());
    assert!(InputValidator::validate_address(&ContractAddress::new([1u8; 20])).is_ok());
    assert!(InputValidator::validate_value(10, 10).is_ok());
    assert_eq!(
        InputValidator::validate_value(11, 10),
        Err(ContractError::InsufficientBalance { required: 11, available: 10 })
    );
}

#[test]
fn receipts_of_each_status() {
    let h = pyrin_contracts::digest::Hash::zero();
    let r = ContractReceipt::reverted(h, 10, "execution reverted".to_string(), vec![]);
    assert!(r.is_reverted());
    assert_eq!(r.status, ExecutionStatus::Reverted);
    let f = ContractReceipt::failed(h, 20, "boom".to_string());
    assert!(f.is_failed());
    assert_eq!(f.error, Some("boom".to_string()));
}

#[test]
fn memory_expansion_cost_adds_up() {
    let costs = GasCosts::new();
    let step = costs.memory_expansion_cost(0, 4096) + costs.memory_expansion_cost(4096, 65536);
    assert_eq!(step, costs.memory_expansion_cost(0, 65536));
}

#[test]
fn default_gas_costs_follow_the_gas_table() {
    let costs = GasCosts::default();
    assert_eq!(costs.sload_warm, 100);
    assert_eq!(costs.sload_cold, 2100);
    assert_eq!(costs.storage_write_new, 20000);
    assert_eq!(costs.storage_write_existing, 5000);
    assert_eq!(costs.sha3_base, 30);
    assert_eq!(costs.sha3_per_word, 6);
    assert_eq!(costs.log_base, 375);
    assert_eq!(costs.log_per_byte, 8);
    assert_eq!(costs.call_base, 100);
    assert_eq!(costs.tx_create, 32000);
}

#[test]
fn reentrancy_guard_counts_locks() {
    let mut guard = ReentrancyGuard::new();
    assert_eq!(guard.locked_count(), 0);
    let a = ContractAddress::new([1u8; 20]);
    let b = ContractAddress::new([2u8; 20]);
    let la = guard.acquire(&a).unwrap();
    assert_eq!(guard.locked_count(), 1);
    let lb = guard.acquire(&b).unwrap();
    assert_eq!(guard.locked_count(), 2);
    assert!(guard.acquire(&a).is_err());
    assert_eq!(guard.locked_count(), 2);
    guard.release(la);
    assert!(!guard.is_locked(&a));
    assert_eq!(guard.locked_count(), 1);
    guard.release(lb);
    assert_eq!(guard.locked_count(), 0);
}
