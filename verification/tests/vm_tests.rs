use pyrin_contracts::address::ContractAddress;
use pyrin_contracts::account::AccountStorage;
use pyrin_contracts::code::{CodeStorage, ContractCode};
use pyrin_contracts::error::ContractError;
use pyrin_contracts::executor::{ContractExecutor, ExecutionContext, ExecutionResult, MAX_CALL_DEPTH};
use pyrin_contracts::gas::GasMeter;
use pyrin_contracts::host::HostFunctions;
use pyrin_contracts::memory::{ContractMemory, PAGE_SIZE};
use pyrin_contracts::state::ContractStorage;
use pyrin_contracts::types::Log;

fn create_memory() -> ContractMemory {
    ContractMemory::new(1, 16, GasMeter::new(1_000_000)).unwrap()
}

#[test]
fn test_memory_creation() {
    let mem = create_memory();
    assert_eq!(mem.pages(), 1);
    assert_eq!(mem.size(), PAGE_SIZE);
}

#[test]
fn test_memory_grow() {
    let mut mem = create_memory();
    let old_pages = mem.grow(2).unwrap();

    assert_eq!(old_pages, 1);
    assert_eq!(mem.pages(), 3);
    assert_eq!(mem.size(), 3 * PAGE_SIZE);
}

#[test]
fn test_read_write() {
    let mut mem = create_memory();

    mem.write(0, &[1, 2, 3, 4]).unwrap();
    let read = mem.read(0, 4).unwrap();
    assert_eq!(read, &[1, 2, 3, 4]);
}

#[test]
fn test_u32_le() {
    let mut mem = create_memory();

    mem.write_u32_le(0, 0x12345678).unwrap();
    let read = mem.read_u32_le(0).unwrap();
    assert_eq!(read, 0x12345678);
}

#[test]
fn test_u64_le() {
    let mut mem = create_memory();

    mem.write_u64_le(0, 0x123456789ABCDEF0).unwrap();
    let read = mem.read_u64_le(0).unwrap();
    assert_eq!(read, 0x123456789ABCDEF0);
}

#[test]
fn test_copy_within() {
    let mut mem = create_memory();

    mem.write(0, &[1, 2, 3, 4]).unwrap();
    mem.copy_within(0, 10, 4).unwrap();

    let read = mem.read(10, 4).unwrap();
    assert_eq!(read, &[1, 2, 3, 4]);
}

#[test]
fn test_fill() {
    let mut mem = create_memory();

    mem.fill(0, 0xAB, 10).unwrap();
    let read = mem.read(0, 10).unwrap();
    assert!(read.iter().all(|&b| b == 0xAB));
}

#[test]
fn test_out_of_bounds() {
    let mem = create_memory();

    let result = mem.read(PAGE_SIZE as u32, 1);
    assert!(result.is_err());
}

#[test]
fn test_max_grow() {
    let mut mem = ContractMemory::new(1, 2, GasMeter::new(1_000_000)).unwrap();

    // Should succeed
    let result = mem.grow(1).unwrap();
    assert_eq!(result, 1);

    // Should fail (would exceed max)
    let result = mem.grow(1).unwrap();
    assert_eq!(result, u32::MAX);
}

#[test]
fn memory_grow_charges_expansion_and_can_run_out() {
    let mut mem = ContractMemory::new(1, 16, GasMeter::new(40_000)).unwrap();
    // One page to two: 2048 words to 4096 words.
    assert_eq!(mem.grow(1).unwrap(), 1);
    assert_eq!(mem.gas().used(), (4096 * 3 + 4096 * 4096 / 512) - (2048 * 3 + 2048 * 2048 / 512));
    let before = mem.gas().used();
    assert!(mem.grow(10).unwrap_err().is_out_of_gas());
    assert_eq!(mem.pages(), 2);
    assert_eq!(mem.gas().used(), before);
}

#[test]
fn memory_new_caps_pages_and_rejects_too_large() {
    let mem = ContractMemory::new(10, 3, GasMeter::new(0)).unwrap();
    assert_eq!(mem.pages(), 3);
    assert!(matches!(
        ContractMemory::new(300, 300, GasMeter::new(0)),
        Err(ContractError::InvalidMemoryAccess { offset: 0, size: 19660800 })
    ));
    let d = ContractMemory::default_with_gas(GasMeter::new(0)).unwrap();
    assert_eq!(d.pages(), 1);
    assert_eq!(d.as_slice().len(), PAGE_SIZE);
}

#[test]
fn memory_errors_carry_offset_and_size() {
    let mut mem = create_memory();
    assert_eq!(mem.read_byte(PAGE_SIZE as u32), Err(ContractError::InvalidMemoryAccess { offset: 65536, size: 1 }));
    assert_eq!(mem.write(65535, &[1, 2]), Err(ContractError::InvalidMemoryAccess { offset: 65535, size: 2 }));
    assert_eq!(mem.copy_within(65530, 0, 10), Err(ContractError::InvalidMemoryAccess { offset: 65530, size: 10 }));
    assert_eq!(mem.copy_within(0, 65530, 10), Err(ContractError::InvalidMemoryAccess { offset: 65530, size: 10 }));
    mem.write_byte(7, 9).unwrap();
    assert_eq!(mem.read_byte(7), Ok(9));
}

#[test]
fn memory_copy_within_overlapping_and_charges() {
    let mut mem = create_memory();
    mem.write(0, &[1, 2, 3, 4, 5]).unwrap();
    mem.copy_within(0, 2, 5).unwrap();
    assert_eq!(mem.read(0, 7).unwrap(), &[1, 2, 1, 2, 3, 4, 5]);
    // One word at 3 gas.
    assert_eq!(mem.gas().used(), 3);
}

#[test]
fn memory_le_layout() {
    let mut mem = create_memory();
    mem.write_u32_le(4, 0x01020304).unwrap();
    assert_eq!(mem.read(4, 4).unwrap(), &[4, 3, 2, 1]);
    mem.as_mut_slice()[0] = 0xff;
    assert_eq!(mem.read_byte(0), Ok(0xff));
}

fn create_host_functions() -> HostFunctions {
    HostFunctions::new(
        ContractStorage::new(),
        ContractAddress::new([1u8; 20]),
        ContractAddress::new([2u8; 20]),
        ContractAddress::new([2u8; 20]),
        0,
        100,
        1234567890,
        50,
        GasMeter::new(1_000_000),
    )
}

#[test]
fn test_context_functions() {
    let host = create_host_functions();

    assert_eq!(host.get_address(), ContractAddress::new([1u8; 20]));
    assert_eq!(host.get_caller(), ContractAddress::new([2u8; 20]));
    assert_eq!(host.get_block_number(), 100);
    assert_eq!(host.get_timestamp(), 1234567890);
}

#[test]
fn test_storage() {
    let mut host = create_host_functions();
    let key = [1u8; 32];
    let value = [2u8; 32];

    // Read empty
    let read = host.storage_read(&key).unwrap();
    assert_eq!(read, [0u8; 32]);

    // Write
    host.storage_write(key, value).unwrap();

    // Read back
    let read = host.storage_read(&key).unwrap();
    assert_eq!(read, value);
}

#[test]
fn test_sha3() {
    let mut host = create_host_functions();

    let hash = host.sha3(b"hello").unwrap();
    assert_ne!(hash, [0u8; 32]);
}

#[test]
fn test_emit_log() {
    let mut host = create_host_functions();

    let topic = [1u8; 32];
    let log = host.emit_log(vec![topic], vec![0x01, 0x02]).unwrap();

    assert_eq!(log.address, ContractAddress::new([1u8; 20]));
    assert_eq!(log.topics.len(), 1);
    assert_eq!(log.data, vec![0x01, 0x02]);
}

#[test]
fn test_too_many_topics() {
    let mut host = create_host_functions();

    let topics = vec![[1u8; 32]; 5]; // 5 topics > MAX_LOG_TOPICS
    let result = host.emit_log(topics, vec![]);

    assert!(result.is_err());
}

#[test]
fn host_storage_gas_cold_then_warm_and_refund() {
    let mut host = create_host_functions();
    let key = [9u8; 32];
    host.storage_read(&key).unwrap();
    assert_eq!(host.gas_used(), 2100);
    host.storage_read(&key).unwrap();
    assert_eq!(host.gas_used(), 2200);
    host.storage_write(key, [1u8; 32]).unwrap();
    assert_eq!(host.gas_used(), 22200);
    host.storage_write(key, [0u8; 32]).unwrap();
    assert_eq!(host.gas_used(), 27200);
    assert_eq!(host.gas_remaining(), 1_000_000 - 27200);
}

#[test]
fn host_sha3_charges_and_hashes() {
    let mut host = create_host_functions();
    let hash = host.sha3(&[]).unwrap();
    assert_eq!(hash[0], 0xc5);
    assert_eq!(host.gas_used(), 30);
    host.sha3(&[0u8; 33]).unwrap();
    assert_eq!(host.gas_used(), 30 + 30 + 2 * 6);
}

#[test]
fn host_log_messages_and_balance() {
    let mut host = create_host_functions();
    assert_eq!(
        host.emit_log(vec![[1u8; 32]; 5], vec![]),
        Err(ContractError::InvalidArguments("Too many topics: 5 > 4".to_string()))
    );
    assert_eq!(
        host.emit_log(vec![], vec![0u8; 8193]),
        Err(ContractError::InvalidArguments("Log data too large: 8193 > 8192".to_string()))
    );
    assert_eq!(host.gas_used(), 0);
    assert_eq!(host.get_balance(&ContractAddress::zero()), Ok(0));
    assert_eq!(host.get_self_balance(), Ok(0));
    assert_eq!(host.gas_used(), 705);
    assert_eq!(host.get_value(), 0);
    assert_eq!(host.get_daa_score(), 50);
    assert_eq!(host.get_origin(), ContractAddress::new([2u8; 20]));
}

#[test]
fn host_out_of_gas_on_read() {
    let mut host = HostFunctions::new(
        ContractStorage::new(),
        ContractAddress::new([1u8; 20]),
        ContractAddress::new([2u8; 20]),
        ContractAddress::new([2u8; 20]),
        0,
        1,
        1,
        1,
        GasMeter::new(100),
    );
    assert!(host.storage_read(&[1u8; 32]).unwrap_err().is_out_of_gas());
    // The slot became warm anyway: the warm price now fits.
    assert_eq!(host.storage_read(&[1u8; 32]), Ok([0u8; 32]));
}

#[test]
fn test_execution_context() {
    let ctx = ExecutionContext::new(
        100,
        1234567890,
        50,
        ContractAddress::zero(),
        ContractAddress::zero(),
        ContractAddress::new([1u8; 20]),
        0,
        vec![],
        100_000,
    );

    assert_eq!(ctx.block_number, 100);
    assert_eq!(ctx.depth, 0);
    assert!(ctx.can_modify());
}

#[test]
fn test_child_context() {
    let ctx = ExecutionContext::new(
        100,
        1234567890,
        50,
        ContractAddress::zero(),
        ContractAddress::zero(),
        ContractAddress::new([1u8; 20]),
        0,
        vec![],
        100_000,
    );

    let child = ctx
        .child(ContractAddress::new([1u8; 20]), ContractAddress::new([2u8; 20]), 100, vec![0x01, 0x02], 50_000, false)
        .unwrap();

    assert_eq!(child.depth, 1);
    assert_eq!(child.caller, ContractAddress::new([1u8; 20]));
    assert_eq!(child.address, ContractAddress::new([2u8; 20]));
}

#[test]
fn test_execution_result() {
    let success = ExecutionResult::success(50_000, vec![0x01], vec![]);
    assert!(success.success);
    assert!(success.error.is_none());

    let failure = ExecutionResult::failure(100_000, "out of gas".to_string());
    assert!(!failure.success);
    assert!(failure.error.is_some());
}

fn new_context(caller: ContractAddress, address: ContractAddress) -> ExecutionContext {
    ExecutionContext::new(1, 2, 3, caller, caller, address, 0, vec![], 100_000)
}

fn new_executor() -> ContractExecutor {
    ContractExecutor::new(ContractStorage::new(), CodeStorage::new(), AccountStorage::new())
}

#[test]
fn child_context_limits() {
    let mut ctx = new_context(ContractAddress::zero(), ContractAddress::zero());
    ctx.depth = MAX_CALL_DEPTH;
    assert_eq!(
        ctx.child(ContractAddress::zero(), ContractAddress::zero(), 0, vec![], 10, false).unwrap_err(),
        ContractError::CallDepthExceeded(1024)
    );
    ctx.depth = 3;
    ctx.is_static = true;
    let child = ctx.child(ContractAddress::zero(), ContractAddress::zero(), 0, vec![], 1_000_000, false).unwrap();
    assert!(!child.can_modify());
    assert_eq!(child.remaining_gas(), 100_000 - 100_000 / 64);
    let mut c = child;
    c.consume_gas(10).unwrap();
    assert_eq!(c.remaining_gas(), 100_000 - 100_000 / 64 - 10);
    let r = ExecutionResult::revert(5, vec![7]);
    assert_eq!(r.error, Some("execution reverted".to_string()));
    assert_eq!(r.return_data, vec![7]);
}

#[test]
fn execute_reports_missing_and_invalid_contracts() {
    let mut exec = new_executor();
    let target = ContractAddress::new([5u8; 20]);
    let ctx = new_context(ContractAddress::zero(), target);
    let r = exec.execute(&ctx);
    assert!(!r.success);
    assert_eq!(r.error, Some(format!("Contract not found: 0x{}", "05".repeat(20))));

    let mut code = CodeStorage::new();
    code.store(target, ContractCode::new(vec![1, 2, 3], ContractAddress::zero(), 1));
    let mut exec = ContractExecutor::new(ContractStorage::new(), code, AccountStorage::new());
    exec.emit_log(Log::new(target, vec![], vec![]));
    let r = exec.execute(&ctx);
    assert_eq!(r.error, Some("Invalid contract: Code too short".to_string()));
}

#[test]
fn execute_header_only_module_fails_without_entry_point() {
    let mut code = CodeStorage::new();
    let target = ContractAddress::new([5u8; 20]);
    code.store(target, ContractCode::new(vec![0x00, 0x61, 0x73, 0x6d, 0x01, 0x00, 0x00, 0x00], ContractAddress::zero(), 1));
    let mut exec = ContractExecutor::new(ContractStorage::new(), code, AccountStorage::new());
    exec.emit_log(Log::new(target, vec![], vec![]));
    let r = exec.execute(&new_context(ContractAddress::zero(), target));
    assert!(!r.success);
    assert!(r.error.unwrap().starts_with("Function not found: "));
    assert!(r.logs.is_empty());
    assert!(r.return_data.is_empty());
}

#[test]
fn execute_runs_a_module_with_a_call_export() {
    // (module (func (export "call") (result i32) i32.const 7))
    let wasm = vec![
        0x00, 0x61, 0x73, 0x6d, 0x01, 0x00, 0x00, 0x00, 0x01, 0x05, 0x01, 0x60, 0x00, 0x01, 0x7f, 0x03, 0x02, 0x01, 0x00,
        0x07, 0x08, 0x01, 0x04, 0x63, 0x61, 0x6c, 0x6c, 0x00, 0x00, 0x0a, 0x06, 0x01, 0x04, 0x00, 0x41, 0x07, 0x0b,
    ];
    let mut code = CodeStorage::new();
    let target = ContractAddress::new([5u8; 20]);
    code.store(target, ContractCode::new(wasm, ContractAddress::zero(), 1));
    let mut exec = ContractExecutor::new(ContractStorage::new(), code, AccountStorage::new());
    exec.emit_log(Log::new(target, vec![[3u8; 32]], vec![1]));
    let r = exec.execute(&new_context(ContractAddress::zero(), target));
    assert!(r.success, "{:?}", r.error);
    assert!(r.return_data.is_empty());
    assert_eq!(r.logs.len(), 1);
    assert_eq!(r.gas_used, 0);
}

#[test]
fn deploy_stores_code_and_accounts() {
    let mut exec = new_executor();
    let deployer = ContractAddress::new([8u8; 20]);
    let mut ctx = new_context(deployer, ContractAddress::zero());
    ctx.value = 42;
    let wasm = vec![0x00, 0x61, 0x73, 0x6d, 0x01, 0x00, 0x00, 0x00];
    let addr = exec.deploy(&ctx, wasm.clone(), vec![]).unwrap();
    assert_eq!(addr, ContractAddress::create(deployer.as_bytes(), 0));
    assert!(exec.code_storage().code_exists(&addr));
    assert_eq!(exec.account_storage().balance(&addr), 42);
    assert!(exec.account_storage().is_contract(&addr));
    assert_eq!(exec.account_storage().nonce(&deployer), 1);
    // The next deployment gets the next address.
    let addr2 = exec.deploy(&ctx, wasm.clone(), vec![]).unwrap();
    assert_ne!(addr, addr2);
    // Invalid code is refused and changes nothing.
    let err = exec.deploy(&ctx, vec![1, 2, 3], vec![]).unwrap_err();
    assert_eq!(err, ContractError::InvalidBytecode("Code too short".to_string()));
    assert_eq!(exec.account_storage().nonce(&deployer), 2);
}

#[test]
fn deploy_with_failing_constructor_rolls_back() {
    let mut exec = new_executor();
    let deployer = ContractAddress::new([8u8; 20]);
    let ctx = new_context(deployer, ContractAddress::zero());
    let wasm = vec![0x00, 0x61, 0x73, 0x6d, 0x01, 0x00, 0x00, 0x00];
    let err = exec.deploy(&ctx, wasm, vec![1]).unwrap_err();
    assert!(matches!(err, ContractError::DeploymentFailed(_)));
    let addr = ContractAddress::create(deployer.as_bytes(), 0);
    assert!(!exec.code_storage().code_exists(&addr));
    assert_eq!(exec.account_storage().nonce(&deployer), 0);
}

fn module_with_export(name: [u8; 4], body: &[u8]) -> Vec<u8> {
    let mut wasm = vec![
        0x00, 0x61, 0x73, 0x6d, 0x01, 0x00, 0x00, 0x00, 0x01, 0x05, 0x01, 0x60, 0x00, 0x01, 0x7f, 0x03, 0x02, 0x01, 0x00,
        0x07, 0x08, 0x01, 0x04,
    ];
    wasm.extend_from_slice(&name);
    wasm.extend_from_slice(&[0x00, 0x00, 0x0a, (body.len() + 2) as u8, 0x01, body.len() as u8]);
    wasm.extend_from_slice(body);
    wasm
}

fn executor_with(target: ContractAddress, wasm: Vec<u8>) -> ContractExecutor {
    let mut code = CodeStorage::new();
    code.store(target, ContractCode::new(wasm, ContractAddress::zero(), 1));
    ContractExecutor::new(ContractStorage::new(), code, AccountStorage::new())
}

#[test]
fn execute_runs_a_module_with_a_main_export() {
    let target = ContractAddress::new([5u8; 20]);
    // (module (func (export "main") (result i32) i32.const 7))
    let mut exec = executor_with(target, module_with_export(*b"main", &[0x00, 0x41, 0x07, 0x0b]));
    let r = exec.execute(&new_context(ContractAddress::zero(), target));
    assert!(r.success, "{:?}", r.error);
    assert!(r.return_data.is_empty());
}

#[test]
fn execute_reports_a_module_that_does_not_compile() {
    let target = ContractAddress::new([5u8; 20]);
    // A type section that claims five bytes and holds none.
    let mut exec = executor_with(target, vec![0x00, 0x61, 0x73, 0x6d, 0x01, 0x00, 0x00, 0x00, 0x01, 0x05]);
    exec.emit_log(Log::new(target, vec![], vec![]));
    let r = exec.execute(&new_context(ContractAddress::zero(), target));
    assert!(!r.success);
    assert!(r.error.unwrap().starts_with("WASM error: "));
    assert!(r.logs.is_empty());
}

#[test]
fn execute_stops_a_module_that_does_not_end() {
    let target = ContractAddress::new([5u8; 20]);
    // (module (func (export "call") (result i32) (loop (br 0)) i32.const 0))
    let body = [0x00, 0x03, 0x40, 0x0c, 0x00, 0x0b, 0x41, 0x00, 0x0b];
    let mut exec = executor_with(target, module_with_export(*b"call", &body));
    let r = exec.execute(&new_context(ContractAddress::zero(), target));
    assert!(!r.success);
    assert!(r.error.unwrap().starts_with("WASM error: "));
}

#[test]
fn execute_without_gas_left_runs_out_of_fuel() {
    let target = ContractAddress::new([5u8; 20]);
    let mut exec = executor_with(target, module_with_export(*b"call", &[0x00, 0x41, 0x07, 0x0b]));
    let ctx = ExecutionContext::new(1, 2, 3, ContractAddress::zero(), ContractAddress::zero(), target, 0, vec![], 0);
    let r = exec.execute(&ctx);
    assert!(!r.success);
    assert!(r.error.unwrap().starts_with("WASM error: "));
}

#[test]
fn deploy_with_succeeding_constructor_keeps_the_contract() {
    let mut exec = new_executor();
    let deployer = ContractAddress::new([8u8; 20]);
    let ctx = new_context(deployer, ContractAddress::zero());
    let wasm = module_with_export(*b"call", &[0x00, 0x41, 0x07, 0x0b]);
    let addr = exec.deploy(&ctx, wasm, vec![1]).unwrap();
    assert_eq!(addr, ContractAddress::create(deployer.as_bytes(), 0));
    assert!(exec.code_storage().code_exists(&addr));
    assert_eq!(exec.account_storage().nonce(&deployer), 1);
}

#[test]
fn gas_meter_stays_within_its_limit() {
    let mut meter = GasMeter::new(100);
    assert!(meter.consume(60).is_ok());
    assert!(meter.consume(50).is_err());
    meter.add_refund(u64::MAX);
    assert!(meter.used() <= meter.limit());
    assert_eq!(meter.remaining(), meter.limit() - meter.used());
    let mut child = meter.child(1000);
    assert!(child.consume(u64::MAX).is_err());
    assert!(child.used() <= child.limit());
    assert_eq!(child.remaining(), child.limit() - child.used());
    meter.reset();
    assert_eq!(meter.used(), 0);
    assert_eq!(meter.remaining(), 100);
}

#[test]
fn host_functions_hand_back_storage_and_gas() {
    let mut host = create_host_functions();
    let key = [9u8; 32];
    host.storage_write(key, [1u8; 32]).unwrap();
    let used = host.gas_used();
    assert_eq!(host.gas().used(), used);
    let (storage, gas) = host.into_parts();
    assert_eq!(storage.read(&ContractAddress::new([1u8; 20]), &key), [1u8; 32]);
    assert_eq!(gas.used(), used);
}

#[test]
fn memory_hands_back_its_meter() {
    let mut mem = create_memory();
    mem.grow(1).unwrap();
    let used = mem.gas().used();
    assert!(used > 0);
    let gas = mem.into_gas();
    assert_eq!(gas.used(), used);
}
