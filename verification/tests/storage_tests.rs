use pyrin_contracts::account::{AccountState, AccountStorage};
use pyrin_contracts::address::ContractAddress;
use pyrin_contracts::code::{CodeStorage, ContractCode};
use pyrin_contracts::state::{zero_value, ContractState, ContractStorage, StorageSlot};

fn valid_wasm_header() -> Vec<u8> {
    vec![
        0x00, 0x61, 0x73, 0x6d, // \0asm
        0x01, 0x00, 0x00, 0x00, // version 1
    ]
}

#[test]
fn test_storage_slot() {
    let mut slot = StorageSlot::empty();
    assert!(slot.is_zero());
    assert!(slot.was_zero());
    assert!(!slot.dirty);

    slot.set([1u8; 32]);
    assert!(!slot.is_zero());
    assert!(slot.was_zero());
    assert!(slot.dirty);
}

#[test]
fn test_contract_state() {
    let mut state = ContractState::new();
    let key = [1u8; 32];

    assert_eq!(state.get(&key), zero_value());

    state.set(key, [2u8; 32]);
    assert_eq!(state.get(&key), [2u8; 32]);
    assert!(state.is_dirty());

    state.revert();
    assert_eq!(state.get(&key), zero_value());
}

#[test]
fn test_contract_storage() {
    let mut storage = ContractStorage::new();
    let addr = ContractAddress::zero();
    let key = [1u8; 32];

    assert_eq!(storage.read(&addr, &key), zero_value());

    storage.write(&addr, key, [2u8; 32]);
    assert_eq!(storage.read(&addr, &key), [2u8; 32]);

    storage.rollback();
    assert_eq!(storage.read(&addr, &key), zero_value());
}

#[test]
fn test_warm_slots() {
    let mut storage = ContractStorage::new();
    let addr = ContractAddress::zero();
    let key = [1u8; 32];

    assert!(!storage.is_warm(&addr, &key));

    storage.mark_warm(&addr, key);
    assert!(storage.is_warm(&addr, &key));

    storage.clear_warm();
    assert!(!storage.is_warm(&addr, &key));
}

#[test]
fn test_account_state() {
    let mut state = AccountState::eoa(1000);

    assert!(!state.is_contract());
    assert!(!state.is_empty());
    assert_eq!(state.balance, 1000);

    state.increment_nonce();
    assert_eq!(state.nonce, 1);

    state.add_balance(500);
    assert_eq!(state.balance, 1500);

    state.sub_balance(200).unwrap();
    assert_eq!(state.balance, 1300);

    assert!(state.sub_balance(2000).is_err());
}

#[test]
fn test_account_storage() {
    let mut storage = AccountStorage::new();
    let addr = ContractAddress::new([1u8; 20]);

    assert!(!storage.account_exists(&addr));
    assert_eq!(storage.balance(&addr), 0);

    storage.update(addr, AccountState::eoa(1000));

    assert!(storage.account_exists(&addr));
    assert_eq!(storage.balance(&addr), 1000);

    // Not committed yet
    storage.rollback();
    assert!(!storage.account_exists(&addr));

    // Now commit
    storage.update(addr, AccountState::eoa(1000));
    storage.commit();
    assert!(storage.account_exists(&addr));
}

#[test]
fn test_transfer() {
    let mut storage = AccountStorage::new();
    let alice = ContractAddress::new([1u8; 20]);
    let bob = ContractAddress::new([2u8; 20]);

    storage.update(alice, AccountState::eoa(1000));
    storage.commit();

    storage.transfer(&alice, &bob, 300).unwrap();
    storage.commit();

    assert_eq!(storage.balance(&alice), 700);
    assert_eq!(storage.balance(&bob), 300);
}

#[test]
fn test_contract_code() {
    let code = ContractCode::new(valid_wasm_header(), ContractAddress::zero(), 100);

    assert_eq!(code.size(), 8);
    assert!(!code.is_empty());
    assert!(code.validate().is_ok());
}

#[test]
fn test_invalid_wasm() {
    let code = ContractCode::new(vec![0x01, 0x02, 0x03, 0x04], ContractAddress::zero(), 100);

    assert!(code.validate().is_err());
}

#[test]
fn test_code_storage() {
    let mut storage = CodeStorage::new();
    let address = ContractAddress::new([1u8; 20]);

    assert!(!storage.code_exists(&address));

    let code = ContractCode::new(valid_wasm_header(), ContractAddress::zero(), 100);

    storage.store(address, code);

    assert!(storage.code_exists(&address));
    assert_eq!(storage.count(), 1);

    let retrieved = storage.get(&address).unwrap();
    assert_eq!(retrieved.size(), 8);
}

#[test]
fn test_code_deduplication() {
    let mut storage = CodeStorage::new();
    let addr1 = ContractAddress::new([1u8; 20]);
    let addr2 = ContractAddress::new([2u8; 20]);

    let wasm = valid_wasm_header();

    let code1 = ContractCode::new(wasm.clone(), ContractAddress::zero(), 100);
    let code2 = ContractCode::new(wasm, ContractAddress::zero(), 101);

    storage.store(addr1, code1);
    storage.store(addr2, code2);

    // Both addresses point to code with the same hash
    let retrieved1 = storage.get(&addr1).unwrap();
    let retrieved2 = storage.get(&addr2).unwrap();

    assert_eq!(retrieved1.code_hash, retrieved2.code_hash);
}

#[test]
fn code_validation_messages() {
    let mut too_big = valid_wasm_header();
    too_big.resize(24 * 1024 + 1, 0);
    let c = ContractCode::new(too_big, ContractAddress::zero(), 1);
    assert_eq!(c.validate(), Err("Code size 24577 exceeds maximum 24576".to_string()));
    let c = ContractCode::new(vec![0x00, 0x61, 0x73], ContractAddress::zero(), 1);
    assert_eq!(c.validate(), Err("Code too short".to_string()));
    let c = ContractCode::new(vec![0x01, 0x61, 0x73, 0x6d, 1, 0, 0, 0], ContractAddress::zero(), 1);
    assert_eq!(c.validate(), Err("Invalid WASM magic bytes".to_string()));
    let c = ContractCode::new(vec![0x00, 0x61, 0x73, 0x6d, 2, 0, 0, 0], ContractAddress::zero(), 1);
    assert_eq!(c.validate(), Err("Unsupported WASM version".to_string()));
}

#[test]
fn code_hash_is_keccak_of_code() {
    let c = ContractCode::new(vec![], ContractAddress::zero(), 1);
    // Keccak-256 of the empty input.
    let expected = [
        0xc5, 0xd2, 0x46, 0x01, 0x86, 0xf7, 0x23, 0x3c, 0x92, 0x7e, 0x7d, 0xb2, 0xdc, 0xc7, 0x03, 0xc0, 0xe5, 0x00, 0xb6,
        0x53, 0xca, 0x82, 0x27, 0x3b, 0x7b, 0xfa, 0xd8, 0x04, 0x5d, 0x85, 0xa4, 0x70,
    ];
    assert_eq!(c.code_hash.as_bytes(), expected);
    assert_eq!(ContractCode::compute_hash(&[]), pyrin_contracts::digest::Hash::from_bytes(expected));
}

#[test]
fn code_storage_keeps_first_code_per_hash_and_removes() {
    let mut storage = CodeStorage::new();
    let addr1 = ContractAddress::new([1u8; 20]);
    let addr2 = ContractAddress::new([2u8; 20]);
    let c1 = ContractCode::new(valid_wasm_header(), ContractAddress::zero(), 100);
    let hash = c1.code_hash;
    storage.store(addr1, c1);
    storage.store(addr2, ContractCode::new(valid_wasm_header(), ContractAddress::zero(), 101));
    assert_eq!(storage.get_by_hash(&hash).unwrap().deployed_at, 100);
    assert_eq!(storage.addresses(), vec![addr1, addr2]);
    let removed = storage.remove(&addr1).unwrap();
    assert_eq!(removed.deployed_at, 100);
    assert!(storage.get(&addr1).is_none());
    assert!(storage.remove(&addr1).is_none());
    assert_eq!(storage.count(), 1);
    assert!(storage.get_by_hash(&hash).is_some());
}

#[test]
fn account_commit_deletes_empty_accounts() {
    let mut storage = AccountStorage::new();
    let a = ContractAddress::new([1u8; 20]);
    let b = ContractAddress::new([2u8; 20]);
    storage.update(a, AccountState::eoa(5));
    storage.update(b, AccountState::eoa(7));
    assert_eq!(storage.count(), 2);
    storage.commit();
    storage.update(a, AccountState::empty());
    assert_eq!(storage.count(), 1);
    storage.commit();
    assert_eq!(storage.count(), 1);
    assert!(!storage.account_exists(&a));
    assert_eq!(storage.balance(&b), 7);
}

#[test]
fn account_transfer_needs_funds_and_changes_nothing_on_failure() {
    let mut storage = AccountStorage::new();
    let a = ContractAddress::new([1u8; 20]);
    let b = ContractAddress::new([2u8; 20]);
    storage.update(a, AccountState::eoa(100));
    assert!(storage.transfer(&a, &b, 101).is_err());
    assert_eq!(storage.balance(&a), 100);
    assert_eq!(storage.balance(&b), 0);
    storage.transfer(&a, &b, 100).unwrap();
    assert_eq!(storage.balance(&a), 0);
    assert_eq!(storage.balance(&b), 100);
}

#[test]
fn account_state_saturates() {
    let mut s = AccountState::new(u64::MAX, u64::MAX - 1, pyrin_contracts::digest::Hash::zero(), pyrin_contracts::digest::Hash::zero());
    s.increment_nonce();
    assert_eq!(s.nonce, u64::MAX);
    s.add_balance(10);
    assert_eq!(s.balance, u64::MAX);
    let contract = AccountState::new(0, 0, pyrin_contracts::digest::Hash::from_bytes([9u8; 32]), pyrin_contracts::digest::Hash::zero());
    assert!(contract.is_contract());
    assert!(!contract.is_empty());
}

#[test]
fn storage_commit_then_rollback_keeps_committed_values() {
    let mut storage = ContractStorage::new();
    let addr = ContractAddress::new([3u8; 20]);
    let key = [4u8; 32];
    storage.write(&addr, key, [5u8; 32]);
    storage.commit();
    storage.write(&addr, key, [6u8; 32]);
    assert_eq!(storage.read(&addr, &key), [6u8; 32]);
    storage.rollback();
    assert_eq!(storage.read(&addr, &key), [5u8; 32]);
    assert!(storage.dirty_states().is_empty());
}

#[test]
fn contract_state_load_and_dirty_slots() {
    let mut state = ContractState::new();
    state.load([1u8; 32], [7u8; 32]);
    assert!(!state.is_dirty());
    assert_eq!(state.get(&[1u8; 32]), [7u8; 32]);
    state.set([2u8; 32], [8u8; 32]);
    let dirty = state.dirty_slots();
    assert_eq!(dirty.len(), 1);
    assert_eq!(dirty[0].0, [2u8; 32]);
    state.clear_dirty();
    assert!(!state.is_dirty());
    state.revert();
    assert_eq!(state.get(&[2u8; 32]), [8u8; 32]);
}
