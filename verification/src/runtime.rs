//! The contract runtime: deployment, calls, static calls and gas estimation
//! within a block's gas budget, with commit or rollback of pending state.

use vstd::prelude::*;
use crate::account::{AccountStorage, account_commit_effect, account_rollback_effect};
use crate::address::ContractAddress;
use crate::assoc::{has_key, lookup};
use crate::code::{CodeStorage, opt_code};
use crate::error::{ContractError, error_message};
use crate::executor::{ContractExecutor, ExecutionContext, ExecutionResult, deploy_effect, execution_outcome, logs_after_execution, opt_message};
use crate::gas::Gas;
use crate::security::{InputValidator, ReentrancyGuard, input_size_message, MAX_INPUT_SIZE};
use crate::state::{ContractStorage, storage_commit, storage_rollback};

verus! {

broadcast use ContractAddress::lemma_view_len;

/// Configuration of the contract runtime.
#[derive(Debug, Clone, Copy)]
pub struct RuntimeConfig {
    /// Maximum gas per block
    pub block_gas_limit: Gas,
    /// Maximum gas per transaction
    pub tx_gas_limit: Gas,
    /// Maximum contract code size
    pub max_code_size: usize,
    /// Maximum call depth
    pub max_call_depth: u32,
    /// Whether contract creation is enabled
    pub enable_create: bool,
    /// Whether contract calls are enabled
    pub enable_call: bool,
}

/// The default configuration: 30M gas per block, 10M per transaction, 24KB of
/// code, call depth 1024, creation and calls enabled.
pub open spec fn default_runtime_config() -> RuntimeConfig {
    RuntimeConfig {
        block_gas_limit: 30_000_000,
        tx_gas_limit: 10_000_000,
        max_code_size: 24576,
        max_call_depth: 1024,
        enable_create: true,
        enable_call: true,
    }
}

impl Default for RuntimeConfig {
    fn default() -> (r: Self)
        ensures
            r == default_runtime_config(),
    {
        RuntimeConfig {
            block_gas_limit: 30_000_000,
            tx_gas_limit: 10_000_000,
            max_code_size: 24 * 1024,
            max_call_depth: 1024,
            enable_create: true,
            enable_call: true,
        }
    }
}

/// Block information.
#[derive(Debug, Clone, Copy)]
pub struct BlockInfo {
    /// Block number
    pub number: u64,
    /// Block timestamp
    pub timestamp: u64,
    /// DAA score
    pub daa_score: u64,
}

impl BlockInfo {
    /// Creates block information.
    pub fn new(number: u64, timestamp: u64, daa_score: u64) -> (r: Self)
        ensures
            r.number == number,
            r.timestamp == timestamp,
            r.daa_score == daa_score,
    {
        BlockInfo { number, timestamp, daa_score }
    }
}

/// Result of a contract deployment.
#[derive(Debug, Clone)]
pub struct DeployResult {
    /// Address of the deployed contract
    pub address: ContractAddress,
    /// Gas used for deployment
    pub gas_used: Gas,
}

/// The smaller of two gas amounts.
pub open spec fn gas_min(a: u64, b: u64) -> u64 {
    if a <= b { a } else { b }
}

/// The address a deployment result carries, or its error.
pub open spec fn deployed_address(r: Result<DeployResult, ContractError>) -> Result<ContractAddress, ContractError> {
    match r {
        Ok(d) => Ok(d.address),
        Err(e) => Err(e),
    }
}

/// `after` is `before` with its pending contract and account state committed
/// (`commit`) or rolled back; the code stays.
pub open spec fn settled(before: ContractExecutor, after: ContractExecutor, commit: bool) -> bool {
    &&& after.spec_code() == before.spec_code()
    &&& after.spec_storage().wf()
    &&& (forall|a: Seq<u8>, k: Seq<u8>| #[trigger] after.spec_storage().warm_spec(a, k) == before.spec_storage().warm_spec(a, k))
    &&& if commit {
        &&& after.spec_storage().cache_view() == storage_commit(before.spec_storage().cache_view())
        &&& account_commit_effect(before.spec_accounts(), after.spec_accounts())
    } else {
        &&& after.spec_storage().cache_view() == storage_rollback(before.spec_storage().cache_view())
        &&& account_rollback_effect(before.spec_accounts(), after.spec_accounts())
    }
}

/// What a call that passed its checks does: it executes on `to` with a fresh
/// meter (so no gas shows as used), counts the result's gas against the block,
/// and settles the pending state by the result; no contract stays locked.
pub open spec fn call_effect(before: ContractRuntime, after: ContractRuntime, to: Seq<u8>, res: ExecutionResult) -> bool {
    &&& execution_outcome(before.spec_executor(), to, 0, res)
    &&& after.spec_block_gas_used() == before.spec_block_gas_used() + res.gas_used
    &&& after.spec_executor().spec_logs() == logs_after_execution(before.spec_executor(), to)
    &&& settled(before.spec_executor(), after.spec_executor(), res.success)
}

/// Whether `r` is the estimate made from a call's result: the gas used plus a
/// tenth on success, else a revert with the failure's message (empty if none).
pub open spec fn estimate_of(res: ExecutionResult, r: Result<Gas, ContractError>) -> bool {
    if res.success {
        r == Ok::<Gas, ContractError>((res.gas_used + res.gas_used / 10) as u64)
    } else {
        r matches Err(ContractError::Revert(m)) && m@ == match opt_message(res.error) {
            Some(s) => s,
            None => Seq::empty(),
        }
    }
}

/// What `deploy` does with a deployment by `deployer` asking for `gas_limit`.
pub open spec fn runtime_deploy_effect(
    before: ContractRuntime,
    after: ContractRuntime,
    deployer: Seq<u8>,
    code: Seq<u8>,
    init_data: Seq<u8>,
    value: u64,
    gas_limit: u64,
    block_number: u64,
    r: Result<DeployResult, ContractError>,
) -> bool {
    let cfg = before.spec_config();
    let limit = gas_min(gas_limit, cfg.tx_gas_limit);
    let used = before.spec_block_gas_used();
    if !cfg.enable_create {
        &&& r matches Err(ContractError::DeploymentFailed(m)) && m@ == "contract creation disabled"@
        &&& after == before
    } else if code.len() > cfg.max_code_size {
        &&& r == Err::<DeployResult, ContractError>(ContractError::CodeSizeExceeded { size: code.len() as usize, max: cfg.max_code_size })
        &&& after == before
    } else if used + limit > cfg.block_gas_limit {
        &&& r == Err::<DeployResult, ContractError>(ContractError::OutOfGas { used: (used + limit) as u64, limit: cfg.block_gas_limit })
        &&& after == before
    } else {
        &&& deploy_effect(before.spec_executor(), after.spec_executor(), deployer, block_number, value, 0, code, init_data, deployed_address(r))
        &&& r matches Ok(d) ==> d.gas_used == 0
        &&& after.spec_block_gas_used() == used
    }
}

/// What `call` does with a call to `to` with `data`, asking for `gas_limit`.
pub open spec fn runtime_call_effect(
    before: ContractRuntime,
    after: ContractRuntime,
    to: Seq<u8>,
    data: Seq<u8>,
    gas_limit: u64,
    r: Result<ExecutionResult, ContractError>,
) -> bool {
    let cfg = before.spec_config();
    let limit = gas_min(gas_limit, cfg.tx_gas_limit);
    let used = before.spec_block_gas_used();
    if !cfg.enable_call {
        &&& r matches Err(ContractError::Revert(m)) && m@ == "contract calls disabled"@
        &&& after == before
    } else if data.len() > MAX_INPUT_SIZE {
        &&& r matches Err(ContractError::InvalidArguments(m)) && m@ == input_size_message(data.len())
        &&& after == before
    } else if used + limit > cfg.block_gas_limit {
        &&& r == Err::<ExecutionResult, ContractError>(ContractError::OutOfGas { used: (used + limit) as u64, limit: cfg.block_gas_limit })
        &&& after == before
    } else {
        r matches Ok(res) && call_effect(before, after, to, res)
    }
}

/// `after` is `before` at the start of a block: no block gas used and no warm
/// slots; all state kept.
pub open spec fn block_begun(before: ContractRuntime, after: ContractRuntime) -> bool {
    &&& after.wf()
    &&& after.spec_config() == before.spec_config()
    &&& after.spec_block_gas_used() == 0
    &&& after.spec_storage().wf()
    &&& after.spec_storage().cache_view() == before.spec_storage().cache_view()
    &&& forall|a: Seq<u8>, k: Seq<u8>| !#[trigger] after.spec_storage().warm_spec(a, k)
    &&& after.spec_code() == before.spec_code()
    &&& after.spec_accounts() == before.spec_accounts()
    &&& after.spec_executor().spec_logs() == before.spec_executor().spec_logs()
}

/// `after` is `before` at the end of a block: all pending state committed.
pub open spec fn block_ended(before: ContractRuntime, after: ContractRuntime) -> bool {
    &&& after.wf()
    &&& after.spec_config() == before.spec_config()
    &&& after.spec_block_gas_used() == before.spec_block_gas_used()
    &&& settled(before.spec_executor(), after.spec_executor(), true)
    &&& after.spec_executor().spec_logs() == before.spec_executor().spec_logs()
}

/// The main contract runtime.
pub struct ContractRuntime {
    config: RuntimeConfig,
    executor: ContractExecutor,
    block_gas_used: Gas,
    reentrancy_guard: ReentrancyGuard,
}

impl ContractRuntime {
    /// The configuration.
    pub closed spec fn spec_config(&self) -> RuntimeConfig {
        self.config
    }

    /// The executor, which holds the contract, code and account storages.
    pub closed spec fn spec_executor(&self) -> ContractExecutor {
        self.executor
    }

    /// The gas used in the current block.
    pub closed spec fn spec_block_gas_used(&self) -> u64 {
        self.block_gas_used
    }

    /// The contracts locked against reentry.
    pub closed spec fn spec_locked(&self) -> Set<Seq<u8>> {
        self.reentrancy_guard.locked_set()
    }

    /// The storages are well formed and no contract is locked between calls.
    pub closed spec fn wf(&self) -> bool {
        &&& self.executor.wf()
        &&& self.reentrancy_guard.wf()
        &&& self.reentrancy_guard.locked_set() == Set::<Seq<u8>>::empty()
    }

    /// The contract storage.
    pub open spec fn spec_storage(&self) -> ContractStorage {
        self.spec_executor().spec_storage()
    }

    /// The code storage.
    pub open spec fn spec_code(&self) -> CodeStorage {
        self.spec_executor().spec_code()
    }

    /// The account storage.
    pub open spec fn spec_accounts(&self) -> AccountStorage {
        self.spec_executor().spec_accounts()
    }

    /// Creates a runtime with empty storages and no block gas used.
    pub fn new(config: RuntimeConfig) -> (r: Self)
        ensures
            r.wf(),
            r.spec_config() == config,
            r.spec_block_gas_used() == 0,
            r.spec_locked() == Set::<Seq<u8>>::empty(),
            r.spec_storage().cache_view().len() == 0,
            r.spec_code().address_table().len() == 0,
            r.spec_code().hash_table().len() == 0,
            r.spec_accounts().committed_view().len() == 0,
            r.spec_accounts().pending_view().len() == 0,
            r.spec_executor().spec_logs().len() == 0,
    {
        let executor = ContractExecutor::new(ContractStorage::new(), CodeStorage::new(), AccountStorage::new());
        ContractRuntime { config, executor, block_gas_used: 0, reentrancy_guard: ReentrancyGuard::new() }
    }

    /// The configuration.
    pub fn config(&self) -> (r: &RuntimeConfig)
        ensures
            *r == self.spec_config(),
    {
        &self.config
    }

    /// Deploys a contract. Fails when creation is disabled, when the code is larger
    /// than the configured maximum, or when the gas limit (capped at the
    /// transaction limit) does not fit in what is left of the block's gas; then
    /// deploys as the executor does, from the deployer, with the init data as call
    /// data, and adds the gas used to the block.
    pub fn deploy(
        &mut self,
        deployer: ContractAddress,
        code: Vec<u8>,
        init_data: Vec<u8>,
        value: u64,
        gas_limit: Gas,
        block_info: BlockInfo,
    ) -> (r: Result<DeployResult, ContractError>)
        requires
            old(self).wf(),
            old(self).spec_config().enable_create && code@.len() <= old(self).spec_config().max_code_size
                ==> old(self).spec_block_gas_used() + gas_min(gas_limit, old(self).spec_config().tx_gas_limit) <= u64::MAX,
        ensures
            final(self).wf(),
            final(self).spec_config() == old(self).spec_config(),
            runtime_deploy_effect(*old(self), *final(self), deployer@, code@, init_data@, value, gas_limit, block_info.number, r),
    {
        if !self.config.enable_create {
            return Err(ContractError::DeploymentFailed(String::from_str("contract creation disabled")));
        }
        if code.len() > self.config.max_code_size {
            return Err(ContractError::code_size_exceeded(code.len(), self.config.max_code_size));
        }
        let gas_limit = if gas_limit <= self.config.tx_gas_limit { gas_limit } else { self.config.tx_gas_limit };
        let block_used = self.block_gas_used;
        if block_used + gas_limit > self.config.block_gas_limit {
            return Err(ContractError::out_of_gas(block_used + gas_limit, self.config.block_gas_limit));
        }
        let ctx = ExecutionContext::new(
            block_info.number,
            block_info.timestamp,
            block_info.daa_score,
            deployer,
            deployer,
            ContractAddress::zero(),
            value,
            init_data.clone(),
            gas_limit,
        );
        let ghost before = self.executor;
        let outcome = self.executor.deploy(&ctx, code, init_data);
        let ghost o = outcome;
        let address = match outcome {
            Ok(a) => a,
            Err(e) => {
                assert(deploy_effect(before, self.executor, deployer@, block_info.number, value, 0, code@, init_data@, o));
                return Err(e);
            },
        };
        self.block_gas_used = self.block_gas_used + ctx.gas.used();
        let r = Ok(DeployResult { address, gas_used: ctx.gas.used() });
        assert(deploy_effect(before, self.executor, deployer@, block_info.number, value, 0, code@, init_data@, o));
        r
    }

    /// Calls a contract. Fails when calls are disabled, when the call data is over
    /// 64KB, when the gas limit (capped at the transaction limit) does not fit in
    /// what is left of the block's gas, or when the contract is already executing.
    /// Otherwise executes the call, adds its gas to the block, and commits the
    /// pending state on success or rolls it back on failure.
    pub fn call(
        &mut self,
        caller: ContractAddress,
        to: ContractAddress,
        data: Vec<u8>,
        value: u64,
        gas_limit: Gas,
        block_info: BlockInfo,
    ) -> (r: Result<ExecutionResult, ContractError>)
        requires
            old(self).wf(),
            old(self).spec_config().enable_call && data@.len() <= MAX_INPUT_SIZE
                ==> old(self).spec_block_gas_used() + gas_min(gas_limit, old(self).spec_config().tx_gas_limit) <= u64::MAX,
        ensures
            final(self).wf(),
            final(self).spec_config() == old(self).spec_config(),
            runtime_call_effect(*old(self), *final(self), to@, data@, gas_limit, r),
    {
        if !self.config.enable_call {
            return Err(ContractError::Revert(String::from_str("contract calls disabled")));
        }
        InputValidator::validate_input_size(data.as_slice())?;
        let gas_limit = if gas_limit <= self.config.tx_gas_limit { gas_limit } else { self.config.tx_gas_limit };
        let block_used = self.block_gas_used;
        if block_used + gas_limit > self.config.block_gas_limit {
            return Err(ContractError::out_of_gas(block_used + gas_limit, self.config.block_gas_limit));
        }
        let lock = self.reentrancy_guard.acquire(&to)?;
        let ctx = ExecutionContext::new(
            block_info.number,
            block_info.timestamp,
            block_info.daa_score,
            caller,
            caller,
            to,
            value,
            data,
            gas_limit,
        );
        let result = self.executor.execute(&ctx);
        self.block_gas_used = self.block_gas_used + result.gas_used;
        self.settle(result.success);
        self.reentrancy_guard.release(lock);
        assert(self.reentrancy_guard.locked_set() =~= Set::<Seq<u8>>::empty());
        Ok(result)
    }

    /// Commits (on success) or rolls back the pending contract and account state.
    fn settle(&mut self, success: bool)
        requires
            old(self).executor.wf(),
        ensures
            final(self).executor.wf(),
            settled(old(self).spec_executor(), final(self).spec_executor(), success),
            final(self).spec_executor().spec_logs() == old(self).spec_executor().spec_logs(),
            final(self).config == old(self).config,
            final(self).block_gas_used == old(self).block_gas_used,
            final(self).reentrancy_guard == old(self).reentrancy_guard,
    {
        if success {
            self.executor.storage_mut().commit();
            self.executor.account_storage_mut().commit();
        } else {
            self.executor.storage_mut().rollback();
            self.executor.account_storage_mut().rollback();
        }
    }

    /// Simulates a call without modifying state: the context is static and sends
    /// no value; contract storage, code, accounts (pending changes included) and
    /// the block's gas stay as they were.
    pub fn static_call(
        &mut self,
        caller: ContractAddress,
        to: ContractAddress,
        data: Vec<u8>,
        gas_limit: Gas,
        block_info: BlockInfo,
    ) -> (r: Result<ExecutionResult, ContractError>)
        requires
            old(self).wf(),
        ensures
            final(self).wf(),
            final(self).spec_config() == old(self).spec_config(),
            final(self).spec_block_gas_used() == old(self).spec_block_gas_used(),
            final(self).spec_storage() == old(self).spec_storage(),
            final(self).spec_code() == old(self).spec_code(),
            final(self).spec_accounts() == old(self).spec_accounts(),
            final(self).spec_executor().spec_logs() == logs_after_execution(old(self).spec_executor(), to@),
            r matches Ok(res) && execution_outcome(old(self).spec_executor(), to@, 0, res),
    {
        let mut ctx = ExecutionContext::new(
            block_info.number,
            block_info.timestamp,
            block_info.daa_score,
            caller,
            caller,
            to,
            0,
            data,
            gas_limit,
        );
        ctx.is_static = true;
        let result = self.executor.execute(&ctx);
        Ok(result)
    }

    /// Estimates the gas of a call by making it with the transaction gas limit:
    /// the gas used plus a tenth, or the revert of the failure's message.
    pub fn estimate_gas(
        &mut self,
        caller: ContractAddress,
        to: ContractAddress,
        data: Vec<u8>,
        value: u64,
        block_info: BlockInfo,
    ) -> (r: Result<Gas, ContractError>)
        requires
            old(self).wf(),
            old(self).spec_config().enable_call && data@.len() <= MAX_INPUT_SIZE
                ==> old(self).spec_block_gas_used() + old(self).spec_config().tx_gas_limit <= u64::MAX,
        ensures
            final(self).wf(),
            final(self).spec_config() == old(self).spec_config(),
            ({
                let cfg = old(self).spec_config();
                let used = old(self).spec_block_gas_used();
                if !cfg.enable_call {
                    &&& r matches Err(ContractError::Revert(m)) && m@ == "contract calls disabled"@
                    &&& *final(self) == *old(self)
                } else if data@.len() > MAX_INPUT_SIZE {
                    &&& r matches Err(ContractError::InvalidArguments(m)) && m@ == input_size_message(data@.len())
                    &&& *final(self) == *old(self)
                } else if used + cfg.tx_gas_limit > cfg.block_gas_limit {
                    &&& r == Err::<Gas, ContractError>(ContractError::OutOfGas { used: (used + cfg.tx_gas_limit) as u64, limit: cfg.block_gas_limit })
                    &&& *final(self) == *old(self)
                } else {
                    exists|res: ExecutionResult| #[trigger] call_effect(*old(self), *final(self), to@, res) && estimate_of(res, r)
                }
            }),
    {
        let tx_limit = self.config.tx_gas_limit;
        let result = self.call(caller, to, data, value, tx_limit, block_info)?;
        let ghost res = result;
        if result.success {
            let r = Ok(result.gas_used + result.gas_used / 10);
            assert(estimate_of(res, r));
            assert(call_effect(*old(self), *self, to@, res));
            r
        } else {
            let m = match result.error {
                Some(e) => e,
                None => String::new(),
            };
            let r = Err(ContractError::Revert(m));
            assert(estimate_of(res, r));
            assert(call_effect(*old(self), *self, to@, res));
            r
        }
    }

    /// The code deployed at `address`.
    pub fn get_code(&self, address: &ContractAddress) -> (r: Option<Vec<u8>>)
        requires
            self.wf(),
        ensures
            match lookup(self.spec_code().address_table(), address@) {
                Some(c) => r matches Some(v) && v@ == c.code,
                None => r is None,
            },
    {
        match self.executor.code_storage().get(address) {
            Some(c) => Some(c.code),
            None => None,
        }
    }

    /// The value of a storage slot of a contract.
    pub fn get_storage(&self, address: &ContractAddress, key: &[u8; 32]) -> (r: [u8; 32])
        requires
            self.wf(),
        ensures
            r@ == self.spec_storage().read_spec(address@, key@),
    {
        self.executor.storage().read(address, key)
    }

    /// The balance of an account.
    pub fn get_balance(&self, address: &ContractAddress) -> (r: u64)
        requires
            self.wf(),
        ensures
            r == self.spec_accounts().get_spec(address@).balance,
    {
        self.executor.account_storage().balance(address)
    }

    /// The nonce of an account.
    pub fn get_nonce(&self, address: &ContractAddress) -> (r: u64)
        requires
            self.wf(),
        ensures
            r == self.spec_accounts().get_spec(address@).nonce,
    {
        self.executor.account_storage().nonce(address)
    }

    /// Whether code is deployed at `address`.
    pub fn is_contract(&self, address: &ContractAddress) -> (r: bool)
        requires
            self.wf(),
        ensures
            r == has_key(self.spec_code().address_table(), address@),
    {
        self.executor.code_storage().code_exists(address)
    }

    /// Starts a block: no block gas used, no warm slots.
    pub fn begin_block(&mut self)
        requires
            old(self).wf(),
        ensures
            block_begun(*old(self), *final(self)),
    {
        self.block_gas_used = 0;
        self.executor.storage_mut().clear_warm();
    }

    /// Ends a block: commits all pending contract and account state.
    pub fn end_block(&mut self)
        requires
            old(self).wf(),
        ensures
            block_ended(*old(self), *final(self)),
    {
        self.settle(true);
    }

    /// The gas used in the current block.
    pub fn block_gas_used(&self) -> (r: Gas)
        ensures
            r == self.spec_block_gas_used(),
    {
        self.block_gas_used
    }

    /// The gas left in the current block.
    pub fn block_gas_remaining(&self) -> (r: Gas)
        ensures
            r == (if self.spec_block_gas_used() >= self.spec_config().block_gas_limit { 0 } else {
                self.spec_config().block_gas_limit - self.spec_block_gas_used()
            }),
    {
        self.config.block_gas_limit.saturating_sub(self.block_gas_used)
    }
}

impl Default for ContractRuntime {
    fn default() -> (r: Self)
        ensures
            r.wf(),
            r.spec_config() == default_runtime_config(),
            r.spec_block_gas_used() == 0,
            r.spec_storage().cache_view().len() == 0,
            r.spec_code().address_table().len() == 0,
            r.spec_accounts().committed_view().len() == 0,
            r.spec_accounts().pending_view().len() == 0,
    {
        Self::new(RuntimeConfig::default())
    }
}

} // verus!
