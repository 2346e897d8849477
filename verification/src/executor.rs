//! The contract executor: execution contexts, results, and deployment and
//! execution of contracts on the `wasmi` interpreter.

use vstd::prelude::*;
use crate::account::{AccountState, AccountStorage, AccountView, account_get};
use crate::address::{ContractAddress, create_address_spec};
use crate::assoc::{assoc_put, assoc_remove, has_key, lookup};
use crate::code::{CodeStorage, ContractCode, CodeView, code_validation};
use crate::digest::{keccak256_digest, zero_bytes};
use crate::error::{ContractError, error_message};
use crate::gas::{child_limit_spec, charge_result, charged, Gas, GasMeter};
use crate::hexstr::hex_encode_spec;
use crate::state::ContractStorage;
use crate::types::Log;
use crate::wasm::{
    compile_outcome, defines, export_outcome, linker_engine, module_engine, linker_env_funcs, linker_shadows, store_engine, val_i32, val_i64,
    wasm_call, wasm_compile, wasm_config, wasm_consume_fuel, wasm_define_i_i, wasm_define_ii, wasm_define_ii_i,
    wasm_define_iiii_i, wasm_define_iliil_i, wasm_define_to_l, wasm_engine, wasm_export, wasm_instantiate, wasm_linker,
    wasm_set_fuel, wasm_store,
};

verus! {

broadcast use ContractAddress::lemma_view_len;

/// Maximum call depth for nested contract calls.
pub const MAX_CALL_DEPTH: u32 = 1024;

/// Maximum memory pages (64KB each) a contract can use (16MB).
pub const MAX_MEMORY_PAGES: u32 = 256;

/// Execution context passed to contracts.
#[derive(Debug)]
pub struct ExecutionContext {
    /// Current block number
    pub block_number: u64,
    /// Current block timestamp
    pub block_timestamp: u64,
    /// Block's DAA score
    pub daa_score: u64,
    /// Transaction origin (original sender)
    pub origin: ContractAddress,
    /// Current caller (may differ from origin in nested calls)
    pub caller: ContractAddress,
    /// Current contract address
    pub address: ContractAddress,
    /// Value sent with this call (in sompis)
    pub value: u64,
    /// Call data
    pub data: Vec<u8>,
    /// Gas meter of this call
    pub gas: GasMeter,
    /// Current call depth
    pub depth: u32,
    /// Whether this is a static call (read-only)
    pub is_static: bool,
}

impl Clone for ExecutionContext {
    fn clone(&self) -> (r: Self)
        ensures
            r.block_number == self.block_number,
            r.block_timestamp == self.block_timestamp,
            r.daa_score == self.daa_score,
            r.origin == self.origin,
            r.caller == self.caller,
            r.address == self.address,
            r.value == self.value,
            r.data@ == self.data@,
            r.gas == self.gas,
            r.depth == self.depth,
            r.is_static == self.is_static,
    {
        let data = self.data.clone();
        assert(data@ =~= self.data@);
        ExecutionContext {
            block_number: self.block_number,
            block_timestamp: self.block_timestamp,
            daa_score: self.daa_score,
            origin: self.origin,
            caller: self.caller,
            address: self.address,
            value: self.value,
            data,
            gas: self.gas,
            depth: self.depth,
            is_static: self.is_static,
        }
    }
}

impl ExecutionContext {
    /// Creates a top-level context: depth 0, not static, a fresh meter with `gas_limit`.
    pub fn new(
        block_number: u64,
        block_timestamp: u64,
        daa_score: u64,
        origin: ContractAddress,
        caller: ContractAddress,
        address: ContractAddress,
        value: u64,
        data: Vec<u8>,
        gas_limit: Gas,
    ) -> (r: Self)
        ensures
            r.block_number == block_number,
            r.block_timestamp == block_timestamp,
            r.daa_score == daa_score,
            r.origin == origin,
            r.caller == caller,
            r.address == address,
            r.value == value,
            r.data@ == data@,
            r.gas.spec_limit() == gas_limit,
            r.gas.spec_used() == 0,
            r.gas.spec_refund() == 0,
            r.gas.spec_costs() == crate::gas::default_gas_costs(),
            r.depth == 0,
            !r.is_static,
    {
        ExecutionContext {
            block_number,
            block_timestamp,
            daa_score,
            origin,
            caller,
            address,
            value,
            data,
            gas: GasMeter::new(gas_limit),
            depth: 0,
            is_static: false,
        }
    }

    /// A context for a nested call: same block and origin, one level deeper, static
    /// when either is, with a child meter. Fails at the maximum depth.
    pub fn child(
        &self,
        caller: ContractAddress,
        address: ContractAddress,
        value: u64,
        data: Vec<u8>,
        gas_limit: Gas,
        is_static: bool,
    ) -> (r: Result<Self, ContractError>)
        ensures
            r is Ok <==> self.depth < MAX_CALL_DEPTH,
            r matches Err(e) ==> e == ContractError::CallDepthExceeded(self.depth),
            r matches Ok(c) ==> {
                &&& c.block_number == self.block_number
                &&& c.block_timestamp == self.block_timestamp
                &&& c.daa_score == self.daa_score
                &&& c.origin == self.origin
                &&& c.caller == caller
                &&& c.address == address
                &&& c.value == value
                &&& c.data@ == data@
                &&& c.gas.spec_limit() == child_limit_spec(gas_limit, self.gas.spec_remaining())
                &&& c.gas.spec_used() == 0
                &&& c.gas.spec_refund() == 0
                &&& c.gas.spec_costs() == self.gas.spec_costs()
                &&& c.depth == self.depth + 1
                &&& c.is_static == (is_static || self.is_static)
            },
    {
        if self.depth >= MAX_CALL_DEPTH {
            return Err(ContractError::CallDepthExceeded(self.depth));
        }
        Ok(ExecutionContext {
            block_number: self.block_number,
            block_timestamp: self.block_timestamp,
            daa_score: self.daa_score,
            origin: self.origin,
            caller,
            address,
            value,
            data,
            gas: self.gas.child(gas_limit),
            depth: self.depth + 1,
            is_static: is_static || self.is_static,
        })
    }

    /// Whether state may be modified (the call is not static).
    pub fn can_modify(&self) -> (r: bool)
        ensures
            r == !self.is_static,
    {
        !self.is_static
    }

    /// The remaining gas of this call.
    pub fn remaining_gas(&self) -> (r: Gas)
        ensures
            r == self.gas.spec_remaining(),
    {
        self.gas.remaining()
    }

    /// Charges gas to this call.
    pub fn consume_gas(&mut self, amount: Gas) -> (r: Result<(), ContractError>)
        ensures
            charged(old(self).gas, final(self).gas, amount as int),
            r == charge_result(old(self).gas, amount as int),
    {
        self.gas.consume(amount)
    }
}

/// Result of a contract execution.
#[derive(Debug, Clone)]
pub struct ExecutionResult {
    /// Whether execution was successful
    pub success: bool,
    /// Gas used
    pub gas_used: Gas,
    /// Return data
    pub return_data: Vec<u8>,
    /// Error message (if any)
    pub error: Option<String>,
    /// Logs emitted
    pub logs: Vec<Log>,
}

/// The view of an optional message.
pub open spec fn opt_message(m: Option<String>) -> Option<Seq<char>> {
    match m {
        Some(s) => Some(s@),
        None => None,
    }
}

impl ExecutionResult {
    /// A successful result.
    pub fn success(gas_used: Gas, return_data: Vec<u8>, logs: Vec<Log>) -> (r: Self)
        ensures
            r.success,
            r.gas_used == gas_used,
            r.return_data@ == return_data@,
            r.error is None,
            r.logs@ == logs@,
    {
        ExecutionResult { success: true, gas_used, return_data, error: None, logs }
    }

    /// A failed result with an error message and no data or logs.
    pub fn failure(gas_used: Gas, error: String) -> (r: Self)
        ensures
            !r.success,
            r.gas_used == gas_used,
            r.return_data@.len() == 0,
            opt_message(r.error) == Some(error@),
            r.logs@.len() == 0,
    {
        ExecutionResult { success: false, gas_used, return_data: Vec::new(), error: Some(error), logs: Vec::new() }
    }

    /// A reverted result: the return data is kept, the error is "execution reverted".
    pub fn revert(gas_used: Gas, return_data: Vec<u8>) -> (r: Self)
        ensures
            !r.success,
            r.gas_used == gas_used,
            r.return_data@ == return_data@,
            opt_message(r.error) == Some("execution reverted"@),
            r.logs@.len() == 0,
    {
        ExecutionResult {
            success: false,
            gas_used,
            return_data,
            error: Some(String::from_str("execution reverted")),
            logs: Vec::new(),
        }
    }
}

/// The message of a call to an address without code.
pub open spec fn not_found_message(address: Seq<u8>) -> Seq<char> {
    "Contract not found: "@ + "0x"@ + hex_encode_spec(address)
}

/// The message of a call to code that does not validate.
pub open spec fn invalid_contract_message(reason: Seq<char>) -> Seq<char> {
    "Invalid contract: "@ + reason
}

/// A host import that does nothing and reports status 0.
fn host_status_stub() -> (r: i32)
    ensures
        r == 0,
{
    0
}

/// A host query that has nothing to report and answers 0.
fn host_value_stub() -> (r: i64)
    ensures
        r == 0,
{
    0
}

/// The host imports, all under module `env`, in the order they are defined:
/// each name with its parameter and result types.
pub open spec fn host_imports() -> Seq<(Seq<char>, (Seq<u8>, Seq<u8>))> {
    seq![
        ("storage_read"@, (seq![val_i32(), val_i32()], seq![val_i32()])),
        ("storage_write"@, (seq![val_i32(), val_i32()], seq![val_i32()])),
        ("get_caller"@, (seq![val_i32()], seq![val_i32()])),
        ("get_value"@, (Seq::<u8>::empty(), seq![val_i64()])),
        ("get_block_number"@, (Seq::<u8>::empty(), seq![val_i64()])),
        ("get_timestamp"@, (Seq::<u8>::empty(), seq![val_i64()])),
        ("log"@, (seq![val_i32(), val_i32(), val_i32(), val_i32()], seq![val_i32()])),
        ("call"@, (seq![val_i32(), val_i64(), val_i32(), val_i32(), val_i64()], seq![val_i32()])),
        ("revert"@, (seq![val_i32(), val_i32()], Seq::<u8>::empty())),
    ]
}

/// The first `k` host imports as a map from name to type.
pub open spec fn imports_prefix(k: nat) -> Map<Seq<char>, (Seq<u8>, Seq<u8>)>
    decreases k,
{
    if k == 0 {
        Map::empty()
    } else {
        imports_prefix((k - 1) as nat).insert(host_imports()[k - 1].0, host_imports()[k - 1].1)
    }
}

/// All host imports as a map from name to type.
pub open spec fn host_import_map() -> Map<Seq<char>, (Seq<u8>, Seq<u8>)> {
    imports_prefix(9)
}

/// No host import name occurs before its place in the list.
proof fn lemma_host_import_fresh(k: nat)
    requires
        k < 9,
    ensures
        !imports_prefix(k).contains_key(host_imports()[k as int].0),
{
    reveal_strlit("storage_read");
    reveal_strlit("storage_write");
    reveal_strlit("get_caller");
    reveal_strlit("get_value");
    reveal_strlit("get_block_number");
    reveal_strlit("get_timestamp");
    reveal_strlit("log");
    reveal_strlit("call");
    reveal_strlit("revert");
    reveal_with_fuel(imports_prefix, 10);
    // The names differ in length, but for two that differ in their first letter.
    assert("storage_read"@.len() == 12 && "storage_write"@.len() == 13 && "get_caller"@.len() == 10);
    assert("get_value"@.len() == 9 && "get_block_number"@.len() == 16 && "get_timestamp"@.len() == 13);
    assert("log"@.len() == 3 && "call"@.len() == 4 && "revert"@.len() == 6);
    assert("get_timestamp"@[0] != "storage_write"@[0]);
}

/// Each host import is in the map of the first `m` of them once `m` passes it.
proof fn lemma_import_in_prefix(k: nat, m: nat)
    requires
        k < m,
    ensures
        imports_prefix(m).contains_key(host_imports()[k as int].0),
    decreases m,
{
    if m > k + 1 {
        lemma_import_in_prefix(k, (m - 1) as nat);
    }
}

/// One definition of `register_host_functions`: the `k`-th import joins the
/// linker's functions, or it clashes with a name the linker started with.
proof fn lemma_define_step(
    k: nat,
    start: Map<Seq<char>, (Seq<u8>, Seq<u8>)>,
    shadow: bool,
    before: wasmi::Linker<ExecutionContext>,
    after: wasmi::Linker<ExecutionContext>,
    r: Result<(), String>,
)
    requires
        k < 9,
        linker_env_funcs(before) == start.union_prefer_right(imports_prefix(k)),
        linker_shadows(before) == shadow,
        shadow || start.dom().disjoint(imports_prefix(k).dom()),
        defines(before, after, host_imports()[k as int].0, host_imports()[k as int].1, r),
    ensures
        linker_shadows(after) == shadow,
        r is Ok ==> linker_env_funcs(after) == start.union_prefer_right(imports_prefix(k + 1)),
        r is Ok ==> (shadow || start.dom().disjoint(imports_prefix(k + 1).dom())),
        r is Err ==> !shadow && !start.dom().disjoint(host_import_map().dom()),
{
    let name = host_imports()[k as int].0;
    let ty = host_imports()[k as int].1;
    lemma_host_import_fresh(k);
    lemma_import_in_prefix(k, 9);
    if r is Ok {
        assert(start.union_prefer_right(imports_prefix(k)).insert(name, ty)
            =~= start.union_prefer_right(imports_prefix(k + 1)));
    } else {
        assert(start.contains_key(name) && host_import_map().contains_key(name));
    }
}

/// Defines the host imports under module `env` with the types that
/// `host_imports` lists. They are placeholders: each answers 0 (or nothing)
/// without touching state. The definitions succeed exactly when the linker may
/// shadow or defines none of these names yet; then it holds all of them.
fn register_host_functions(linker: &mut wasmi::Linker<ExecutionContext>) -> (r: Result<(), ContractError>)
    ensures
        linker_shadows(*final(linker)) == linker_shadows(*old(linker)),
        forall|e: wasmi::Engine| #[trigger] linker_engine(*final(linker), e) == linker_engine(*old(linker), e),
        r is Ok <==> (linker_shadows(*old(linker)) || linker_env_funcs(*old(linker)).dom().disjoint(host_import_map().dom())),
        r is Ok ==> linker_env_funcs(*final(linker)) == linker_env_funcs(*old(linker)).union_prefer_right(host_import_map()),
        r matches Err(e) ==> e is WasmError,
{
    let ghost start = linker_env_funcs(*linker);
    let ghost shadow = linker_shadows(*linker);
    assert(start.union_prefer_right(imports_prefix(0)) =~= start);

    let ghost before = *linker;
    let res = wasm_define_ii_i(linker, "storage_read",
        |_caller: wasmi::Caller<'_, ExecutionContext>, _key_ptr: i32, _value_ptr: i32| -> i32 { host_status_stub() });
    proof { lemma_define_step(0, start, shadow, before, *linker, res); }
    if let Err(m) = res {
        return Err(ContractError::WasmError(m));
    }
    let ghost before = *linker;
    let res = wasm_define_ii_i(linker, "storage_write",
        |_caller: wasmi::Caller<'_, ExecutionContext>, _key_ptr: i32, _value_ptr: i32| -> i32 { host_status_stub() });
    proof { lemma_define_step(1, start, shadow, before, *linker, res); }
    if let Err(m) = res {
        return Err(ContractError::WasmError(m));
    }
    let ghost before = *linker;
    let res = wasm_define_i_i(linker, "get_caller",
        |_caller: wasmi::Caller<'_, ExecutionContext>, _ptr: i32| -> i32 { host_status_stub() });
    proof { lemma_define_step(2, start, shadow, before, *linker, res); }
    if let Err(m) = res {
        return Err(ContractError::WasmError(m));
    }
    let ghost before = *linker;
    let res = wasm_define_to_l(linker, "get_value",
        |_caller: wasmi::Caller<'_, ExecutionContext>| -> i64 { host_value_stub() });
    proof { lemma_define_step(3, start, shadow, before, *linker, res); }
    if let Err(m) = res {
        return Err(ContractError::WasmError(m));
    }
    let ghost before = *linker;
    let res = wasm_define_to_l(linker, "get_block_number",
        |_caller: wasmi::Caller<'_, ExecutionContext>| -> i64 { host_value_stub() });
    proof { lemma_define_step(4, start, shadow, before, *linker, res); }
    if let Err(m) = res {
        return Err(ContractError::WasmError(m));
    }
    let ghost before = *linker;
    let res = wasm_define_to_l(linker, "get_timestamp",
        |_caller: wasmi::Caller<'_, ExecutionContext>| -> i64 { host_value_stub() });
    proof { lemma_define_step(5, start, shadow, before, *linker, res); }
    if let Err(m) = res {
        return Err(ContractError::WasmError(m));
    }
    let ghost before = *linker;
    let res = wasm_define_iiii_i(linker, "log",
        |_caller: wasmi::Caller<'_, ExecutionContext>, _data_ptr: i32, _data_len: i32, _topics_ptr: i32, _topics_count: i32| -> i32 {
            host_status_stub()
        });
    proof { lemma_define_step(6, start, shadow, before, *linker, res); }
    if let Err(m) = res {
        return Err(ContractError::WasmError(m));
    }
    let ghost before = *linker;
    let res = wasm_define_iliil_i(linker, "call",
        |_caller: wasmi::Caller<'_, ExecutionContext>, _addr_ptr: i32, _value: i64, _data_ptr: i32, _data_len: i32, _gas: i64| -> i32 {
            host_status_stub()
        });
    proof { lemma_define_step(7, start, shadow, before, *linker, res); }
    if let Err(m) = res {
        return Err(ContractError::WasmError(m));
    }
    let ghost before = *linker;
    let res = wasm_define_ii(linker, "revert",
        |_caller: wasmi::Caller<'_, ExecutionContext>, _data_ptr: i32, _data_len: i32| {});
    proof { lemma_define_step(8, start, shadow, before, *linker, res); }
    if let Err(m) = res {
        return Err(ContractError::WasmError(m));
    }
    Ok(())
}

/// Whether the module compiled from `code` exports an entry function: `call`, or
/// failing that `main`, taking nothing and returning an `i32`.
pub open spec fn entry_found(code: Seq<u8>) -> bool {
    export_outcome(code, "call"@) is Ok || export_outcome(code, "main"@) is Ok
}

/// What running `code` can give. Code that does not compile fails with the
/// compiler's message; a module without an entry function fails, with the
/// lookup's message of `main` unless it failed earlier while instantiating; a
/// module with one gives no data or fails with a WASM error (from
/// instantiation, its start function or the call).
pub open spec fn run_result(code: Seq<u8>, r: Result<Vec<u8>, ContractError>) -> bool {
    match compile_outcome(code) {
        Err(m) => r matches Err(ContractError::WasmError(s)) && s@ == m,
        Ok(_) => {
            &&& r matches Ok(d) ==> d@.len() == 0 && entry_found(code)
            &&& r matches Err(e) ==> (e is WasmError || (e matches ContractError::FunctionNotFound(s)
                && !entry_found(code) && export_outcome(code, "main"@) == Err::<(), Seq<char>>(s@)))
            &&& !entry_found(code) ==> r is Err
        },
    }
}

/// Runs WASM bytecode: compiles it on a fuel-metering engine, links the host
/// imports, instantiates it in a store holding the context, with as much fuel
/// as the context has gas left, and calls its export `call` (or, failing that,
/// `main`). Returns no data. A run that uses up its fuel traps, so every run ends.
fn execute_wasm(ctx: &ExecutionContext, code: &[u8]) -> (r: Result<Vec<u8>, ContractError>)
    ensures
        run_result(code@, r),
{
    let mut config = wasm_config();
    wasm_consume_fuel(&mut config, true);
    let engine = wasm_engine(&config);
    let module = match wasm_compile(&engine, code) {
        Ok(m) => m,
        Err(m) => {
            return Err(ContractError::WasmError(m));
        },
    };
    let mut linker = wasm_linker(&engine);
    assert(linker_env_funcs(linker).dom().disjoint(host_import_map().dom()));
    register_host_functions(&mut linker)?;
    let mut store = wasm_store(&engine, ctx.clone());
    match wasm_set_fuel(&mut store, ctx.remaining_gas()) {
        Ok(()) => {},
        Err(m) => {
            return Err(ContractError::WasmError(m));
        },
    }
    assert(linker_engine(linker, engine) && store_engine(store, engine) && module_engine(module, engine));
    let instance = match wasm_instantiate(&linker, &mut store, &module) {
        Ok(i) => i,
        Err(m) => {
            return Err(ContractError::WasmError(m));
        },
    };
    let func = match wasm_export(&instance, &store, "call") {
        Ok(f) => f,
        Err(_) => match wasm_export(&instance, &store, "main") {
            Ok(f) => f,
            Err(m) => {
                return Err(ContractError::FunctionNotFound(m));
            },
        },
    };
    match wasm_call(&func, &mut store) {
        Ok(_) => Ok(Vec::new()),
        Err(m) => Err(ContractError::WasmError(m)),
    }
}

/// The state of a contract account right after its deployment.
pub open spec fn deployed_account(value: u64, code: Seq<u8>) -> AccountView {
    AccountView { nonce: 0, balance: value, code_hash: keccak256_digest(code), storage_root: zero_bytes(32) }
}

/// The account with its nonce raised by one, saturating.
pub open spec fn nonce_incremented(a: AccountView) -> AccountView {
    AccountView { nonce: (if a.nonce == u64::MAX { u64::MAX as int } else { a.nonce + 1 }) as u64, ..a }
}

/// The logs an executor holds after `execute` on `address`: a missing or invalid
/// contract leaves them, a run drops them (into the result or away).
pub open spec fn logs_after_execution(before: ContractExecutor, address: Seq<u8>) -> Seq<Log> {
    match lookup(before.spec_code().address_table(), address) {
        None => before.spec_logs(),
        Some(c) => if code_validation(c.code) is Err { before.spec_logs() } else { Seq::empty() },
    }
}

/// `r` is the result that ends an execution whose run gave `outcome`, with
/// `logs` collected: a success carrying the data and the logs, or a failure
/// carrying the error's message and no logs.
pub open spec fn completed(outcome: Result<Vec<u8>, ContractError>, logs: Seq<Log>, r: ExecutionResult) -> bool {
    &&& r.success == outcome is Ok
    &&& outcome matches Ok(d) ==> r.return_data@ == d@ && r.error is None && r.logs@ == logs
    &&& outcome matches Err(e) ==> r.return_data@.len() == 0 && opt_message(r.error) == Some(error_message(e))
        && r.logs@.len() == 0
}

/// `r` is a result of running valid `code` with `logs` collected: the run gives
/// one of the outcomes `run_result` allows, and the execution ends with it.
pub open spec fn run_execution(code: Seq<u8>, logs: Seq<Log>, r: ExecutionResult) -> bool {
    exists|outcome: Result<Vec<u8>, ContractError>| #[trigger] run_result(code, outcome) && completed(outcome, logs, r)
}

/// The result `execute` gives for a call to `address` whose meter shows
/// `gas_used`: a missing or invalid contract fails with its message; otherwise the
/// module ran and the result is a success carrying the collected logs or a failure
/// with a WASM error's message.
pub open spec fn execution_outcome(before: ContractExecutor, address: Seq<u8>, gas_used: u64, r: ExecutionResult) -> bool {
    &&& r.gas_used == gas_used
    &&& r.return_data@.len() == 0
    &&& match lookup(before.spec_code().address_table(), address) {
        None => {
            &&& !r.success
            &&& opt_message(r.error) == Some(not_found_message(address))
            &&& r.logs@.len() == 0
        },
        Some(c) => match code_validation(c.code) {
            Err(m) => {
                &&& !r.success
                &&& opt_message(r.error) == Some(invalid_contract_message(m))
                &&& r.logs@.len() == 0
            },
            Ok(_) => run_execution(c.code, before.spec_logs(), r),
        },
    }
}

/// What `execute` does: the storages stay, the logs become
/// `logs_after_execution`, and the result is an `execution_outcome`.
pub open spec fn execute_effect(before: ContractExecutor, after: ContractExecutor, address: Seq<u8>, gas_used: u64, r: ExecutionResult) -> bool {
    &&& after.spec_storage() == before.spec_storage()
    &&& after.spec_code() == before.spec_code()
    &&& after.spec_accounts() == before.spec_accounts()
    &&& after.spec_logs() == logs_after_execution(before, address)
    &&& execution_outcome(before, address, gas_used, r)
}

/// How a deployment ends once its constructor gave `res`: with the address, the
/// code stored and the accounts updated when the constructor succeeded; else
/// with `DeploymentFailed` carrying the constructor's error, the code removed
/// and all pending account changes rolled back.
pub open spec fn constructor_end(
    res: ExecutionResult,
    r: Result<ContractAddress, ContractError>,
    addr: Seq<u8>,
    after: ContractExecutor,
    table1: Seq<(Seq<u8>, CodeView)>,
    pending2: Seq<(Seq<u8>, AccountView)>,
) -> bool {
    if res.success {
        &&& r matches Ok(a) && a@ == addr
        &&& after.spec_code().address_table() == table1
        &&& after.spec_accounts().pending_view() == pending2
    } else {
        &&& r matches Err(ContractError::DeploymentFailed(m)) && opt_message(res.error) == Some(m@)
        &&& after.spec_code().address_table() == assoc_remove(table1, addr)
        &&& after.spec_accounts().pending_view().len() == 0
    }
}

/// What `deploy` does for a deployment by `caller` at `block_number`, sending
/// `value`, from a context at call depth `depth`.
pub open spec fn deploy_effect(
    before: ContractExecutor,
    after: ContractExecutor,
    caller: Seq<u8>,
    block_number: u64,
    value: u64,
    depth: u32,
    code: Seq<u8>,
    init_data: Seq<u8>,
    r: Result<ContractAddress, ContractError>,
) -> bool {
    let accounts0 = before.spec_accounts();
    let nonce = accounts0.get_spec(caller).nonce;
    let addr = create_address_spec(caller, nonce);
    let table0 = before.spec_code().address_table();
    let cc = CodeView { code: code, code_hash: keccak256_digest(code), deployer: caller, deployed_at: block_number };
    let pending1 = assoc_put(accounts0.pending_view(), addr, deployed_account(value, code));
    let deployer = account_get(accounts0.committed_view(), pending1, caller);
    let pending2 = assoc_put(pending1, caller, nonce_incremented(deployer));
    let table1 = assoc_put(table0, addr, cc);
    &&& after.spec_storage() == before.spec_storage()
    &&& (!has_key(table0, addr) && code_validation(code) is Ok
        ==> after.spec_code().hash_table() == crate::code::hash_table_after(before.spec_code().hash_table(), cc))
    &&& if has_key(table0, addr) {
        &&& r matches Err(ContractError::ContractExists(m)) && m@ == "0x"@ + hex_encode_spec(addr)
        &&& after.spec_code() == before.spec_code()
        &&& after.spec_accounts() == before.spec_accounts()
        &&& after.spec_logs() == before.spec_logs()
    } else if code_validation(code) is Err {
        &&& r matches Err(ContractError::InvalidBytecode(m)) && code_validation(code) == Err::<(), Seq<char>>(m@)
        &&& after.spec_code() == before.spec_code()
        &&& after.spec_accounts() == before.spec_accounts()
        &&& after.spec_logs() == before.spec_logs()
    } else if init_data.len() == 0 {
        &&& r matches Ok(a) && a@ == addr
        &&& after.spec_code().address_table() == table1
        &&& after.spec_accounts().committed_view() == accounts0.committed_view()
        &&& after.spec_accounts().pending_view() == pending2
        &&& after.spec_logs() == before.spec_logs()
    } else if depth >= MAX_CALL_DEPTH {
        &&& r == Err::<ContractAddress, ContractError>(ContractError::CallDepthExceeded(depth))
        &&& after.spec_code().address_table() == table1
        &&& after.spec_accounts().committed_view() == accounts0.committed_view()
        &&& after.spec_accounts().pending_view() == pending2
        &&& after.spec_logs() == before.spec_logs()
    } else {
        &&& after.spec_logs().len() == 0
        &&& after.spec_accounts().committed_view() == accounts0.committed_view()
        &&& exists|res: ExecutionResult| #[trigger] run_execution(code, before.spec_logs(), res) && constructor_end(
            res,
            r,
            addr,
            after,
            table1,
            pending2,
        )
    }
}

/// Executes and deploys contracts over a contract storage, a code storage and an
/// account storage; logs emitted during an execution are collected here.
pub struct ContractExecutor {
    storage: ContractStorage,
    code: CodeStorage,
    accounts: AccountStorage,
    logs: Vec<Log>,
}

impl ContractExecutor {
    /// The contract storage.
    pub closed spec fn spec_storage(&self) -> ContractStorage {
        self.storage
    }

    /// The code storage.
    pub closed spec fn spec_code(&self) -> CodeStorage {
        self.code
    }

    /// The account storage.
    pub closed spec fn spec_accounts(&self) -> AccountStorage {
        self.accounts
    }

    /// The logs collected so far.
    pub closed spec fn spec_logs(&self) -> Seq<Log> {
        self.logs@
    }

    /// The three storages are well formed.
    pub open spec fn wf(&self) -> bool {
        self.spec_storage().wf() && self.spec_code().wf() && self.spec_accounts().wf()
    }

    /// Creates an executor over the given storages, with no logs.
    pub fn new(storage: ContractStorage, code: CodeStorage, accounts: AccountStorage) -> (r: Self)
        ensures
            r.spec_storage() == storage,
            r.spec_code() == code,
            r.spec_accounts() == accounts,
            r.spec_logs().len() == 0,
    {
        ContractExecutor { storage, code, accounts, logs: Vec::new() }
    }

    /// Ends an execution with the outcome of running the module: on success the
    /// collected logs go into the result, on failure they are dropped and the
    /// error's message becomes the result's error. No logs are left either way.
    pub fn complete_execution(&mut self, gas_used: Gas, outcome: Result<Vec<u8>, ContractError>) -> (r: ExecutionResult)
        ensures
            r.gas_used == gas_used,
            final(self).spec_logs().len() == 0,
            final(self).spec_storage() == old(self).spec_storage(),
            final(self).spec_code() == old(self).spec_code(),
            final(self).spec_accounts() == old(self).spec_accounts(),
            r.success == outcome is Ok,
            outcome matches Ok(d) ==> r.return_data@ == d@ && r.error is None && r.logs@ == old(self).spec_logs(),
            outcome matches Err(e) ==> r.return_data@.len() == 0 && opt_message(r.error) == Some(error_message(e))
                && r.logs@.len() == 0,
    {
        match outcome {
            Ok(return_data) => {
                let mut logs: Vec<Log> = Vec::new();
                std::mem::swap(&mut logs, &mut self.logs);
                ExecutionResult::success(gas_used, return_data, logs)
            },
            Err(e) => {
                self.logs = Vec::new();
                ExecutionResult::failure(gas_used, e.to_string())
            },
        }
    }

    /// Executes a call: fails when no code is deployed at the address or the code
    /// does not validate (collected logs stay), otherwise runs the module and ends
    /// as `complete_execution` says. The gas used is what the context's meter shows.
    pub fn execute(&mut self, ctx: &ExecutionContext) -> (r: ExecutionResult)
        requires
            old(self).wf(),
        ensures
            final(self).spec_storage() == old(self).spec_storage(),
            final(self).spec_code() == old(self).spec_code(),
            final(self).spec_accounts() == old(self).spec_accounts(),
            execute_effect(*old(self), *final(self), ctx.address@, ctx.gas.spec_used(), r),
    {
        let contract = match self.code.get(&ctx.address) {
            Some(c) => c,
            None => {
                let mut m = String::from_str("Contract not found: ");
                let a = ctx.address.to_string();
                m.append(a.as_str());
                assert(m@ =~= not_found_message(ctx.address@));
                return ExecutionResult::failure(ctx.gas.used(), m);
            },
        };
        match contract.validate() {
            Ok(()) => {},
            Err(e) => {
                let mut m = String::from_str("Invalid contract: ");
                m.append(e.as_str());
                return ExecutionResult::failure(ctx.gas.used(), m);
            },
        }
        let ghost logs = self.logs@;
        let outcome = execute_wasm(ctx, contract.code.as_slice());
        let ghost o = outcome;
        let r = self.complete_execution(ctx.gas.used(), outcome);
        proof {
            assert(run_result(contract.code@, o) && completed(o, logs, r));
            assert(self.spec_logs() =~= Seq::<Log>::empty());
        }
        r
    }

    /// Deploys a contract at the address derived from the caller and its nonce:
    /// stores the code, records the contract account (holding the sent value) and
    /// raises the caller's nonce, then runs the constructor when `init_data` is not
    /// empty. A constructor that fails removes the code and rolls back all pending
    /// account changes.
    pub fn deploy(&mut self, ctx: &ExecutionContext, code: Vec<u8>, init_data: Vec<u8>) -> (r: Result<ContractAddress, ContractError>)
        requires
            old(self).wf(),
        ensures
            final(self).wf(),
            deploy_effect(*old(self), *final(self), ctx.caller@, ctx.block_number, ctx.value, ctx.depth, code@, init_data@, r),
    {
        let deployer_nonce = self.accounts.nonce(&ctx.caller);
        let address = ContractAddress::create(ctx.caller.as_bytes(), deployer_nonce);
        if self.code.code_exists(&address) {
            return Err(ContractError::ContractExists(address.to_string()));
        }
        let contract_code = ContractCode::new(code.clone(), ctx.caller, ctx.block_number);
        assert(contract_code.code@ =~= code@);
        match contract_code.validate() {
            Ok(()) => {},
            Err(e) => {
                return Err(ContractError::InvalidBytecode(e));
            },
        }
        self.code.store(address, contract_code);
        let account_state = AccountState::new(
            0,
            ctx.value,
            ContractCode::compute_hash(code.as_slice()),
            crate::digest::Hash::zero(),
        );
        self.accounts.update(address, account_state);
        let mut deployer_state = self.accounts.get(&ctx.caller);
        deployer_state.increment_nonce();
        self.accounts.update(ctx.caller, deployer_state);
        if init_data.len() > 0 {
            let remaining = ctx.remaining_gas();
            let init_ctx = ctx.child(ctx.caller, address, 0, init_data, remaining, false)?;
            let result = self.execute(&init_ctx);
            let ghost res = result;
            assert(run_execution(code@, old(self).spec_logs(), res));
            if !result.success {
                self.code.remove(&address);
                self.accounts.rollback();
                let reason = match result.error {
                    Some(e) => e,
                    None => String::from_str("constructor failed"),
                };
                let r = Err(ContractError::DeploymentFailed(reason));
                assert(constructor_end(res, r, address@, *self, assoc_put(old(self).spec_code().address_table(), address@,
                    CodeView { code: code@, code_hash: keccak256_digest(code@), deployer: ctx.caller@, deployed_at: ctx.block_number }),
                    self.accounts.pending_view()));
                return r;
            }
        }
        Ok(address)
    }

    /// Adds a log to the collected logs.
    pub fn emit_log(&mut self, log: Log)
        ensures
            final(self).spec_logs() == old(self).spec_logs().push(log),
            final(self).spec_storage() == old(self).spec_storage(),
            final(self).spec_code() == old(self).spec_code(),
            final(self).spec_accounts() == old(self).spec_accounts(),
    {
        self.logs.push(log);
    }

    /// The contract storage.
    pub fn storage(&self) -> (r: &ContractStorage)
        ensures
            *r == self.spec_storage(),
    {
        &self.storage
    }

    /// The code storage.
    pub fn code_storage(&self) -> (r: &CodeStorage)
        ensures
            *r == self.spec_code(),
    {
        &self.code
    }

    /// The account storage.
    pub fn account_storage(&self) -> (r: &AccountStorage)
        ensures
            *r == self.spec_accounts(),
    {
        &self.accounts
    }

    /// The contract storage, writable.
    pub fn storage_mut(&mut self) -> (r: &mut ContractStorage)
        ensures
            *r == old(self).spec_storage(),
            final(self).spec_storage() == *final(r),
            final(self).spec_code() == old(self).spec_code(),
            final(self).spec_accounts() == old(self).spec_accounts(),
            final(self).spec_logs() == old(self).spec_logs(),
    {
        &mut self.storage
    }

    /// The account storage, writable.
    pub fn account_storage_mut(&mut self) -> (r: &mut AccountStorage)
        ensures
            *r == old(self).spec_accounts(),
            final(self).spec_accounts() == *final(r),
            final(self).spec_storage() == old(self).spec_storage(),
            final(self).spec_code() == old(self).spec_code(),
            final(self).spec_logs() == old(self).spec_logs(),
    {
        &mut self.accounts
    }
}

} // verus!
