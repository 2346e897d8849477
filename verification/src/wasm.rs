//! The calls into the `wasmi` interpreter that contract execution makes.
//!
//! Every item here is trusted: Verus sees the declared types as opaque values and
//! believes the contracts of the wrappers without reading their bodies. The
//! contracts carry the facts `wasmi` checks at run time (which engine a linker
//! and a store belong to, which store owns an instance or a function, whether
//! the store meters fuel), so verified code can only make calls that neither
//! panic nor run without bound, and they name what depends on the module's bytes
//! alone: whether it compiles and which entry functions it exports. Whether
//! instantiating and running it succeeds is not named: that also depends on the
//! memory the machine gives.

use vstd::prelude::*;
use crate::executor::ExecutionContext;

verus! {

/// The `wasmi` engine configuration, opaque to verified code.
#[verifier::external_type_specification]
#[verifier::external_body]
pub struct ExConfig(wasmi::Config);

/// The `wasmi` engine, opaque to verified code.
#[verifier::external_type_specification]
#[verifier::external_body]
pub struct ExEngine(wasmi::Engine);

/// A compiled `wasmi` module, opaque to verified code.
#[verifier::external_type_specification]
#[verifier::external_body]
pub struct ExModule(wasmi::Module);

/// A `wasmi` linker holding host definitions, opaque to verified code.
#[verifier::external_type_specification]
#[verifier::external_body]
#[verifier::reject_recursive_types(T)]
pub struct ExLinker<T>(wasmi::Linker<T>);

/// A `wasmi` store holding the host data, opaque to verified code.
#[verifier::external_type_specification]
#[verifier::external_body]
#[verifier::reject_recursive_types(T)]
pub struct ExStore<T>(wasmi::Store<T>);

/// An instantiated `wasmi` module, opaque to verified code.
#[verifier::external_type_specification]
#[verifier::external_body]
pub struct ExInstance(wasmi::Instance);

/// A typed exported `wasmi` function, opaque to verified code.
#[verifier::external_type_specification]
#[verifier::external_body]
#[verifier::reject_recursive_types(Params)]
#[verifier::reject_recursive_types(Results)]
pub struct ExTypedFunc<Params, Results>(wasmi::TypedFunc<Params, Results>);

/// The handle a host function gets to its caller, opaque to verified code.
#[verifier::external_type_specification]
#[verifier::external_body]
#[verifier::reject_recursive_types(T)]
pub struct ExCaller<'a, T>(wasmi::Caller<'a, T>);

/// Whether a configuration turns fuel metering on.
pub uninterp spec fn config_fuel(c: wasmi::Config) -> bool;

/// Whether an engine meters fuel.
pub uninterp spec fn engine_fuel(e: wasmi::Engine) -> bool;

/// Whether a linker belongs to an engine.
pub uninterp spec fn linker_engine(l: wasmi::Linker<ExecutionContext>, e: wasmi::Engine) -> bool;

/// Whether a module was compiled by an engine.
pub uninterp spec fn module_engine(m: wasmi::Module, e: wasmi::Engine) -> bool;

/// Whether a store belongs to an engine.
pub uninterp spec fn store_engine(s: wasmi::Store<ExecutionContext>, e: wasmi::Engine) -> bool;

/// Whether a store meters fuel (it does when its engine does).
pub uninterp spec fn store_fuel(s: wasmi::Store<ExecutionContext>) -> bool;

/// The `StoreId` `wasmi` gave a store.
pub uninterp spec fn store_id(s: wasmi::Store<ExecutionContext>) -> int;

/// The `StoreId` of the store that owns an instance.
pub uninterp spec fn instance_store(i: wasmi::Instance) -> int;

/// The `StoreId` of the store that owns a function.
pub uninterp spec fn func_store(f: wasmi::TypedFunc<(), i32>) -> int;

/// The bytes a module was compiled from.
pub uninterp spec fn module_code(m: wasmi::Module) -> Seq<u8>;

/// The bytes of the module an instance was made from.
pub uninterp spec fn instance_code(i: wasmi::Instance) -> Seq<u8>;

/// What compiling `code` gives: nothing on success, else the error's message.
pub uninterp spec fn compile_outcome(code: Seq<u8>) -> Result<(), Seq<char>>;

/// What looking up the export `name` of the module compiled from `code` as a
/// function taking nothing and returning an `i32` gives: nothing when there is
/// one, else the error's message.
pub uninterp spec fn export_outcome(code: Seq<u8>, name: Seq<char>) -> Result<(), Seq<char>>;

/// The host functions a linker defines under module `env`: each name with its
/// parameter and result types, as WebAssembly value type bytes.
pub uninterp spec fn linker_env_funcs(l: wasmi::Linker<ExecutionContext>) -> Map<Seq<char>, (Seq<u8>, Seq<u8>)>;

/// Whether a linker lets a new definition replace one of the same name.
pub uninterp spec fn linker_shadows(l: wasmi::Linker<ExecutionContext>) -> bool;

/// Whether an outcome is a failure with message `m`.
pub open spec fn fails_with(outcome: Result<(), Seq<char>>, m: Seq<char>) -> bool {
    outcome == Err::<(), Seq<char>>(m)
}

/// The value type byte of `i32`.
pub open spec fn val_i32() -> u8 {
    0x7f
}

/// The value type byte of `i64`.
pub open spec fn val_i64() -> u8 {
    0x7e
}

/// `after` is `before` with host function `name` of type `ty` defined under
/// `env`, as `LinkerInner::insert` does it: the definition fails exactly when
/// the name is taken and shadowing is off, and then nothing changes. The engine
/// and the shadowing setting stay.
pub open spec fn defines(
    before: wasmi::Linker<ExecutionContext>,
    after: wasmi::Linker<ExecutionContext>,
    name: Seq<char>,
    ty: (Seq<u8>, Seq<u8>),
    r: Result<(), String>,
) -> bool {
    &&& linker_shadows(after) == linker_shadows(before)
    &&& forall|e: wasmi::Engine| #[trigger] linker_engine(after, e) == linker_engine(before, e)
    &&& (r is Ok <==> (linker_shadows(before) || !linker_env_funcs(before).contains_key(name)))
    &&& r is Ok ==> linker_env_funcs(after) == linker_env_funcs(before).insert(name, ty)
    &&& r is Err ==> linker_env_funcs(after) == linker_env_funcs(before)
}

/// Calls `wasmi::Config::default`. Trusted: fuel metering is off by default.
#[verifier::external_body]
pub(crate) fn wasm_config() -> (r: wasmi::Config)
    ensures
        !config_fuel(r),
{
    wasmi::Config::default()
}

/// Calls `wasmi::Config::consume_fuel`. Trusted: it sets whether fuel is metered.
#[verifier::external_body]
pub(crate) fn wasm_consume_fuel(config: &mut wasmi::Config, enable: bool)
    ensures
        config_fuel(*final(config)) == enable,
{
    config.consume_fuel(enable);
}

/// Calls `wasmi::Engine::new`. Trusted: the engine meters fuel as its configuration says.
#[verifier::external_body]
pub(crate) fn wasm_engine(config: &wasmi::Config) -> (r: wasmi::Engine)
    ensures
        engine_fuel(r) == config_fuel(*config),
{
    wasmi::Engine::new(config)
}

/// Calls `wasmi::Module::new`, which parses and validates `code`; the error, if
/// any, is returned as its message. Trusted: the outcome depends on the bytes
/// alone (every engine here has the default features), and the module
/// remembers them and its engine.
#[verifier::external_body]
pub(crate) fn wasm_compile(engine: &wasmi::Engine, code: &[u8]) -> (r: Result<wasmi::Module, String>)
    ensures
        r is Ok <==> compile_outcome(code@) is Ok,
        r matches Err(m) ==> fails_with(compile_outcome(code@), m@),
        r matches Ok(m) ==> module_code(m) == code@ && module_engine(m, *engine),
{
    wasmi::Module::new(engine, code).map_err(|e| e.to_string())
}

/// Calls `wasmi::Linker::new`: a linker of `engine` with no definitions, which
/// refuses to define a name twice (shadowing is off by default in `LinkerInner`).
#[verifier::external_body]
pub(crate) fn wasm_linker(engine: &wasmi::Engine) -> (r: wasmi::Linker<ExecutionContext>)
    ensures
        linker_env_funcs(r).dom() == Set::<Seq<char>>::empty(),
        !linker_shadows(r),
        linker_engine(r, *engine),
{
    wasmi::Linker::new(engine)
}

/// Calls `wasmi::Linker::func_wrap` to define `env.name` as a host function of
/// type `(i32, i32) -> i32`; the error is returned as its message. Trusted as
/// `defines` says.
#[verifier::external_body]
pub(crate) fn wasm_define_ii_i(
    linker: &mut wasmi::Linker<ExecutionContext>,
    name: &str,
    func: impl Fn(wasmi::Caller<'_, ExecutionContext>, i32, i32) -> i32 + Send + Sync + 'static,
) -> (r: Result<(), String>)
    ensures
        defines(*old(linker), *final(linker), name@, (seq![val_i32(), val_i32()], seq![val_i32()]), r),
{
    linker.func_wrap("env", name, func).map(|_| ()).map_err(|e| e.to_string())
}

/// Calls `wasmi::Linker::func_wrap` to define `env.name` as a host function of
/// type `(i32) -> i32`; the error is returned as its message. Trusted as
/// `defines` says.
#[verifier::external_body]
pub(crate) fn wasm_define_i_i(
    linker: &mut wasmi::Linker<ExecutionContext>,
    name: &str,
    func: impl Fn(wasmi::Caller<'_, ExecutionContext>, i32) -> i32 + Send + Sync + 'static,
) -> (r: Result<(), String>)
    ensures
        defines(*old(linker), *final(linker), name@, (seq![val_i32()], seq![val_i32()]), r),
{
    linker.func_wrap("env", name, func).map(|_| ()).map_err(|e| e.to_string())
}

/// Calls `wasmi::Linker::func_wrap` to define `env.name` as a host function of
/// type `() -> i64`; the error is returned as its message. Trusted as `defines` says.
#[verifier::external_body]
pub(crate) fn wasm_define_to_l(
    linker: &mut wasmi::Linker<ExecutionContext>,
    name: &str,
    func: impl Fn(wasmi::Caller<'_, ExecutionContext>) -> i64 + Send + Sync + 'static,
) -> (r: Result<(), String>)
    ensures
        defines(*old(linker), *final(linker), name@, (Seq::<u8>::empty(), seq![val_i64()]), r),
{
    linker.func_wrap("env", name, func).map(|_| ()).map_err(|e| e.to_string())
}

/// Calls `wasmi::Linker::func_wrap` to define `env.name` as a host function of
/// type `(i32, i32, i32, i32) -> i32`; the error is returned as its message.
/// Trusted as `defines` says.
#[verifier::external_body]
pub(crate) fn wasm_define_iiii_i(
    linker: &mut wasmi::Linker<ExecutionContext>,
    name: &str,
    func: impl Fn(wasmi::Caller<'_, ExecutionContext>, i32, i32, i32, i32) -> i32 + Send + Sync + 'static,
) -> (r: Result<(), String>)
    ensures
        defines(*old(linker), *final(linker), name@, (seq![val_i32(), val_i32(), val_i32(), val_i32()], seq![val_i32()]), r),
{
    linker.func_wrap("env", name, func).map(|_| ()).map_err(|e| e.to_string())
}

/// Calls `wasmi::Linker::func_wrap` to define `env.name` as a host function of
/// type `(i32, i64, i32, i32, i64) -> i32`; the error is returned as its
/// message. Trusted as `defines` says.
#[verifier::external_body]
pub(crate) fn wasm_define_iliil_i(
    linker: &mut wasmi::Linker<ExecutionContext>,
    name: &str,
    func: impl Fn(wasmi::Caller<'_, ExecutionContext>, i32, i64, i32, i32, i64) -> i32 + Send + Sync + 'static,
) -> (r: Result<(), String>)
    ensures
        defines(*old(linker), *final(linker), name@,
            (seq![val_i32(), val_i64(), val_i32(), val_i32(), val_i64()], seq![val_i32()]), r),
{
    linker.func_wrap("env", name, func).map(|_| ()).map_err(|e| e.to_string())
}

/// Calls `wasmi::Linker::func_wrap` to define `env.name` as a host function of
/// type `(i32, i32) -> ()`; the error is returned as its message. Trusted as
/// `defines` says.
#[verifier::external_body]
pub(crate) fn wasm_define_ii(
    linker: &mut wasmi::Linker<ExecutionContext>,
    name: &str,
    func: impl Fn(wasmi::Caller<'_, ExecutionContext>, i32, i32) + Send + Sync + 'static,
) -> (r: Result<(), String>)
    ensures
        defines(*old(linker), *final(linker), name@, (seq![val_i32(), val_i32()], Seq::<u8>::empty()), r),
{
    linker.func_wrap("env", name, func).map(|_| ()).map_err(|e| e.to_string())
}

/// Calls `wasmi::Store::new`, a store of `engine` holding `data`. Trusted: the
/// store meters fuel when its engine does.
#[verifier::external_body]
pub(crate) fn wasm_store(engine: &wasmi::Engine, data: ExecutionContext) -> (r: wasmi::Store<ExecutionContext>)
    ensures
        store_engine(r, *engine),
        store_fuel(r) == engine_fuel(*engine),
{
    wasmi::Store::new(engine, data)
}

/// Calls `wasmi::Store::set_fuel`; the error is returned as its message.
/// Trusted: it fails exactly when the store does not meter fuel; the store
/// keeps its identity and engine.
#[verifier::external_body]
pub(crate) fn wasm_set_fuel(store: &mut wasmi::Store<ExecutionContext>, fuel: u64) -> (r: Result<(), String>)
    ensures
        r is Ok <==> store_fuel(*old(store)),
        store_fuel(*final(store)) == store_fuel(*old(store)),
        store_id(*final(store)) == store_id(*old(store)),
        forall|e: wasmi::Engine| #[trigger] store_engine(*final(store), e) == store_engine(*old(store), e),
{
    store.set_fuel(fuel).map_err(|e| e.to_string())
}

/// Calls `wasmi::Linker::instantiate_and_start`: resolves the imports of `module`,
/// instantiates it and runs its start function; the error is returned as its
/// message. The linker and the store must belong to one engine (else it
/// panics), the module must come from that engine, and the store must meter
/// fuel so that the start function ends.
/// Trusted: the instance belongs to the store and comes from the module; the
/// store keeps its identity and metering. When it fails is not stated: besides
/// the module, that depends on the host functions the linker holds and on the
/// memory the machine gives (`wasmi` reports `OutOfSystemMemory`).
#[verifier::external_body]
pub(crate) fn wasm_instantiate(
    linker: &wasmi::Linker<ExecutionContext>,
    store: &mut wasmi::Store<ExecutionContext>,
    module: &wasmi::Module,
) -> (r: Result<wasmi::Instance, String>)
    requires
        exists|e: wasmi::Engine| linker_engine(*linker, e) && store_engine(*old(store), e) && module_engine(*module, e),
        store_fuel(*old(store)),
    ensures
        store_id(*final(store)) == store_id(*old(store)),
        store_fuel(*final(store)),
        r matches Ok(i) ==> instance_store(i) == store_id(*old(store)) && instance_code(i) == module_code(*module),
{
    linker.instantiate_and_start(store, module).map_err(|e| e.to_string())
}

/// Calls `wasmi::Instance::get_typed_func` for an export `name` taking nothing and
/// returning an `i32`; the error is returned as its message. The store must own
/// the instance (else it panics). Trusted: the outcome depends on the module's
/// bytes and the name alone, and the function belongs to the store.
#[verifier::external_body]
pub(crate) fn wasm_export(
    instance: &wasmi::Instance,
    store: &wasmi::Store<ExecutionContext>,
    name: &str,
) -> (r: Result<wasmi::TypedFunc<(), i32>, String>)
    requires
        instance_store(*instance) == store_id(*store),
    ensures
        r is Ok <==> export_outcome(instance_code(*instance), name@) is Ok,
        r matches Err(m) ==> fails_with(export_outcome(instance_code(*instance), name@), m@),
        r matches Ok(f) ==> func_store(f) == store_id(*store),
{
    instance.get_typed_func::<(), i32>(store, name).map_err(|e| e.to_string())
}

/// Calls `wasmi::TypedFunc::call`, running the function until it returns, traps
/// or runs out of fuel; a trap is returned as its message. The store must own
/// the function (else it panics) and meter fuel (so that the run ends). Nothing
/// is stated of the outcome: it depends on the host functions the module calls
/// and on the memory the machine gives when the module grows its own.
#[verifier::external_body]
pub(crate) fn wasm_call(func: &wasmi::TypedFunc<(), i32>, store: &mut wasmi::Store<ExecutionContext>) -> (r: Result<i32, String>)
    requires
        func_store(*func) == store_id(*old(store)),
        store_fuel(*old(store)),
{
    func.call(store, ())
        .map_err(|e| e.to_string())
}

} // verus!
