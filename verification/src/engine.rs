//! The trusted boundary around the external execution engine (`wasmi`) and
//! the wall clock (`web_time`).
//!
//! Every function here is `external_body`: its contract is what the rest of
//! the library relies on, and each doc comment names the outside function the
//! contract is taken from.  The engine's handles (`Store`, `Instance`, ...)
//! are opaque to the verifier, so what the contracts need of them is carried
//! by uninterpreted functions of two kinds:
//!
//! - *Ownership.*  The engine panics when a handle is resolved against a
//!   store that does not own it, and when a linker, module and store of
//!   different engines are mixed.  Every created engine gets an identity
//!   ([`engine_id`]), every handle the identity of the store that owns it
//!   ([`func_store`] and its peers), and each wrapper requires the pairing it
//!   resolves, so no admitted input reaches an engine panic.
//! - *Determinism.*  With the default engine configuration, everything the
//!   loader reads — whether bytes compile, instantiate, export an item, what
//!   a callback declares, what memory holds before any guest code has run —
//!   is a function of the module's bytes alone.  Those results are named as
//!   functions over `Seq<u8>` ([`compiles`], [`instantiable`] and the rest),
//!   and each handle carries the bytes it came from, so the loader's own
//!   contract can say exactly when it succeeds and which error each kind of
//!   module earns.
//!
//! The store's host data — the single captured output slot — is modeled by
//! [`captured`]; a callback's declared signature by [`params_of`] and
//! [`results_of`].

use vstd::prelude::*;

use crate::schema::{Value, ValueKind};

verus! {

#[verifier::external_type_specification]
#[verifier::external_body]
pub struct ExEngine(wasmi::Engine);

#[verifier::external_type_specification]
#[verifier::external_body]
pub struct ExModule(wasmi::Module);

#[verifier::external_type_specification]
#[verifier::external_body]
#[verifier::reject_recursive_types(T)]
pub struct ExStore<T>(wasmi::Store<T>);

#[verifier::external_type_specification]
#[verifier::external_body]
#[verifier::reject_recursive_types(T)]
pub struct ExLinker<T>(wasmi::Linker<T>);

#[verifier::external_type_specification]
#[verifier::external_body]
pub struct ExInstancePre(wasmi::InstancePre);

#[verifier::external_type_specification]
#[verifier::external_body]
pub struct ExInstance(wasmi::Instance);

#[verifier::external_type_specification]
#[verifier::external_body]
pub struct ExFunc(wasmi::Func);

#[verifier::external_type_specification]
#[verifier::external_body]
pub struct ExFuncType(wasmi::FuncType);

#[verifier::external_type_specification]
#[verifier::external_body]
pub struct ExMemory(wasmi::Memory);

#[verifier::external_type_specification]
#[verifier::external_body]
pub struct ExGlobal(wasmi::Global);

#[verifier::external_type_specification]
#[verifier::external_body]
pub struct ExWasmiError(wasmi::Error);

#[verifier::external_type_specification]
#[verifier::external_body]
pub struct ExInstant(web_time::Instant);

// --- what the opaque handles carry -----------------------------------------

/// The text currently held by the store's single captured-output slot.
///
/// A store's host data is one `String`: the most recent output the guest
/// delivered through the `render` import (empty until the first delivery).
pub uninterp spec fn captured(store: wasmi::Store<String>) -> Seq<char>;

/// The parameter value kinds a function type declares, in order.
pub uninterp spec fn params_of(ty: wasmi::FuncType) -> Seq<ValueKind>;

/// The result value kinds a function type declares, in order.
pub uninterp spec fn results_of(ty: wasmi::FuncType) -> Seq<ValueKind>;

/// The identity of an engine instance.
pub uninterp spec fn engine_id(e: wasmi::Engine) -> int;

/// The identities of engines that carry the default configuration (the only
/// kind this library creates); the engine's behaviour on fixed bytes is
/// deterministic per configuration.
pub uninterp spec fn default_engine_id(id: int) -> bool;

/// The identity of the engine a module was compiled for.
pub uninterp spec fn module_engine(m: wasmi::Module) -> int;

/// The bytes a module was compiled from.
pub uninterp spec fn module_bytes(m: wasmi::Module) -> Seq<u8>;

/// The identity of the engine a linker belongs to.
pub uninterp spec fn linker_engine(l: wasmi::Linker<String>) -> int;

/// The linker holds no definitions.
pub uninterp spec fn linker_empty(l: wasmi::Linker<String>) -> bool;

/// The linker holds exactly one definition: the library's `env.render` host
/// function.
pub uninterp spec fn linker_render_only(l: wasmi::Linker<String>) -> bool;

/// The identity of a store instance; a handle may only be resolved against
/// the store that owns it.
pub uninterp spec fn store_id(s: wasmi::Store<String>) -> int;

/// The identity of the engine the store was created on.
pub uninterp spec fn store_engine(s: wasmi::Store<String>) -> int;

/// The store holds no instance yet, so one more can be created in it.
pub uninterp spec fn store_ready(s: wasmi::Store<String>) -> bool;

/// No guest code has run in the store yet, so its globals and memories still
/// hold what instantiation put there.
pub uninterp spec fn store_unrun(s: wasmi::Store<String>) -> bool;

/// The identity of the store that owns a pre-instance.
pub uninterp spec fn pre_store(p: wasmi::InstancePre) -> int;

/// The bytes of the module a pre-instance was instantiated from.
pub uninterp spec fn pre_bytes(p: wasmi::InstancePre) -> Seq<u8>;

/// The identity of the store that owns an instance.
pub uninterp spec fn instance_store(i: wasmi::Instance) -> int;

/// The bytes of the module an instance was instantiated from.
pub uninterp spec fn instance_bytes(i: wasmi::Instance) -> Seq<u8>;

/// The identity of the store that owns a function handle.
pub uninterp spec fn func_store(f: wasmi::Func) -> int;

/// The parameter kinds a function handle declares, in order.
pub uninterp spec fn func_params(f: wasmi::Func) -> Seq<ValueKind>;

/// The result kinds a function handle declares, in order.
pub uninterp spec fn func_results(f: wasmi::Func) -> Seq<ValueKind>;

/// The identity of the store that owns a memory handle.
pub uninterp spec fn memory_store(m: wasmi::Memory) -> int;

/// The bytes of the module whose instance exported the memory.
pub uninterp spec fn memory_bytes(m: wasmi::Memory) -> Seq<u8>;

/// The identity of the store that owns a global handle.
pub uninterp spec fn global_store(g: wasmi::Global) -> int;

/// The global's value right after instantiation, if its type is a 32-bit
/// integer.
pub uninterp spec fn global_init_i32(g: wasmi::Global) -> Option<i32>;

// --- what the default engine makes of fixed bytes ---------------------------

/// The bytes pass structural validation and compile.
pub uninterp spec fn compiles(b: Seq<u8>) -> bool;

/// The compiled bytes instantiate on a fresh store of a default engine with
/// exactly the `env.render` import provided: every import resolves to it and
/// table and memory initialization succeed.
pub uninterp spec fn instantiable(b: Seq<u8>) -> bool;

/// The module declares a start function.
pub uninterp spec fn has_start(b: Seq<u8>) -> bool;

/// An instance of the bytes exports a function of this name.
pub uninterp spec fn fn_export(b: Seq<u8>, name: Seq<char>) -> bool;

/// An instance of the bytes exports a linear memory of this name.
pub uninterp spec fn mem_export(b: Seq<u8>, name: Seq<char>) -> bool;

/// An instance of the bytes exports a global of this name.
pub uninterp spec fn glob_export(b: Seq<u8>, name: Seq<char>) -> bool;

/// The parameter kinds the exported function of this name declares.
pub uninterp spec fn export_fn_params(b: Seq<u8>, name: Seq<char>) -> Seq<ValueKind>;

/// The result kinds the exported function of this name declares.
pub uninterp spec fn export_fn_results(b: Seq<u8>, name: Seq<char>) -> Seq<ValueKind>;

/// The initial value of the exported global of this name, if its type is a
/// 32-bit integer.
pub uninterp spec fn export_global_i32(b: Seq<u8>, name: Seq<char>) -> Option<i32>;

/// The contents of the instance's exported memory right after
/// instantiation, before any guest code has run.
pub uninterp spec fn initial_memory(b: Seq<u8>) -> Seq<u8>;

// --- the wrappers -----------------------------------------------------------

/// Relies on `wasmi::Engine::default`: a fresh engine with the default
/// configuration.
#[verifier::external_body]
pub(crate) fn engine_default() -> (e: wasmi::Engine)
    ensures
        default_engine_id(engine_id(e)),
{
    wasmi::Engine::default()
}

/// Relies on `wasmi::Module::new`: compiles the bytes, succeeding exactly
/// when they pass structural validation; runs no guest code.  The compiled
/// module is a function of the bytes and belongs to the given engine.
#[verifier::external_body]
pub(crate) fn module_compile(engine: &wasmi::Engine, bytes: &[u8]) -> (r: Result<
    wasmi::Module,
    wasmi::Error,
>)
    requires
        default_engine_id(engine_id(*engine)),
    ensures
        r is Ok <==> compiles(bytes@),
        r matches Ok(m) ==> module_bytes(m) == bytes@ && module_engine(m) == engine_id(*engine),
{
    wasmi::Module::new(engine, bytes)
}

/// Relies on `wasmi::Store::new`: a fresh store on the given engine whose
/// host data is the given initial value, here the empty output slot; it
/// holds no instance and no guest code has run in it.
#[verifier::external_body]
pub(crate) fn store_new(engine: &wasmi::Engine) -> (s: wasmi::Store<String>)
    ensures
        captured(s) == Seq::<char>::empty(),
        store_engine(s) == engine_id(*engine),
        store_ready(s),
        store_unrun(s),
{
    wasmi::Store::new(engine, String::new())
}

/// Relies on `wasmi::Linker::new`: a fresh linker on the given engine with
/// no definitions.
#[verifier::external_body]
pub(crate) fn linker_new(engine: &wasmi::Engine) -> (l: wasmi::Linker<String>)
    ensures
        linker_engine(l) == engine_id(*engine),
        linker_empty(l),
{
    wasmi::Linker::new(engine)
}

/// Relies on `wasmi::Linker::func_new`: registers the one host import,
/// namespace `env`, name `render`, taking one 32-bit integer and returning
/// nothing.  The handler converts the engine's values and calls the
/// library's [`crate::text::capture_output`]; whatever that returns becomes
/// the store's captured output.  It fails only on a duplicate definition,
/// which an empty linker has none of.
#[verifier::external_body]
pub(crate) fn linker_define_render(linker: &mut wasmi::Linker<String>) -> (r: Result<
    (),
    wasmi::Error,
>)
    requires
        linker_empty(*old(linker)),
    ensures
        r is Ok,
        linker_render_only(*final(linker)),
        linker_engine(*final(linker)) == linker_engine(*old(linker)),
{
    let ty = wasmi::FuncType::new([wasmi::core::ValType::I32], []);
    let r = linker.func_new("env", "render", ty, |mut caller, params, _results| {
        let ptr = match params[0] {
            wasmi::Val::I32(p) => p,
            _ => return Err(wasmi::Error::new("render: argument must be i32")),
        };
        let Some(mem) = caller.get_export("memory").and_then(wasmi::Extern::into_memory) else {
            return Err(wasmi::Error::new("render: module exports no memory"));
        };
        *caller.data_mut() = crate::text::capture_output(mem.data(&caller), ptr);
        Ok(())
    });
    r.map(|_| ()).map_err(wasmi::Error::from)
}

/// Relies on `wasmi::Linker::instantiate`: resolves the module's imports
/// against the linker's one `env.render` definition without running any
/// guest code (the start function, if any, is deferred), so the store's
/// output slot is untouched.  Succeeds exactly when the bytes instantiate
/// that way; linker, module and store must share one engine, or the call
/// would panic.
#[verifier::external_body]
#[allow(deprecated)]
pub(crate) fn linker_instantiate(
    linker: &wasmi::Linker<String>,
    store: &mut wasmi::Store<String>,
    module: &wasmi::Module,
) -> (r: Result<wasmi::InstancePre, wasmi::Error>)
    requires
        linker_render_only(*linker),
        store_ready(*old(store)),
        default_engine_id(store_engine(*old(store))),
        linker_engine(*linker) == store_engine(*old(store)),
        module_engine(*module) == store_engine(*old(store)),
    ensures
        captured(*final(store)) == captured(*old(store)),
        store_id(*final(store)) == store_id(*old(store)),
        store_engine(*final(store)) == store_engine(*old(store)),
        store_unrun(*final(store)) == store_unrun(*old(store)),
        r is Ok <==> instantiable(module_bytes(*module)),
        r matches Ok(p) ==> pre_store(p) == store_id(*old(store)) && pre_bytes(p) == module_bytes(
            *module,
        ),
{
    linker.instantiate(&mut *store, module)
}

/// Relies on `wasmi::InstancePre::ensure_no_start`: finishes instantiation,
/// failing exactly when the module declares a start function; runs no guest
/// code either way, so the store's output slot is untouched.  The store must
/// own the pre-instance, or the call would panic.
#[verifier::external_body]
pub(crate) fn instance_no_start(
    pre: wasmi::InstancePre,
    store: &mut wasmi::Store<String>,
) -> (r: Result<wasmi::Instance, wasmi::Error>)
    requires
        pre_store(pre) == store_id(*old(store)),
    ensures
        captured(*final(store)) == captured(*old(store)),
        store_id(*final(store)) == store_id(*old(store)),
        store_engine(*final(store)) == store_engine(*old(store)),
        store_unrun(*final(store)) == store_unrun(*old(store)),
        r is Ok <==> !has_start(pre_bytes(pre)),
        r matches Ok(i) ==> instance_store(i) == store_id(*old(store)) && instance_bytes(i)
            == pre_bytes(pre),
{
    pre.ensure_no_start(&mut *store).map_err(wasmi::Error::from)
}

/// Relies on `wasmi::Instance::get_func`: the exported function of that
/// name, exactly when the instance's module exports one; the handle belongs
/// to the same store and carries the export's declared signature.  The store
/// must own the instance, or the call would panic.
#[verifier::external_body]
pub(crate) fn instance_func(
    instance: &wasmi::Instance,
    store: &wasmi::Store<String>,
    name: &str,
) -> (r: Option<wasmi::Func>)
    requires
        instance_store(*instance) == store_id(*store),
    ensures
        r is Some <==> fn_export(instance_bytes(*instance), name@),
        r matches Some(f) ==> {
            &&& func_store(f) == store_id(*store)
            &&& func_params(f) == export_fn_params(instance_bytes(*instance), name@)
            &&& func_results(f) == export_fn_results(instance_bytes(*instance), name@)
        },
{
    instance.get_func(store, name)
}

/// Relies on `wasmi::Instance::get_memory`: the exported linear memory of
/// that name, exactly when the instance's module exports one.  The store
/// must own the instance, or the call would panic.
#[verifier::external_body]
pub(crate) fn instance_memory(
    instance: &wasmi::Instance,
    store: &wasmi::Store<String>,
    name: &str,
) -> (r: Option<wasmi::Memory>)
    requires
        instance_store(*instance) == store_id(*store),
    ensures
        r is Some <==> mem_export(instance_bytes(*instance), name@),
        r matches Some(m) ==> memory_store(m) == store_id(*store) && memory_bytes(m)
            == instance_bytes(*instance),
{
    instance.get_memory(store, name)
}

/// Relies on `wasmi::Instance::get_global`: the exported global of that
/// name, exactly when the instance's module exports one; the handle carries
/// the global's initial value where its type is a 32-bit integer.  The store
/// must own the instance, or the call would panic.
#[verifier::external_body]
pub(crate) fn instance_global(
    instance: &wasmi::Instance,
    store: &wasmi::Store<String>,
    name: &str,
) -> (r: Option<wasmi::Global>)
    requires
        instance_store(*instance) == store_id(*store),
    ensures
        r is Some <==> glob_export(instance_bytes(*instance), name@),
        r matches Some(g) ==> global_store(g) == store_id(*store) && global_init_i32(g)
            == export_global_i32(instance_bytes(*instance), name@),
{
    instance.get_global(store, name)
}

/// Relies on `wasmi::Func::ty`: the function's declared type.  The store
/// must own the function, or the call would panic.
#[verifier::external_body]
pub(crate) fn func_type(f: &wasmi::Func, store: &wasmi::Store<String>) -> (r: wasmi::FuncType)
    requires
        func_store(*f) == store_id(*store),
    ensures
        params_of(r) == func_params(*f),
        results_of(r) == func_results(*f),
{
    f.ty(store)
}

/// Relies on `wasmi::FuncType::params`: the declared parameter types,
/// converted one for one to the library's [`ValueKind`].
#[verifier::external_body]
pub(crate) fn func_type_params(ty: &wasmi::FuncType) -> (r: Vec<ValueKind>)
    ensures
        r@ == params_of(*ty),
{
    let mut out = Vec::new();
    for v in ty.params() {
        out.push(match v {
            wasmi::core::ValType::I32 => ValueKind::I32,
            wasmi::core::ValType::I64 => ValueKind::I64,
            wasmi::core::ValType::F32 => ValueKind::F32,
            wasmi::core::ValType::F64 => ValueKind::F64,
            wasmi::core::ValType::V128 => ValueKind::V128,
            wasmi::core::ValType::FuncRef => ValueKind::FuncRef,
            wasmi::core::ValType::ExternRef => ValueKind::ExternRef,
        });
    }
    out
}

/// Relies on `wasmi::FuncType::results`: the declared result types,
/// converted one for one to the library's [`ValueKind`].
#[verifier::external_body]
pub(crate) fn func_type_results(ty: &wasmi::FuncType) -> (r: Vec<ValueKind>)
    ensures
        r@ == results_of(*ty),
{
    let mut out = Vec::new();
    for v in ty.results() {
        out.push(match v {
            wasmi::core::ValType::I32 => ValueKind::I32,
            wasmi::core::ValType::I64 => ValueKind::I64,
            wasmi::core::ValType::F32 => ValueKind::F32,
            wasmi::core::ValType::F64 => ValueKind::F64,
            wasmi::core::ValType::V128 => ValueKind::V128,
            wasmi::core::ValType::FuncRef => ValueKind::FuncRef,
            wasmi::core::ValType::ExternRef => ValueKind::ExternRef,
        });
    }
    out
}

/// Relies on `wasmi::Global::get` and `wasmi::Val::i32`: the global's
/// current value, if its type is a 32-bit integer — before any guest code
/// has run, that is its initial value.  The store must own the global, or
/// the call would panic.
#[verifier::external_body]
pub(crate) fn global_i32(g: &wasmi::Global, store: &wasmi::Store<String>) -> (r: Option<i32>)
    requires
        global_store(*g) == store_id(*store),
        store_unrun(*store),
    ensures
        r == global_init_i32(*g),
{
    g.get(store).i32()
}

/// Relies on `wasmi::Memory::data`: a read-only view of the guest's linear
/// memory — before any guest code has run, the contents instantiation put
/// there.  The store must own the memory, or the call would panic.
#[verifier::external_body]
pub(crate) fn memory_data<'a>(m: &wasmi::Memory, store: &'a wasmi::Store<String>) -> (r: &'a [u8])
    requires
        memory_store(*m) == store_id(*store),
        store_unrun(*store),
    ensures
        r@ == initial_memory(memory_bytes(*m)),
{
    m.data(store)
}

/// Relies on `wasmi::Func::call`: invokes the guest function with the given
/// positional arguments (floats are rebuilt from their bit patterns) and no
/// result slots.  An `Err` is any engine-level failure, a trap included.
/// The guest may call the `render` import during the call, so nothing is
/// promised of the store's output slot.  The store must own the function, or
/// the call would panic.
#[verifier::external_body]
pub(crate) fn call_callback(
    f: &wasmi::Func,
    store: &mut wasmi::Store<String>,
    args: &Vec<Value>,
) -> (r: Result<(), wasmi::Error>)
    requires
        func_store(*f) == store_id(*old(store)),
    ensures
        store_id(*final(store)) == store_id(*old(store)),
        store_engine(*final(store)) == store_engine(*old(store)),
{
    let mut vals = Vec::new();
    for a in args.iter() {
        vals.push(match a {
            Value::I32(v) => wasmi::Val::I32(*v),
            Value::F32Bits(b) => wasmi::Val::F32(wasmi::core::F32::from_bits(*b)),
            Value::F64Bits(b) => wasmi::Val::F64(wasmi::core::F64::from_bits(*b)),
        });
    }
    f.call(&mut *store, &vals, &mut [])
}

/// Relies on `wasmi::Store::data` and `String::clone`: a copy of the
/// store's captured output.
#[verifier::external_body]
pub(crate) fn store_output(store: &wasmi::Store<String>) -> (r: String)
    ensures
        r@ == captured(*store),
{
    store.data().clone()
}

/// Relies on the `Display` implementation of `wasmi::Error`: a
/// human-readable description of the failure.
#[verifier::external_body]
pub(crate) fn error_text(e: &wasmi::Error) -> String {
    format!("{}", e)
}

/// Relies on `web_time::Instant::now`: the current instant of the monotonic
/// clock.
#[verifier::external_body]
pub(crate) fn instant_now() -> web_time::Instant {
    web_time::Instant::now()
}

/// Relies on `web_time::Instant::elapsed` and `Duration::as_secs_f64`: the
/// time elapsed since `earlier` (zero if the clock has not advanced), in
/// seconds, converted to the bit pattern of the 64-bit float.  The duration
/// is non-negative and finite, so the sign bit of the result is clear.
#[verifier::external_body]
pub(crate) fn elapsed_seconds_bits(earlier: &web_time::Instant) -> (r: u64)
    ensures
        r < 0x8000000000000000u64,
{
    earlier.elapsed().as_secs_f64().to_bits()
}

} // verus!
