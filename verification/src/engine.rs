//! Everything this crate asks of the interpreter.
//!
//! Nothing in this file is proved. Each function makes one call into wasmi
//! and converts what goes in and what comes out; its contract is believed.
//! The rest of the crate is verified against these contracts.
//!
//! wasmi ties every function and every instance to the store it was made
//! in, and every function type to the engine it was made on, and panics
//! when one is used with another store or engine. The contracts carry those
//! ties, so that the verified code is held to them.

use vstd::prelude::*;
use crate::config::{EngineConfig, TranslationMode};
use crate::module::{ExportKindView, ExportView, SignatureView, Value, ValueType};
use crate::registry::HostFunction;
use crate::runtime::Fault;
use crate::state::{ModuleState, host_init_led, host_log, host_set_led};

verus! {

#[verifier::external_type_specification]
#[verifier::external_body]
pub struct ExEngine(wasmi::Engine);

#[verifier::external_type_specification]
#[verifier::external_body]
pub struct ExModule(wasmi::Module);

#[verifier::external_type_specification]
#[verifier::external_body]
#[verifier::reject_recursive_types(T)]
pub struct ExStore<T>(wasmi::Store<T>);

#[verifier::external_type_specification]
#[verifier::external_body]
pub struct ExInstance(wasmi::Instance);

#[verifier::external_type_specification]
#[verifier::external_body]
pub struct ExFunc(wasmi::Func);

#[verifier::external_type_specification]
#[verifier::external_body]
pub struct ExError(wasmi::Error);

#[verifier::external_type_specification]
#[verifier::external_body]
pub struct ExValType(wasmi::ValType);

#[verifier::external_type_specification]
#[verifier::external_body]
pub struct ExVal(wasmi::Val);

#[verifier::external_type_specification]
#[verifier::external_body]
#[verifier::reject_recursive_types(T)]
pub struct ExLinker<T>(wasmi::Linker<T>);

/// The identity of a store. wasmi gives every store an identity of its own
/// when it is created and never changes it.
pub uninterp spec fn store_id(store: wasmi::Store<ModuleState>) -> int;

/// The identity of the store a function was created in.
pub uninterp spec fn func_home(func: wasmi::Func) -> int;

/// The identity of the store an instance was created in.
pub uninterp spec fn instance_home(instance: wasmi::Instance) -> int;

/// The configuration an engine was built with.
pub uninterp spec fn engine_config(engine: wasmi::Engine) -> EngineConfig;

/// The engine a store runs on. A clone of an engine is that engine.
pub uninterp spec fn engine_of(store: wasmi::Store<ModuleState>) -> wasmi::Engine;

/// The engine a module was compiled on; its function types live there.
pub uninterp spec fn module_engine(module: wasmi::Module) -> wasmi::Engine;

/// The engine that the type of a function lives on.
pub uninterp spec fn func_engine(func: wasmi::Func) -> wasmi::Engine;

/// The engine of the module an instance was made from.
pub uninterp spec fn instance_engine(instance: wasmi::Instance) -> wasmi::Engine;

/// The fuel a store has left; nothing on an engine that does not meter.
pub uninterp spec fn store_fuel(store: wasmi::Store<ModuleState>) -> Option<u64>;

/// The host state a store holds.
pub uninterp spec fn store_state(store: wasmi::Store<ModuleState>) -> ModuleState;

/// The host function of this crate that a function of the engine runs.
pub uninterp spec fn func_callable(func: wasmi::Func) -> Option<HostFunction>;

/// What a linker has defined, key by key. Under a key that this crate
/// defined stands the host function it defined there.
pub uninterp spec fn linker_defs(linker: wasmi::Linker<ModuleState>) -> Map<
    (Seq<char>, Seq<char>),
    HostFunction,
>;

/// Whether a linker lets a definition take the place of one that holds its
/// key. A linker is made not to, and its owner may change that.
pub uninterp spec fn linker_shadows(linker: wasmi::Linker<ModuleState>) -> bool;

/// What the validator makes of `wasm` on an engine built with `config`: the
/// imports and exports it reports for a module it accepts, nothing for
/// bytes it rejects.
pub uninterp spec fn validated(config: EngineConfig, wasm: Seq<u8>) -> Option<
    (Seq<ReportedImport>, Seq<ExportView>),
>;

/// The bytes of the memory that an instance exports under `name`, if it
/// exports one, in the store the instance lives in.
pub uninterp spec fn memory_of(
    store: wasmi::Store<ModuleState>,
    instance: wasmi::Instance,
    name: Seq<char>,
) -> Option<Seq<u8>>;

/// Whether two states of a store are states of one store, on one engine.
pub open spec fn same_store(
    before: wasmi::Store<ModuleState>,
    after: wasmi::Store<ModuleState>,
) -> bool {
    store_id(after) == store_id(before) && engine_of(after) == engine_of(before)
}

/// Whether a store is the same store with the same fuel and host state.
pub open spec fn untouched(
    before: wasmi::Store<ModuleState>,
    after: wasmi::Store<ModuleState>,
) -> bool {
    same_store(before, after) && store_fuel(after) == store_fuel(before) && store_state(after)
        == store_state(before)
}

/// Whether a function can be used in a store: it was created there, and its
/// type lives on the store's engine.
pub open spec fn func_fits(func: wasmi::Func, store: wasmi::Store<ModuleState>) -> bool {
    func_home(func) == store_id(store) && func_engine(func) == engine_of(store)
}

/// Whether an instance can be used in a store: it was created there, from a
/// module of the store's engine.
pub open spec fn instance_fits(
    instance: wasmi::Instance,
    store: wasmi::Store<ModuleState>,
) -> bool {
    instance_home(instance) == store_id(store) && instance_engine(instance) == engine_of(store)
}

/// An import as the validator reports it, in plain values; `function` is
/// absent for an import that is no function.
pub struct ReportedImport {
    pub namespace: Seq<char>,
    pub name: Seq<char>,
    pub function: Option<SignatureView>,
}

/// The value type that a `ValType` stands for.
pub uninterp spec fn type_named(ty: wasmi::ValType) -> ValueType;

/// What `Module::imports` yields, in the order in which it yields it.
pub uninterp spec fn import_list(module: wasmi::Module) -> Seq<ReportedImport>;

/// What `Module::exports` yields, in the order in which it yields it.
pub uninterp spec fn export_list(module: wasmi::Module) -> Seq<ExportView>;

/// The number that a `Val` holds, a float by its bits; nothing for a
/// reference or a vector.
pub uninterp spec fn val_named(val: wasmi::Val) -> Option<Value>;

/// The value types that a run of `ValType`s stands for.
pub open spec fn types_named(raw: Seq<wasmi::ValType>) -> Seq<ValueType> {
    Seq::new(raw.len(), |i: int| type_named(raw[i]))
}

/// A function type as the engine reports it.
pub(crate) struct RawSignature {
    pub params: Vec<wasmi::ValType>,
    pub results: Vec<wasmi::ValType>,
}

impl RawSignature {
    /// The signature that the reported function type stands for.
    pub(crate) open spec fn named(self) -> SignatureView {
        SignatureView {
            params: types_named(self.params@),
            results: types_named(self.results@),
        }
    }
}

/// An import as the engine reports it; `function` is absent for an import
/// that is no function.
pub(crate) struct RawImport {
    pub namespace: String,
    pub name: String,
    pub function: Option<RawSignature>,
}

impl RawImport {
    /// The import in plain values.
    pub(crate) open spec fn named(self) -> ReportedImport {
        ReportedImport {
            namespace: self.namespace@,
            name: self.name@,
            function: match self.function {
                Some(function) => Some(function.named()),
                None => None,
            },
        }
    }
}

pub(crate) enum RawKind {
    Function(RawSignature),
    Table,
    Memory,
    Global,
}

/// An export as the engine reports it.
pub(crate) struct RawExport {
    pub name: String,
    pub kind: RawKind,
}

impl RawExport {
    /// The export in plain values.
    pub(crate) open spec fn named(self) -> ExportView {
        ExportView {
            name: self.name@,
            kind: match self.kind {
                RawKind::Function(function) => ExportKindView::Function(function.named()),
                RawKind::Table => ExportKindView::Table,
                RawKind::Memory => ExportKindView::Memory,
                RawKind::Global => ExportKindView::Global,
            },
        }
    }
}

/// Builds an engine with `Config`'s setters and `Engine::new`: an engine of
/// its own, built with `config`.
#[verifier::external_body]
pub(crate) fn engine_for(config: &EngineConfig) -> (engine: wasmi::Engine)
    ensures
        engine_config(engine) == *config,
{
    let mut options = wasmi::Config::default();
    options.consume_fuel(config.fuel_metering);
    options.compilation_mode(match config.translation {
        TranslationMode::Eager => wasmi::CompilationMode::Eager,
        TranslationMode::LazyTranslation => wasmi::CompilationMode::LazyTranslation,
        TranslationMode::Lazy => wasmi::CompilationMode::Lazy,
    });
    options.wasm_multi_value(config.multi_value);
    options.wasm_bulk_memory(config.bulk_memory);
    options.wasm_reference_types(config.reference_types);
    options.wasm_tail_call(config.tail_call);
    options.floats(config.floats);
    wasmi::Engine::new(&options)
}

/// `Module::new`: parses, validates and translates. Whether it accepts the
/// bytes, and what the module it makes imports and exports, depends on the
/// engine's configuration and the bytes alone. The module belongs to the
/// engine it was compiled on.
#[verifier::external_body]
pub(crate) fn compile(engine: &wasmi::Engine, wasm: &[u8]) -> (outcome: Result<
    wasmi::Module,
    wasmi::Error,
>)
    ensures
        match outcome {
            Ok(module) => module_engine(module) == *engine && validated(
                engine_config(*engine),
                wasm@,
            ) == Some((import_list(module), export_list(module))),
            Err(_) => validated(engine_config(*engine), wasm@) is None,
        },
{
    wasmi::Module::new(engine, wasm)
}

/// How many imports `Module::imports` yields.
#[verifier::external_body]
pub(crate) fn import_count(module: &wasmi::Module) -> (count: usize)
    ensures
        count == import_list(*module).len(),
{
    module.imports().len()
}

/// How many exports `Module::exports` yields.
#[verifier::external_body]
pub(crate) fn export_count(module: &wasmi::Module) -> (count: usize)
    ensures
        count == export_list(*module).len(),
{
    module.exports().count()
}

/// The import at `index` of `Module::imports`: there is one exactly when
/// `index` is less than the number of imports, and it is the one that the
/// iterator yields in that place.
#[verifier::external_body]
pub(crate) fn import_at(module: &wasmi::Module, index: usize) -> (found: Option<RawImport>)
    ensures
        match found {
            Some(raw) => index < import_list(*module).len() && raw.named() == import_list(
                *module,
            )[index as int],
            None => index >= import_list(*module).len(),
        },
{
    let import = module.imports().nth(index)?;
    let function = import.ty().func().map(
        |ty| RawSignature { params: ty.params().to_vec(), results: ty.results().to_vec() },
    );
    let namespace = import.module().to_owned();
    Some(RawImport { namespace, name: import.name().to_owned(), function })
}

/// The export at `index` of `Module::exports`: there is one exactly when
/// `index` is less than the number of exports, and it is the one that the
/// iterator yields in that place.
#[verifier::external_body]
pub(crate) fn export_at(module: &wasmi::Module, index: usize) -> (found: Option<RawExport>)
    ensures
        match found {
            Some(raw) => index < export_list(*module).len() && raw.named() == export_list(
                *module,
            )[index as int],
            None => index >= export_list(*module).len(),
        },
{
    let export = module.exports().nth(index)?;
    let kind = match export.ty() {
        wasmi::ExternType::Func(ty) => RawKind::Function(
            RawSignature { params: ty.params().to_vec(), results: ty.results().to_vec() },
        ),
        wasmi::ExternType::Table(_) => RawKind::Table,
        wasmi::ExternType::Memory(_) => RawKind::Memory,
        wasmi::ExternType::Global(_) => RawKind::Global,
    };
    Some(RawExport { name: export.name().to_owned(), kind })
}

/// Tells the variants of `ValType` apart: each gives the value type of the
/// same name.
#[verifier::external_body]
pub(crate) fn value_type_of(ty: &wasmi::ValType) -> (named: ValueType)
    ensures
        named == type_named(*ty),
{
    match ty {
        wasmi::ValType::I32 => ValueType::I32,
        wasmi::ValType::I64 => ValueType::I64,
        wasmi::ValType::F32 => ValueType::F32,
        wasmi::ValType::F64 => ValueType::F64,
        wasmi::ValType::V128 => ValueType::V128,
        wasmi::ValType::FuncRef => ValueType::FuncRef,
        wasmi::ValType::ExternRef => ValueType::ExternRef,
    }
}

/// `Store::new`: a store on `engine` that holds `state` and, where the
/// engine meters, no fuel.
#[verifier::external_body]
pub(crate) fn new_store(engine: &wasmi::Engine, state: ModuleState) -> (store: wasmi::Store<
    ModuleState,
>)
    ensures
        engine_of(store) == *engine,
        store_state(store) == state,
        store_fuel(store) == if engine_config(*engine).fuel_metering {
            Some(0u64)
        } else {
            None
        },
{
    wasmi::Store::new(engine, state)
}

/// `Store::engine`: the engine a store runs on.
#[verifier::external_body]
pub(crate) fn store_engine(store: &wasmi::Store<ModuleState>) -> (engine: wasmi::Engine)
    ensures
        engine == engine_of(*store),
{
    store.engine().clone()
}

/// Exchanges the host state in the store (`Store::data_mut`) with `state`.
/// Nothing else about the store changes.
#[verifier::external_body]
pub(crate) fn swap_state(store: &mut wasmi::Store<ModuleState>, state: &mut ModuleState)
    ensures
        same_store(*old(store), *final(store)),
        store_fuel(*final(store)) == store_fuel(*old(store)),
        store_state(*final(store)) == *old(state),
        *final(state) == store_state(*old(store)),
{
    std::mem::swap(store.data_mut(), state)
}

/// `Store::set_fuel`: sets the fuel that is left, on an engine that meters,
/// and tells whether it did. Nothing else about the store changes.
#[verifier::external_body]
pub(crate) fn store_set_fuel(store: &mut wasmi::Store<ModuleState>, fuel: u64) -> (taken: bool)
    ensures
        same_store(*old(store), *final(store)),
        store_state(*final(store)) == store_state(*old(store)),
        taken == engine_config(engine_of(*old(store))).fuel_metering,
        store_fuel(*final(store)) == if taken {
            Some(fuel)
        } else {
            store_fuel(*old(store))
        },
{
    store.set_fuel(fuel).is_ok()
}

/// `Store::get_fuel`: the fuel that is left, on an engine that meters.
#[verifier::external_body]
pub(crate) fn store_get_fuel(store: &wasmi::Store<ModuleState>) -> (left: Option<u64>)
    ensures
        left == store_fuel(*store),
        left is Some <==> engine_config(engine_of(*store)).fuel_metering,
{
    store.get_fuel().ok()
}

/// `Func::wrap` around `host_init_led`. The function belongs to the store it
/// was created in; creating it leaves the store as it was.
#[verifier::external_body]
pub(crate) fn wrap_init_led(store: &mut wasmi::Store<ModuleState>) -> (func: wasmi::Func)
    ensures
        untouched(*old(store), *final(store)),
        func_fits(func, *old(store)),
        func_callable(func) == Some(HostFunction::InitLed),
{
    wasmi::Func::wrap(
        &mut *store,
        |mut caller: wasmi::Caller<'_, ModuleState>| {
            host_init_led(caller.data_mut()).map_err(|trap| wasmi::Error::new(trap.describe()))
        },
    )
}

/// `Func::wrap` around `host_set_led`. The function belongs to the store it
/// was created in; creating it leaves the store as it was.
#[verifier::external_body]
pub(crate) fn wrap_set_led(store: &mut wasmi::Store<ModuleState>) -> (func: wasmi::Func)
    ensures
        untouched(*old(store), *final(store)),
        func_fits(func, *old(store)),
        func_callable(func) == Some(HostFunction::SetLed),
{
    wasmi::Func::wrap(
        &mut *store,
        |mut caller: wasmi::Caller<'_, ModuleState>, led_on: i32| {
            host_set_led(caller.data_mut(), led_on).map_err(
                |trap| wasmi::Error::new(trap.describe()),
            )
        },
    )
}

/// `Func::wrap` around `host_log`, which is handed the bytes of the memory
/// that the calling instance exports under `memory` (`Caller::get_export`),
/// if it exports one. The function belongs to the store it was created in;
/// creating it leaves the store as it was.
#[verifier::external_body]
pub(crate) fn wrap_log(store: &mut wasmi::Store<ModuleState>, memory: &str) -> (func: wasmi::Func)
    ensures
        untouched(*old(store), *final(store)),
        func_fits(func, *old(store)),
        func_callable(func) == Some(HostFunction::Log),
{
    let export = memory.to_owned();
    wasmi::Func::wrap(
        &mut *store,
        move |mut caller: wasmi::Caller<'_, ModuleState>, buffer_ptr: u32, length: u32| {
            let outcome = match caller.get_export(&export).and_then(wasmi::Extern::into_memory) {
                Some(memory) => {
                    let (data, state) = memory.data_and_store_mut(&mut caller);
                    host_log(state, Some(&*data), buffer_ptr, length)
                },
                None => host_log(caller.data_mut(), None, buffer_ptr, length),
            };
            outcome.map_err(|trap| wasmi::Error::new(trap.describe()))
        },
    )
}

/// `Linker::func_wrap` around `host_init_led`, under the names given. A
/// free key takes the definition. A taken key is refused, with the linker
/// unchanged, unless the linker lets definitions shadow each other: then
/// this one takes the place of the old one.
#[verifier::external_body]
pub(crate) fn define_init_led(
    linker: &mut wasmi::Linker<ModuleState>,
    namespace: &str,
    name: &str,
) -> (defined: bool)
    ensures
        linker_shadows(*final(linker)) == linker_shadows(*old(linker)),
        defined <==> !linker_defs(*old(linker)).contains_key((namespace@, name@))
            || linker_shadows(*old(linker)),
        linker_defs(*final(linker)) == if defined {
            linker_defs(*old(linker)).insert((namespace@, name@), HostFunction::InitLed)
        } else {
            linker_defs(*old(linker))
        },
{
    linker.func_wrap(
        namespace,
        name,
        |mut caller: wasmi::Caller<'_, ModuleState>| {
            host_init_led(caller.data_mut()).map_err(|trap| wasmi::Error::new(trap.describe()))
        },
    ).is_ok()
}

/// `Linker::func_wrap` around `host_set_led`, under the names given. A free
/// key takes the definition. A taken key is refused, with the linker
/// unchanged, unless the linker lets definitions shadow each other: then
/// this one takes the place of the old one.
#[verifier::external_body]
pub(crate) fn define_set_led(
    linker: &mut wasmi::Linker<ModuleState>,
    namespace: &str,
    name: &str,
) -> (defined: bool)
    ensures
        linker_shadows(*final(linker)) == linker_shadows(*old(linker)),
        defined <==> !linker_defs(*old(linker)).contains_key((namespace@, name@))
            || linker_shadows(*old(linker)),
        linker_defs(*final(linker)) == if defined {
            linker_defs(*old(linker)).insert((namespace@, name@), HostFunction::SetLed)
        } else {
            linker_defs(*old(linker))
        },
{
    linker.func_wrap(
        namespace,
        name,
        |mut caller: wasmi::Caller<'_, ModuleState>, led_on: i32| {
            host_set_led(caller.data_mut(), led_on).map_err(
                |trap| wasmi::Error::new(trap.describe()),
            )
        },
    ).is_ok()
}

/// `Linker::func_wrap` around `host_log`, under the names given; the
/// callable is handed the memory that its caller exports under `memory`, as
/// in `wrap_log`. A free key takes the definition. A taken key is refused,
/// with the linker unchanged, unless the linker lets definitions shadow
/// each other: then this one takes the place of the old one.
#[verifier::external_body]
pub(crate) fn define_log(
    linker: &mut wasmi::Linker<ModuleState>,
    namespace: &str,
    name: &str,
    memory: &str,
) -> (defined: bool)
    ensures
        linker_shadows(*final(linker)) == linker_shadows(*old(linker)),
        defined <==> !linker_defs(*old(linker)).contains_key((namespace@, name@))
            || linker_shadows(*old(linker)),
        linker_defs(*final(linker)) == if defined {
            linker_defs(*old(linker)).insert((namespace@, name@), HostFunction::Log)
        } else {
            linker_defs(*old(linker))
        },
{
    let export = memory.to_owned();
    linker.func_wrap(
        namespace,
        name,
        move |mut caller: wasmi::Caller<'_, ModuleState>, buffer_ptr: u32, length: u32| {
            let outcome = match caller.get_export(&export).and_then(wasmi::Extern::into_memory) {
                Some(memory) => {
                    let (data, state) = memory.data_and_store_mut(&mut caller);
                    host_log(state, Some(&*data), buffer_ptr, length)
                },
                None => host_log(caller.data_mut(), None, buffer_ptr, length),
            };
            outcome.map_err(|trap| wasmi::Error::new(trap.describe()))
        },
    ).is_ok()
}

/// `Clone` for `Engine`: a clone of an engine is that engine, a second
/// handle to it.
pub assume_specification[ <wasmi::Engine as Clone>::clone ](engine: &wasmi::Engine) -> (copy:
    wasmi::Engine)
    ensures
        copy == *engine,
;

/// `Engine::same`: whether two engines are one engine.
#[verifier::external_body]
pub(crate) fn same_engine(left: &wasmi::Engine, right: &wasmi::Engine) -> (same: bool)
    ensures
        same == (*left == *right),
{
    wasmi::Engine::same(left, right)
}

/// `Instance::new`, which also runs the module's start function. wasmi
/// panics on a function of another store and on a type of another engine,
/// so every function must fit the store and the module must be of the
/// store's engine; the instance then fits the store too.
#[verifier::external_body]
pub(crate) fn instantiate_module(
    store: &mut wasmi::Store<ModuleState>,
    module: &wasmi::Module,
    funcs: &Vec<wasmi::Func>,
) -> (outcome: Result<wasmi::Instance, wasmi::Error>)
    requires
        forall|i: int| 0 <= i < funcs@.len() ==> func_fits(#[trigger] funcs@[i], *old(store)),
        module_engine(*module) == engine_of(*old(store)),
    ensures
        same_store(*old(store), *final(store)),
        outcome matches Ok(instance) ==> instance_home(instance) == store_id(*old(store))
            && instance_engine(instance) == engine_of(*old(store)),
{
    let externs: Vec<wasmi::Extern> = funcs.iter().map(|func| wasmi::Extern::Func(*func)).collect();
    wasmi::Instance::new(&mut *store, module, &externs)
}

/// `Instance::get_func`: the function that an instance exports under
/// `name`, if it exports one. wasmi panics on an instance of another store.
/// The function lives where the instance lives.
#[verifier::external_body]
pub(crate) fn exported_func(
    store: &wasmi::Store<ModuleState>,
    instance: &wasmi::Instance,
    name: &str,
) -> (found: Option<wasmi::Func>)
    requires
        instance_home(*instance) == store_id(*store),
    ensures
        found matches Some(func) ==> func_home(func) == store_id(*store) && func_engine(func)
            == instance_engine(*instance),
{
    instance.get_func(store, name)
}

/// `Func::call` with numbers as arguments: writes the results into
/// `results` and keeps its length. wasmi panics on a function of another
/// store and on a type of another engine, so the function must fit the
/// store.
#[verifier::external_body]
pub(crate) fn call_func(
    store: &mut wasmi::Store<ModuleState>,
    func: &wasmi::Func,
    params: &Vec<wasmi::Val>,
    results: &mut Vec<wasmi::Val>,
) -> (outcome: Result<(), wasmi::Error>)
    requires
        func_fits(*func, *old(store)),
        forall|i: int| 0 <= i < params@.len() ==> val_named(#[trigger] params@[i]) is Some,
        forall|i: int|
            0 <= i < old(results)@.len() ==> val_named(#[trigger] old(results)@[i]) is Some,
    ensures
        same_store(*old(store), *final(store)),
        final(results)@.len() == old(results)@.len(),
{
    func.call(&mut *store, params, results)
}

/// `Instance::get_memory` for the export `name`, then `Memory::data`: the
/// bytes of that memory, if the instance exports one. wasmi panics on an
/// instance of another store, so the instance must belong to `store`.
#[verifier::external_body]
pub(crate) fn exported_memory<'a>(
    store: &'a wasmi::Store<ModuleState>,
    instance: &wasmi::Instance,
    name: &str,
) -> (found: Option<&'a [u8]>)
    requires
        instance_home(*instance) == store_id(*store),
    ensures
        match found {
            Some(bytes) => memory_of(*store, *instance, name@) == Some(bytes@),
            None => memory_of(*store, *instance, name@) is None,
        },
{
    instance.get_memory(store, name).map(|memory| memory.data(store))
}

/// Builds the `Val` of the same variant that holds the number; a float is
/// rebuilt from its bits with `from_bits`.
#[verifier::external_body]
pub(crate) fn to_val(value: Value) -> (val: wasmi::Val)
    ensures
        val_named(val) == Some(value),
{
    match value {
        Value::I32(number) => wasmi::Val::I32(number),
        Value::I64(number) => wasmi::Val::I64(number),
        Value::F32(bits) => wasmi::Val::F32(wasmi::F32::from_bits(bits)),
        Value::F64(bits) => wasmi::Val::F64(wasmi::F64::from_bits(bits)),
    }
}

/// Tells the variants of `Val` apart: a number gives the value of the same
/// variant, a float by `to_bits`; a reference or a vector gives nothing.
#[verifier::external_body]
pub(crate) fn from_val(val: &wasmi::Val) -> (value: Option<Value>)
    ensures
        value == val_named(*val),
{
    match val {
        wasmi::Val::I32(number) => Some(Value::I32(*number)),
        wasmi::Val::I64(number) => Some(Value::I64(*number)),
        wasmi::Val::F32(number) => Some(Value::F32(number.to_bits())),
        wasmi::Val::F64(number) => Some(Value::F64(number.to_bits())),
        _ => None,
    }
}

/// Sorts an error of the engine by `Error::as_trap_code` and `Error::kind`,
/// and keeps the engine's words for it.
#[verifier::external_body]
pub(crate) fn fault_of(error: &wasmi::Error) -> Fault {
    match (error.as_trap_code(), error.kind()) {
        (Some(wasmi::TrapCode::OutOfFuel), _) => Fault::OutOfFuel,
        (Some(_), _) => Fault::GuestTrap(error.to_string()),
        (None, wasmi::errors::ErrorKind::Message(words)) => Fault::HostTrap(words.to_string()),
        (None, _) => Fault::Other(error.to_string()),
    }
}

} // verus!
