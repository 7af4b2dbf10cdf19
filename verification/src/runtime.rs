//! The runtime: execution contexts, instantiation and calls.
//!
//! A context owns the host state and the fuel budget as plain values. For
//! the length of a call into the guest it lends the state to the engine and
//! afterwards takes back the state and what is left of the fuel.
//!
//! The engine at hand takes a program only as bytes that it validates and
//! translates itself. So a module carries the bytes that the validator
//! accepted, and `instantiate` hands them to the engine again: an artifact
//! spares the target the description of the module, not yet the translation.
//!
//! One thread of control at a time: a context, and the instance in it, must
//! not be entered from two places at once, and a host function must not call
//! back into the instance that called it.

use vstd::prelude::*;
use vstd::pervasive::unreached;
use vstd::slice::slice_to_vec;
use crate::config::EngineConfig;
use crate::engine::{
    RawExport, RawKind, RawSignature, ReportedImport, call_func, compile, engine_config,
    engine_for, engine_of, export_at, export_count, export_list, exported_func, exported_memory,
    fault_of, from_val, func_callable, func_fits, import_at, import_count, import_list,
    instance_fits, instantiate_module, memory_of, new_store, same_engine, same_store,
    store_engine,
    store_fuel, store_get_fuel, store_set_fuel, store_state, swap_state, to_val, types_named,
    untouched, val_named, validated, value_type_of, wrap_init_led, wrap_log, wrap_set_led,
};
use crate::fuel::{FuelExhausted, FuelMeter, fuel_after};
use crate::module::{
    ExecutableModule, ExportDescriptor, ExportKind, ExportKindView, ExportView, ImportDescriptor,
    ImportView, ModuleView, Signature, Value, ValueType, exports_view, imports_view, is_numeric,
    type_of, value_types,
};
use crate::registry::{
    HostFunction, HostFunctionRegistry, LinkError, LinkedImports, host_functions, link_outcome,
    signature_of,
};
use crate::state::{
    HostEvent, HostEventView, HostTrap, MEMORY_EXPORT, ModuleState, events_view, in_bounds,
    read_bytes,
};

verus! {

/// The fuel a context is given when it is set up for a module.
pub const MODULE_FUEL: u64 = 1000;

/// Why bytes were not taken as a module.
#[derive(Debug, Clone, PartialEq, Eq)]
pub enum ParseError {
    /// The validator rejected the bytes; its words.
    Invalid(String),
    /// The module imports something that is no function, under these names.
    UnsupportedImport(String, String),
}

pub enum ParseErrorView {
    Invalid(Seq<char>),
    UnsupportedImport(Seq<char>, Seq<char>),
}

impl View for ParseError {
    type V = ParseErrorView;

    open spec fn view(&self) -> ParseErrorView {
        match self {
            ParseError::Invalid(words) => ParseErrorView::Invalid(words@),
            ParseError::UnsupportedImport(namespace, name) => ParseErrorView::UnsupportedImport(
                namespace@,
                name@,
            ),
        }
    }
}

/// A call ended in a trap.
#[derive(Debug, Clone, PartialEq, Eq)]
pub enum TrapError {
    /// The guest's own fault; the engine's words for it.
    Guest(String),
    /// A host function refused the guest's request; its words.
    Host(String),
}

/// A call was made in a way that cannot work. The instance is as good as
/// before.
#[derive(Debug, Clone, PartialEq, Eq)]
pub enum CallError {
    /// The instance exports nothing under this name.
    UnknownExport(String),
    /// What is exported under this name is no function, or not one that
    /// takes the arguments given and returns numbers.
    TypeMismatch(String),
    /// The context does not host this instance.
    NotInstantiated,
}

pub enum CallErrorView {
    UnknownExport(Seq<char>),
    TypeMismatch(Seq<char>),
    NotInstantiated,
}

impl View for CallError {
    type V = CallErrorView;

    open spec fn view(&self) -> CallErrorView {
        match self {
            CallError::UnknownExport(name) => CallErrorView::UnknownExport(name@),
            CallError::TypeMismatch(name) => CallErrorView::TypeMismatch(name@),
            CallError::NotInstantiated => CallErrorView::NotInstantiated,
        }
    }
}

/// Why a call did not complete.
#[derive(Debug, Clone, PartialEq, Eq)]
pub enum CallFailure {
    /// The caller's mistake; nothing ran.
    Usage(CallError),
    /// The guest trapped.
    Trap(TrapError),
    /// The fuel ran out. Refill and call again.
    FuelExhausted,
    /// The engine refused for a reason of its own; its words.
    Engine(String),
}

/// Why a module was not instantiated.
#[derive(Debug, Clone, PartialEq, Eq)]
pub enum InstantiationError {
    /// The context already hosts an instance.
    ContextInUse,
    /// The module was built under another configuration than the context's.
    ConfigMismatch,
    /// The plan does not answer the module's imports one for one, each with
    /// the signature asked for.
    PlanMismatch,
    /// An initializer or the start routine trapped.
    Trap(TrapError),
    /// The fuel ran out in the start routine.
    FuelExhausted,
    /// The engine did not take the module; its words.
    Engine(String),
}

/// Fuel was set on a context whose engine does not meter.
#[derive(Debug, Clone, Copy, PartialEq, Eq, Structural)]
pub struct MeteringDisabled;

/// Why a context could not be set up for a module.
#[derive(Debug, Clone, PartialEq, Eq)]
pub enum SetupError {
    /// The configuration does not meter fuel, so no budget can be set.
    MeteringDisabled,
    /// The module does not link against this runtime's host functions.
    Link(LinkError),
}

/// How a call into the engine failed.
#[derive(Debug, Clone)]
pub enum Fault {
    /// The fuel ran out.
    OutOfFuel,
    /// The guest trapped; the engine's words for the trap.
    GuestTrap(String),
    /// A host function refused; its words.
    HostTrap(String),
    /// The engine refused for another reason; its words.
    Other(String),
}

impl Fault {
    /// The words that came with the fault.
    pub fn words(&self) -> (words: String)
        ensures
            match *self {
                Fault::OutOfFuel => words@ == "all fuel consumed"@,
                Fault::GuestTrap(text) => words@ == text@,
                Fault::HostTrap(text) => words@ == text@,
                Fault::Other(text) => words@ == text@,
            },
    {
        match self {
            Fault::OutOfFuel => "all fuel consumed".to_owned(),
            Fault::GuestTrap(text) => text.clone(),
            Fault::HostTrap(text) => text.clone(),
            Fault::Other(text) => text.clone(),
        }
    }
}

/// The budget after a call that had `before` units, when the engine reports
/// `reported` units left (or reports nothing) and the call did or did not
/// end for want of fuel. A budget never grows through a call.
pub open spec fn fuel_after_call(before: u64, reported: Option<u64>, out_of_fuel: bool) -> u64 {
    if out_of_fuel {
        0
    } else {
        match reported {
            Some(left) => if left <= before {
                left
            } else {
                before
            },
            None => before,
        }
    }
}

/// Fuel monotonicity: whatever the engine reports, a call leaves no more
/// fuel than it found, and what it leaves is determined by what it found,
/// what the engine reports and how the call ended.
pub proof fn lemma_budget_never_grows(before: u64, reported: Option<u64>, out_of_fuel: bool)
    ensures
        fuel_after_call(before, reported, out_of_fuel) <= before,
        out_of_fuel ==> fuel_after_call(before, reported, out_of_fuel) == 0,
        !out_of_fuel && reported is None ==> fuel_after_call(before, reported, out_of_fuel)
            == before,
{
}

/// Settles a call into the engine: brings the budget up to date and says
/// how the call ended.
///
/// `fault` is how the engine failed, if it did, and `reported` the fuel it
/// reports as left, if it meters. Running out of fuel empties the budget and
/// is reported as such, apart from every trap.
pub fn conclude(meter: &mut FuelMeter, reported: Option<u64>, fault: Option<Fault>) -> (outcome:
    Result<(), CallFailure>)
    ensures
        final(meter)@ == fuel_after_call(
            old(meter)@,
            reported,
            fault matches Some(Fault::OutOfFuel),
        ),
        match fault {
            None => outcome is Ok,
            Some(Fault::OutOfFuel) => outcome matches Err(CallFailure::FuelExhausted),
            Some(Fault::GuestTrap(words)) => outcome matches Err(
                CallFailure::Trap(TrapError::Guest(text)),
            ) && text@ == words@,
            Some(Fault::HostTrap(words)) => outcome matches Err(
                CallFailure::Trap(TrapError::Host(text)),
            ) && text@ == words@,
            Some(Fault::Other(words)) => outcome matches Err(CallFailure::Engine(text)) && text@
                == words@,
        },
{
    let before = meter.remaining();
    match fault {
        Some(Fault::OutOfFuel) => {
            meter.set_fuel(0);
            Err(CallFailure::FuelExhausted)
        },
        other => {
            match reported {
                Some(left) => {
                    if left <= before {
                        meter.set_fuel(left);
                    }
                },
                None => {},
            }
            match other {
                None => Ok(()),
                Some(Fault::GuestTrap(words)) => Err(CallFailure::Trap(TrapError::Guest(words))),
                Some(Fault::HostTrap(words)) => Err(CallFailure::Trap(TrapError::Host(words))),
                Some(Fault::Other(words)) => Err(CallFailure::Engine(words)),
                Some(Fault::OutOfFuel) => Err(CallFailure::FuelExhausted),
            }
        },
    }
}

/// Whether an export is a function that takes arguments of these types and
/// returns numbers only.
pub open spec fn callable_with(kind: ExportKindView, arg_types: Seq<ValueType>) -> bool {
    kind matches ExportKindView::Function(signature) && signature.params == arg_types
        && forall|i: int|
        0 <= i < signature.results.len() ==> is_numeric(#[trigger] signature.results[i])
}

/// What a call by `name` with arguments of these types finds among
/// `exports`: the first export of that name decides, and a call that can
/// work learns the types of its results.
pub open spec fn export_lookup(
    exports: Seq<ExportView>,
    name: Seq<char>,
    arg_types: Seq<ValueType>,
) -> Result<Seq<ValueType>, CallErrorView>
    decreases exports.len(),
{
    if exports.len() == 0 {
        Err(CallErrorView::UnknownExport(name))
    } else if exports.first().name == name {
        if callable_with(exports.first().kind, arg_types) {
            Ok(exports.first().kind->Function_0.results)
        } else {
            Err(CallErrorView::TypeMismatch(name))
        }
    } else {
        export_lookup(exports.drop_first(), name, arg_types)
    }
}

/// The mistake in a call, if there is one.
pub open spec fn usage_error(
    hosted: bool,
    exports: Seq<ExportView>,
    name: Seq<char>,
    arg_types: Seq<ValueType>,
) -> Option<CallErrorView> {
    if !hosted {
        Some(CallErrorView::NotInstantiated)
    } else {
        match export_lookup(exports, name, arg_types) {
            Ok(_) => None,
            Err(error) => Some(error),
        }
    }
}

fn args_fit(params: &Vec<ValueType>, args: &Vec<Value>) -> (fit: bool)
    ensures
        fit == (params@ == value_types(args@)),
{
    if params.len() != args.len() {
        return false;
    }
    let mut index: usize = 0;
    while index < args.len()
        invariant
            index <= args@.len(),
            params@.len() == args@.len(),
            forall|i: int| 0 <= i < index ==> params@[i] == type_of(#[trigger] args@[i]),
        decreases args.len() - index,
    {
        if params[index] != args[index].value_type() {
            assert(params@[index as int] != value_types(args@)[index as int]);
            return false;
        }
        index += 1;
    }
    assert(params@ =~= value_types(args@));
    true
}

fn zeros(types: &Vec<ValueType>) -> (values: Option<Vec<Value>>)
    ensures
        values is Some <==> forall|i: int|
            0 <= i < types@.len() ==> is_numeric(#[trigger] types@[i]),
        values matches Some(zeros) ==> value_types(zeros@) == types@,
{
    let mut values: Vec<Value> = Vec::new();
    let mut index: usize = 0;
    while index < types.len()
        invariant
            index <= types@.len(),
            values@.len() == index,
            forall|i: int| 0 <= i < index ==> is_numeric(#[trigger] types@[i]),
            forall|i: int| 0 <= i < index ==> type_of(#[trigger] values@[i]) == types@[i],
        decreases types.len() - index,
    {
        match Value::zero(types[index]) {
            Some(zero) => {
                values.push(zero);
            },
            None => {
                assert(!is_numeric(types@[index as int]));
                return None;
            },
        }
        index += 1;
    }
    assert(value_types(values@) =~= types@);
    Some(values)
}

fn find_export(exports: &Vec<ExportDescriptor>, name: &str, args: &Vec<Value>) -> (outcome:
    Result<Vec<Value>, CallError>)
    ensures
        match outcome {
            Ok(zeros) => export_lookup(exports_view(exports@), name@, value_types(args@)) == Ok::<
                Seq<ValueType>,
                CallErrorView,
            >(value_types(zeros@)),
            Err(error) => export_lookup(exports_view(exports@), name@, value_types(args@)) == Err::<
                Seq<ValueType>,
                CallErrorView,
            >(error@),
        },
{
    let ghost views = exports_view(exports@);
    let ghost arg_types = value_types(args@);
    let wanted = name.to_owned();
    let mut index: usize = 0;
    assert(views.skip(0) =~= views);
    while index < exports.len()
        invariant
            index <= exports@.len(),
            views == exports_view(exports@),
            arg_types == value_types(args@),
            wanted@ == name@,
            export_lookup(views, name@, arg_types) == export_lookup(
                views.skip(index as int),
                name@,
                arg_types,
            ),
        decreases exports.len() - index,
    {
        let export = &exports[index];
        proof {
            assert(views.skip(index as int).first() == export@);
            assert(views.skip(index as int).drop_first() =~= views.skip(index + 1));
        }
        if export.name == wanted {
            return match &export.kind {
                ExportKind::Function(signature) => {
                    if args_fit(&signature.params, args) {
                        match zeros(&signature.results) {
                            Some(zeros) => Ok(zeros),
                            None => Err(CallError::TypeMismatch(name.to_owned())),
                        }
                    } else {
                        Err(CallError::TypeMismatch(name.to_owned()))
                    }
                },
                _ => Err(CallError::TypeMismatch(name.to_owned())),
            };
        }
        index += 1;
    }
    Err(CallError::UnknownExport(name.to_owned()))
}

/// A linked, started realization of one module. It lives in the context it
/// was instantiated in and is called through that context. It knows its
/// context by the context's engine: every context has an engine of its own.
#[derive(Debug, Clone)]
pub struct ModuleInstance {
    exports: Vec<ExportDescriptor>,
    home: wasmi::Engine,
}

impl View for ModuleInstance {
    type V = Seq<ExportView>;

    closed spec fn view(&self) -> Seq<ExportView> {
        exports_view(self.exports@)
    }
}

impl ModuleInstance {
    /// The engine of the context the instance was made in.
    pub closed spec fn home(&self) -> wasmi::Engine {
        self.home
    }

    /// What the instance exports, in the order of the module's descriptors.
    pub fn exports(&self) -> (exports: &Vec<ExportDescriptor>)
        ensures
            exports_view(exports@) == self@,
    {
        &self.exports
    }
}

/// The state shared by everything that runs in one instance: the host
/// state, the fuel budget and, inside the engine, the guest's memory.
pub struct ExecutionContext {
    config: EngineConfig,
    state: ModuleState,
    meter: FuelMeter,
    store: wasmi::Store<ModuleState>,
    instance: Option<wasmi::Instance>,
    exports: Vec<ExportDescriptor>,
}

impl ExecutionContext {
    /// Whether the context is in one piece: its store runs on an engine of
    /// its configuration, and the instance it hosts, if any, lives in that
    /// store and on that engine. Every context this crate hands out is, and
    /// nothing this crate offers breaks one.
    pub closed spec fn wf(&self) -> bool {
        engine_config(engine_of(self.store)) == self.config && (self.instance matches Some(
            handle,
        ) ==> instance_fits(handle, self.store))
    }

    /// What the hosted instance exports; nothing without an instance.
    pub closed spec fn hosted(&self) -> Option<Seq<ExportView>> {
        match self.instance {
            Some(_) => Some(exports_view(self.exports@)),
            None => None,
        }
    }

    /// The engine the context runs on; no other context runs on it.
    pub closed spec fn engine(&self) -> wasmi::Engine {
        engine_of(self.store)
    }

    /// Whether the context hosts `instance`: the instance was made in this
    /// context, and the context still hosts what the instance exports.
    pub open spec fn hosts(&self, instance: &ModuleInstance) -> bool {
        instance.home() == self.engine() && self.hosted() == Some(instance@)
    }

    /// The configuration of the context's engine.
    pub closed spec fn config_of(&self) -> EngineConfig {
        self.config
    }

    /// The fuel that is left.
    pub closed spec fn fuel(&self) -> u64 {
        self.meter@
    }

    /// The host state.
    pub closed spec fn state(&self) -> ModuleState {
        self.state
    }

    /// Whether the context hosts an instance.
    pub open spec fn live(&self) -> bool {
        self.hosted() is Some
    }

    /// The bytes of the memory that the hosted instance exports as
    /// `MEMORY_EXPORT`; nothing without an instance or without such an
    /// export.
    pub closed spec fn memory(&self) -> Option<Seq<u8>> {
        match self.instance {
            Some(handle) => memory_of(self.store, handle, MEMORY_EXPORT@),
            None => None,
        }
    }

    /// The configuration of the context's engine.
    pub fn config(&self) -> (config: EngineConfig)
        ensures
            config == self.config_of(),
    {
        self.config
    }

    /// The fuel that is left.
    pub fn remaining_fuel(&self) -> (left: u64)
        ensures
            left == self.fuel(),
    {
        self.meter.remaining()
    }

    /// The host state.
    pub fn host_state(&self) -> (state: &ModuleState)
        ensures
            *state == self.state(),
    {
        &self.state
    }

    /// Whether the context hosts an instance.
    pub fn is_live(&self) -> (live: bool)
        ensures
            live == self.live(),
    {
        self.instance.is_some()
    }

    /// Hands out the journal of the host state and leaves it empty.
    pub fn take_events(&mut self) -> (events: Vec<HostEvent>)
        ensures
            events_view(events@) == old(self).state().journal(),
            final(self).state().journal() == Seq::<HostEventView>::empty(),
            final(self).state().is_initialized() == old(self).state().is_initialized(),
            final(self).state().led_on() == old(self).state().led_on(),
            final(self).fuel() == old(self).fuel(),
            final(self).hosted() == old(self).hosted(),
            final(self).config_of() == old(self).config_of(),
            final(self).wf() == old(self).wf(),
    {
        self.state.take_events()
    }

    /// Reads `length` bytes at `offset` from the memory that the hosted
    /// instance exports as `MEMORY_EXPORT`, through the same bounds check that
    /// guards the host functions.
    ///
    /// Gives exactly the addressed bytes when the whole range lies inside
    /// the memory, `OutOfBounds` when it does not, and `MemoryMissing` when
    /// there is no such memory.
    pub fn read_bytes(&self, offset: u32, length: u32) -> (bytes: Result<&[u8], HostTrap>)
        requires
            self.wf(),
        ensures
            !self.live() ==> self.memory() is None,
            match self.memory() {
                None => bytes == Err::<&[u8], HostTrap>(HostTrap::MemoryMissing),
                Some(memory) => if in_bounds(memory.len(), offset, length) {
                    bytes is Ok && bytes->Ok_0@ == memory.subrange(offset as int, offset + length)
                } else {
                    bytes == Err::<&[u8], HostTrap>(HostTrap::OutOfBounds)
                },
            },
    {
        let handle = match &self.instance {
            Some(handle) => handle,
            None => {
                return Err(HostTrap::MemoryMissing);
            },
        };
        match exported_memory(&self.store, handle, MEMORY_EXPORT) {
            Some(memory) => match read_bytes(memory, offset, length) {
                Ok(run) => Ok(run),
                Err(_) => Err(HostTrap::OutOfBounds),
            },
            None => Err(HostTrap::MemoryMissing),
        }
    }

    /// Sets the budget to `amount`, whatever was left.
    ///
    /// Refused, with the budget unchanged, exactly when the context's
    /// engine does not meter fuel.
    pub fn set_fuel(&mut self, amount: u64) -> (outcome: Result<(), MeteringDisabled>)
        ensures
            outcome is Ok <==> old(self).config_of().fuel_metering,
            final(self).fuel() == if old(self).config_of().fuel_metering {
                amount
            } else {
                old(self).fuel()
            },
            final(self).state() == old(self).state(),
            final(self).hosted() == old(self).hosted(),
            final(self).config_of() == old(self).config_of(),
            final(self).wf() == old(self).wf(),
    {
        if self.config.fuel_metering {
            self.meter.set_fuel(amount);
            Ok(())
        } else {
            Err(MeteringDisabled)
        }
    }

    /// Pays `amount` units from the budget.
    ///
    /// Gives what is left when the budget covers the amount; otherwise the
    /// budget is drained and the call reports exhaustion.
    pub fn consume(&mut self, amount: u64) -> (outcome: Result<u64, FuelExhausted>)
        ensures
            final(self).fuel() == fuel_after(old(self).fuel(), amount),
            final(self).fuel() <= old(self).fuel(),
            amount <= old(self).fuel() ==> outcome == Ok::<u64, FuelExhausted>(final(self).fuel()),
            amount > old(self).fuel() ==> outcome == Err::<u64, FuelExhausted>(FuelExhausted),
            final(self).state() == old(self).state(),
            final(self).hosted() == old(self).hosted(),
            final(self).config_of() == old(self).config_of(),
            final(self).wf() == old(self).wf(),
    {
        self.meter.consume(amount)
    }
}

/// A fresh context for an engine configured with `config`: it owns
/// `host_state`, has no fuel and hosts no instance.
pub fn new_context(config: &EngineConfig, host_state: ModuleState) -> (context: ExecutionContext)
    ensures
        context.config_of() == *config,
        context.state() == host_state,
        context.fuel() == 0,
        !context.live(),
        context.wf(),
{
    let engine = engine_for(config);
    let store = new_store(&engine, ModuleState::default());
    ExecutionContext {
        config: *config,
        state: host_state,
        meter: FuelMeter::new(0),
        store,
        instance: None,
        exports: Vec::new(),
    }
}

fn convert_types(raw: &Vec<wasmi::ValType>) -> (types: Vec<ValueType>)
    ensures
        types@ == types_named(raw@),
{
    let mut types: Vec<ValueType> = Vec::new();
    let mut index: usize = 0;
    while index < raw.len()
        invariant
            index <= raw@.len(),
            types@.len() == index,
            forall|i: int| 0 <= i < index ==> #[trigger] types@[i] == types_named(raw@)[i],
        decreases raw.len() - index,
    {
        types.push(value_type_of(&raw[index]));
        index += 1;
    }
    assert(types@ =~= types_named(raw@));
    types
}

fn convert_signature(raw: &RawSignature) -> (signature: Signature)
    ensures
        signature@ == raw.named(),
{
    Signature { params: convert_types(&raw.params), results: convert_types(&raw.results) }
}

/// What describing the imports that the validator reports gives: each
/// import with its signature, in the order reported, or the refusal of the
/// first import that is no function.
pub open spec fn described_imports(reported: Seq<ReportedImport>) -> Result<
    Seq<ImportView>,
    ParseErrorView,
>
    decreases reported.len(),
{
    if reported.len() == 0 {
        Ok(Seq::empty())
    } else {
        match reported.first().function {
            Some(signature) => match described_imports(reported.drop_first()) {
                Ok(imports) => Ok(
                    seq![
                        ImportView {
                            namespace: reported.first().namespace,
                            name: reported.first().name,
                            signature,
                        },
                    ] + imports,
                ),
                Err(error) => Err(error),
            },
            None => Err(
                ParseErrorView::UnsupportedImport(
                    reported.first().namespace,
                    reported.first().name,
                ),
            ),
        }
    }
}

fn describe_imports(compiled: &wasmi::Module) -> (outcome: Result<
    Vec<ImportDescriptor>,
    ParseError,
>)
    ensures
        match outcome {
            Ok(imports) => described_imports(import_list(*compiled)) == Ok::<
                Seq<ImportView>,
                ParseErrorView,
            >(imports_view(imports@)),
            Err(error) => described_imports(import_list(*compiled)) == Err::<
                Seq<ImportView>,
                ParseErrorView,
            >(error@),
        },
{
    let ghost reported = import_list(*compiled);
    let count = import_count(compiled);
    let mut imports: Vec<ImportDescriptor> = Vec::new();
    let mut index: usize = 0;
    proof {
        assert(reported.skip(0) =~= reported);
        if described_imports(reported) is Ok {
            assert(imports_view(imports@) + described_imports(reported)->Ok_0
                =~= described_imports(reported)->Ok_0);
        }
    }
    while index < count
        invariant
            index <= count,
            count == reported.len(),
            reported == import_list(*compiled),
            match described_imports(reported.skip(index as int)) {
                Ok(rest) => described_imports(reported) == Ok::<Seq<ImportView>, ParseErrorView>(
                    imports_view(imports@) + rest,
                ),
                Err(error) => described_imports(reported) == Err::<
                    Seq<ImportView>,
                    ParseErrorView,
                >(error),
            },
        decreases count - index,
    {
        let ghost seen = imports_view(imports@);
        proof {
            assert(reported.skip(index as int).first() == reported[index as int]);
            assert(reported.skip(index as int).drop_first() =~= reported.skip(index + 1));
        }
        match import_at(compiled, index) {
            Some(raw) => match raw.function {
                Some(function) => {
                    let import = ImportDescriptor {
                        namespace: raw.namespace,
                        name: raw.name,
                        signature: convert_signature(&function),
                    };
                    proof {
                        assert(imports_view(imports@.push(import)) =~= seen.push(import@));
                        let later = described_imports(reported.skip(index + 1));
                        if later is Ok {
                            assert(seen + (seq![import@] + later->Ok_0) =~= seen.push(import@)
                                + later->Ok_0);
                        }
                    }
                    imports.push(import);
                },
                None => {
                    return Err(ParseError::UnsupportedImport(raw.namespace, raw.name));
                },
            },
            None => {
                return Ok(imports);
            },
        }
        index += 1;
    }
    assert(reported.skip(index as int) =~= Seq::<ReportedImport>::empty());
    assert(imports_view(imports@) + Seq::<ImportView>::empty() =~= imports_view(imports@));
    Ok(imports)
}

fn describe_export(raw: RawExport) -> (export: ExportDescriptor)
    ensures
        export@ == raw.named(),
{
    let kind = match raw.kind {
        RawKind::Function(function) => ExportKind::Function(convert_signature(&function)),
        RawKind::Table => ExportKind::Table,
        RawKind::Memory => ExportKind::Memory,
        RawKind::Global => ExportKind::Global,
    };
    ExportDescriptor { name: raw.name, kind }
}

fn describe_exports(compiled: &wasmi::Module) -> (exports: Vec<ExportDescriptor>)
    ensures
        exports_view(exports@) == export_list(*compiled),
{
    let ghost reported = export_list(*compiled);
    let count = export_count(compiled);
    let mut exports: Vec<ExportDescriptor> = Vec::new();
    let mut index: usize = 0;
    while index < count
        invariant
            index <= count,
            count == reported.len(),
            reported == export_list(*compiled),
            exports@.len() == index,
            forall|i: int| 0 <= i < index ==> (#[trigger] exports@[i])@ == reported[i],
        decreases count - index,
    {
        match export_at(compiled, index) {
            Some(raw) => {
                exports.push(describe_export(raw));
            },
            None => {
                return exports;
            },
        }
        index += 1;
    }
    assert(exports_view(exports@) =~= reported);
    exports
}

/// What describing a module that the validator accepted gives, from the
/// imports and exports it reports: the module with those imports and
/// exports, the configuration and the code, or the refusal of the first
/// import that is no function.
pub open spec fn describe_outcome(
    imports: Seq<ReportedImport>,
    exports: Seq<ExportView>,
    config: EngineConfig,
    code: Seq<u8>,
) -> Result<ModuleView, ParseErrorView> {
    match described_imports(imports) {
        Ok(imports) => Ok(ModuleView { config, imports, exports, code }),
        Err(error) => Err(error),
    }
}

/// Describes a module that the validator accepted: its imports and exports
/// as the validator reports them, in the validator's order, with `config`
/// as the configuration it was built under and `code` as its code.
///
/// Refused exactly when the module imports something that is no function;
/// the error names the first such import.
pub fn describe(compiled: &wasmi::Module, config: &EngineConfig, code: &[u8]) -> (outcome: Result<
    ExecutableModule,
    ParseError,
>)
    ensures
        match outcome {
            Ok(module) => describe_outcome(
                import_list(*compiled),
                export_list(*compiled),
                *config,
                code@,
            ) == Ok::<ModuleView, ParseErrorView>(module@),
            Err(error) => describe_outcome(
                import_list(*compiled),
                export_list(*compiled),
                *config,
                code@,
            ) == Err::<ModuleView, ParseErrorView>(error@),
        },
{
    let imports = match describe_imports(compiled) {
        Ok(imports) => imports,
        Err(error) => {
            return Err(error);
        },
    };
    let exports = describe_exports(compiled);
    Ok(ExecutableModule::new(*config, imports, exports, slice_to_vec(code)))
}

/// The outcome of parsing, with the module and the error by their views.
pub open spec fn parse_view(outcome: Result<ExecutableModule, ParseError>) -> Result<
    ModuleView,
    ParseErrorView,
> {
    match outcome {
        Ok(module) => Ok(module@),
        Err(error) => Err(error@),
    }
}

/// Hands `raw_bytes` to the validator on an engine built with `config` and,
/// when it accepts them, describes the module: its imports and exports as
/// the validator reports them, and the bytes as its code.
///
/// Whether bytes are a valid module is the validator's word, `validated`.
/// Bytes it rejects are `Invalid`, with the validator's words. A module it
/// accepts is described, or refused for its first import that is no
/// function.
pub fn parse_and_validate(raw_bytes: &[u8], config: &EngineConfig) -> (outcome: Result<
    ExecutableModule,
    ParseError,
>)
    ensures
        match validated(*config, raw_bytes@) {
            Some((imports, exports)) => parse_view(outcome) == describe_outcome(
                imports,
                exports,
                *config,
                raw_bytes@,
            ),
            None => outcome matches Err(ParseError::Invalid(_)),
        },
{
    let engine = engine_for(config);
    let compiled = match compile(&engine, raw_bytes) {
        Ok(compiled) => compiled,
        Err(error) => {
            return Err(ParseError::Invalid(fault_of(&error).words()));
        },
    };
    describe(&compiled, config, raw_bytes)
}

/// Sets up a context for `module`: a fresh host state, `MODULE_FUEL` units
/// of fuel, and in `externals` the host function for each of the module's
/// imports, in declaration order, out of this runtime's own three.
///
/// Fails with `MeteringDisabled`, leaving `externals` alone, when `config`
/// does not meter fuel. Otherwise `externals` is emptied first, and stays
/// empty if an import does not link: the error is that of the first such
/// import, and nothing is linked in part.
pub fn link_externals(
    module: &ExecutableModule,
    config: &EngineConfig,
    externals: &mut Vec<HostFunction>,
) -> (outcome: Result<ExecutionContext, SetupError>)
    ensures
        !config.fuel_metering ==> (outcome matches Err(SetupError::MeteringDisabled))
            && final(externals)@ == old(externals)@,
        config.fuel_metering ==> match link_outcome(host_functions(), module@.imports) {
            Ok(functions) => outcome matches Ok(context) && final(externals)@ == functions
                && context.wf() && context.config_of() == *config && context.fuel() == MODULE_FUEL
                && !context.live() && !context.state().is_initialized()
                && !context.state().led_on() && context.state().journal() == Seq::<
                HostEventView,
            >::empty(),
            Err(error) => outcome matches Err(SetupError::Link(found)) && found@ == error
                && final(externals)@ == Seq::<HostFunction>::empty(),
        },
{
    let mut context = new_context(config, ModuleState::default());
    match context.set_fuel(MODULE_FUEL) {
        Ok(_) => {},
        Err(_) => {
            return Err(SetupError::MeteringDisabled);
        },
    }
    externals.clear();
    let registry = HostFunctionRegistry::with_host_functions();
    match registry.link(module) {
        Ok(linked) => {
            let functions = linked.functions();
            let mut index: usize = 0;
            while index < functions.len()
                invariant
                    index <= functions@.len(),
                    externals@ == functions@.take(index as int),
                decreases functions.len() - index,
            {
                externals.push(functions[index]);
                assert(functions@.take(index + 1) =~= functions@.take(index as int).push(
                    functions@[index as int],
                ));
                index += 1;
            }
            assert(functions@.take(functions.len() as int) =~= functions@);
            Ok(context)
        },
        Err(error) => Err(SetupError::Link(error)),
    }
}

/// Whether a plan answers a module's imports one for one: as many host
/// functions as imports, each with the signature its import asks for.
pub open spec fn plan_matches(imports: Seq<ImportView>, plan: Seq<HostFunction>) -> bool {
    plan.len() == imports.len() && forall|i: int|
        0 <= i < imports.len() ==> signature_of(#[trigger] plan[i]) == imports[i].signature
}

fn check_plan(imports: &Vec<ImportDescriptor>, plan: &Vec<HostFunction>) -> (fits: bool)
    ensures
        fits == plan_matches(imports_view(imports@), plan@),
{
    if plan.len() != imports.len() {
        return false;
    }
    let mut index: usize = 0;
    while index < imports.len()
        invariant
            index <= imports@.len(),
            plan@.len() == imports@.len(),
            forall|i: int|
                0 <= i < index ==> signature_of(#[trigger] plan@[i]) == imports@[i]@.signature,
        decreases imports.len() - index,
    {
        if !plan[index].signature().same(&imports[index].signature) {
            assert(signature_of(plan@[index as int]) != imports_view(
                imports@,
            )[index as int].signature);
            return false;
        }
        index += 1;
    }
    true
}

fn copy_exports(exports: &Vec<ExportDescriptor>) -> (copy: Vec<ExportDescriptor>)
    ensures
        exports_view(copy@) == exports_view(exports@),
{
    let mut copy: Vec<ExportDescriptor> = Vec::new();
    let mut index: usize = 0;
    while index < exports.len()
        invariant
            index <= exports@.len(),
            copy@.len() == index,
            forall|i: int| 0 <= i < index ==> (#[trigger] copy@[i])@ == exports@[i]@,
        decreases exports.len() - index,
    {
        copy.push(exports[index].duplicate());
        index += 1;
    }
    assert(exports_view(copy@) =~= exports_view(exports@));
    copy
}

fn host_funcs(store: &mut wasmi::Store<ModuleState>, functions: &Vec<HostFunction>) -> (funcs:
    Vec<wasmi::Func>)
    ensures
        untouched(*old(store), *final(store)),
        funcs@.len() == functions@.len(),
        forall|i: int|
            0 <= i < funcs@.len() ==> func_fits(#[trigger] funcs@[i], *old(store))
                && func_callable(funcs@[i]) == Some(functions@[i]),
{
    let mut funcs: Vec<wasmi::Func> = Vec::new();
    let mut index: usize = 0;
    while index < functions.len()
        invariant
            index <= functions@.len(),
            funcs@.len() == index,
            untouched(*old(store), *store),
            forall|i: int|
                0 <= i < funcs@.len() ==> func_fits(#[trigger] funcs@[i], *old(store))
                    && func_callable(funcs@[i]) == Some(functions@[i]),
        decreases functions.len() - index,
    {
        let func = match functions[index] {
            HostFunction::InitLed => wrap_init_led(store),
            HostFunction::SetLed => wrap_set_led(store),
            HostFunction::Log => wrap_log(store, MEMORY_EXPORT),
        };
        funcs.push(func);
        index += 1;
    }
    funcs
}

/// Hands the host state, and on an engine that meters the budget, to the
/// store for the length of a call.
fn lend(
    store: &mut wasmi::Store<ModuleState>,
    state: &mut ModuleState,
    meter: &FuelMeter,
    metering: bool,
)
    requires
        metering == engine_config(engine_of(*old(store))).fuel_metering,
    ensures
        same_store(*old(store), *final(store)),
        store_state(*final(store)) == *old(state),
        store_fuel(*final(store)) == if metering {
            Some(meter@)
        } else {
            store_fuel(*old(store))
        },
{
    if metering {
        store_set_fuel(store, meter.remaining());
    }
    swap_state(store, state);
}

/// Takes the host state back from the store after a call, and tells the fuel
/// that the store reports as left.
fn take_back(store: &mut wasmi::Store<ModuleState>, state: &mut ModuleState) -> (reported: Option<
    u64,
>)
    ensures
        same_store(*old(store), *final(store)),
        *final(state) == store_state(*old(store)),
        reported == store_fuel(*old(store)),
        reported is Some <==> engine_config(engine_of(*old(store))).fuel_metering,
{
    swap_state(store, state);
    store_get_fuel(store)
}

/// Why instantiation is refused before anything runs, if it is.
pub open spec fn refusal(
    live: bool,
    config: EngineConfig,
    module: ModuleView,
    plan: Seq<HostFunction>,
) -> Option<InstantiationError> {
    if live {
        Some(InstantiationError::ContextInUse)
    } else if module.config != config {
        Some(InstantiationError::ConfigMismatch)
    } else if !plan_matches(module.imports, plan) {
        Some(InstantiationError::PlanMismatch)
    } else {
        None
    }
}

/// Instantiates `module` in `context` with the host functions of `linked`:
/// the engine translates the module's code, evaluates the initializers and
/// runs the start routine, once, on the context's fuel.
///
/// Refused before anything runs, with the context untouched, when the
/// context already hosts an instance, when the module was built under
/// another configuration, when the plan does not fit the module's imports,
/// or when the validator does not accept the module's code. Past that the
/// engine decides. On success the context hosts the instance. On failure it
/// hosts none, and running out of fuel leaves the budget empty. Either way
/// the budget has not grown.
pub fn instantiate(
    module: &ExecutableModule,
    linked: &LinkedImports,
    context: &mut ExecutionContext,
) -> (outcome: Result<ModuleInstance, InstantiationError>)
    requires
        old(context).wf(),
    ensures
        final(context).wf(),
        final(context).config_of() == old(context).config_of(),
        final(context).fuel() <= old(context).fuel(),
        match refusal(old(context).live(), old(context).config_of(), module@, linked@) {
            Some(error) => outcome == Err::<ModuleInstance, InstantiationError>(error)
                && final(context).fuel() == old(context).fuel() && final(context).state()
                == old(context).state() && final(context).hosted() == old(context).hosted(),
            None => if validated(module@.config, module@.code) is None {
                (outcome matches Err(InstantiationError::Engine(_))) && final(context).fuel()
                    == old(context).fuel() && final(context).state() == old(context).state()
                    && final(context).hosted() == old(context).hosted()
            } else {
                match outcome {
                    Ok(instance) => final(context).hosts(&instance) && instance@
                        == module@.exports,
                    Err(error) => !final(context).live() && (error is Trap
                        || error is FuelExhausted || error is Engine) && (error is FuelExhausted
                        ==> final(context).fuel() == 0),
                }
            },
        },
{
    if context.instance.is_some() {
        return Err(InstantiationError::ContextInUse);
    }
    if !module.config().compatible(&context.config) {
        return Err(InstantiationError::ConfigMismatch);
    }
    if !check_plan(module.imports(), linked.functions()) {
        return Err(InstantiationError::PlanMismatch);
    }
    let engine = store_engine(&context.store);
    let compiled = match compile(&engine, module.code().as_slice()) {
        Ok(compiled) => compiled,
        Err(error) => {
            return Err(InstantiationError::Engine(fault_of(&error).words()));
        },
    };
    let funcs = host_funcs(&mut context.store, linked.functions());
    let metering = context.config.fuel_metering;
    lend(&mut context.store, &mut context.state, &context.meter, metering);
    let result = instantiate_module(&mut context.store, &compiled, &funcs);
    let reported = take_back(&mut context.store, &mut context.state);
    match result {
        Ok(handle) => {
            let _ = conclude(&mut context.meter, reported, None);
            let exports = copy_exports(module.exports());
            context.exports = copy_exports(module.exports());
            context.instance = Some(handle);
            Ok(ModuleInstance { exports, home: engine })
        },
        Err(error) => match conclude(&mut context.meter, reported, Some(fault_of(&error))) {
            Err(CallFailure::FuelExhausted) => Err(InstantiationError::FuelExhausted),
            Err(CallFailure::Trap(trap)) => Err(InstantiationError::Trap(trap)),
            Err(CallFailure::Engine(words)) => Err(InstantiationError::Engine(words)),
            _ => unreached(),
        },
    }
}

fn to_vals(values: &Vec<Value>) -> (vals: Vec<wasmi::Val>)
    ensures
        vals@.len() == values@.len(),
        forall|i: int| 0 <= i < vals@.len() ==> val_named(#[trigger] vals@[i]) == Some(values@[i]),
{
    let mut vals: Vec<wasmi::Val> = Vec::new();
    let mut index: usize = 0;
    while index < values.len()
        invariant
            index <= values@.len(),
            vals@.len() == index,
            forall|i: int|
                0 <= i < vals@.len() ==> val_named(#[trigger] vals@[i]) == Some(values@[i]),
        decreases values.len() - index,
    {
        vals.push(to_val(values[index]));
        index += 1;
    }
    vals
}

/// What reading the results of a call back gives: the numbers that the
/// engine's values hold, when there are as many as expected and each is a
/// number of the type expected in its place; nothing otherwise.
pub open spec fn results_named(vals: Seq<wasmi::Val>, expected: Seq<Value>) -> Option<
    Seq<Value>,
> {
    if vals.len() == expected.len() && forall|i: int|
        0 <= i < vals.len() ==> val_named(#[trigger] vals[i]) is Some && type_of(
            val_named(vals[i])->Some_0,
        ) == type_of(expected[i]) {
        Some(Seq::new(vals.len(), |i: int| val_named(vals[i])->Some_0))
    } else {
        None
    }
}

/// Reads the results of a call back, holding each to the type that is
/// expected in its place; nothing if there are more or fewer than expected
/// or one is of another type.
fn read_results(vals: &Vec<wasmi::Val>, expected: &Vec<Value>) -> (results: Option<Vec<Value>>)
    ensures
        match results {
            Some(values) => results_named(vals@, expected@) == Some(values@) && value_types(
                values@,
            ) == value_types(expected@),
            None => results_named(vals@, expected@) is None,
        },
{
    if vals.len() != expected.len() {
        return None;
    }
    let mut results: Vec<Value> = Vec::new();
    let mut index: usize = 0;
    while index < vals.len()
        invariant
            index <= vals@.len(),
            vals@.len() == expected@.len(),
            results@.len() == index,
            forall|i: int|
                0 <= i < index ==> val_named(#[trigger] vals@[i]) == Some(results@[i])
                    && type_of(results@[i]) == type_of(expected@[i]),
        decreases vals.len() - index,
    {
        match from_val(&vals[index]) {
            Some(value) => {
                if value.value_type() != expected[index].value_type() {
                    assert(type_of(val_named(vals@[index as int])->Some_0) != type_of(
                        expected@[index as int],
                    ));
                    return None;
                }
                results.push(value);
            },
            None => {
                assert(val_named(vals@[index as int]) is None);
                return None;
            },
        }
        index += 1;
    }
    assert(results@ =~= Seq::new(vals@.len(), |i: int| val_named(vals@[i])->Some_0));
    assert(value_types(results@) =~= value_types(expected@));
    Some(results)
}

fn same_exports(left: &Vec<ExportDescriptor>, right: &Vec<ExportDescriptor>) -> (same: bool)
    ensures
        same == (exports_view(left@) == exports_view(right@)),
{
    if left.len() != right.len() {
        assert(exports_view(left@).len() != exports_view(right@).len());
        return false;
    }
    let mut index: usize = 0;
    while index < left.len()
        invariant
            index <= left@.len(),
            left@.len() == right@.len(),
            forall|i: int| 0 <= i < index ==> (#[trigger] left@[i])@ == right@[i]@,
        decreases left.len() - index,
    {
        if !left[index].same(&right[index]) {
            assert(exports_view(left@)[index as int] != exports_view(right@)[index as int]);
            return false;
        }
        index += 1;
    }
    assert(exports_view(left@) =~= exports_view(right@));
    true
}

fn run_export(
    store: &mut wasmi::Store<ModuleState>,
    state: &mut ModuleState,
    meter: &mut FuelMeter,
    metering: bool,
    handle: &wasmi::Instance,
    name: &str,
    args: &Vec<Value>,
    zeros: &Vec<Value>,
) -> (outcome: Result<Vec<Value>, CallFailure>)
    requires
        instance_fits(*handle, *old(store)),
        metering == engine_config(engine_of(*old(store))).fuel_metering,
    ensures
        same_store(*old(store), *final(store)),
        final(meter)@ <= old(meter)@,
        !(outcome matches Err(CallFailure::Usage(_))),
        outcome matches Err(CallFailure::FuelExhausted) ==> final(meter)@ == 0,
        !metering && !(outcome matches Err(CallFailure::FuelExhausted)) ==> final(meter)@
            == old(meter)@,
        outcome matches Ok(results) ==> value_types(results@) == value_types(zeros@),
{
    let func = match exported_func(store, handle, name) {
        Some(func) => func,
        None => {
            return Err(CallFailure::Engine("the engine knows no such function".to_owned()));
        },
    };
    let params = to_vals(args);
    let mut buffer = to_vals(zeros);
    lend(store, state, meter, metering);
    let result = call_func(store, &func, &params, &mut buffer);
    let reported = take_back(store, state);
    let fault = match result {
        Ok(_) => None,
        Err(error) => Some(fault_of(&error)),
    };
    match conclude(meter, reported, fault) {
        Ok(_) => match read_results(&buffer, zeros) {
            Some(results) => Ok(results),
            None => Err(CallFailure::Engine("a result of another type than declared".to_owned())),
        },
        Err(failure) => Err(failure),
    }
}

/// Calls the function that `instance` exports as `export_name` with `args`,
/// in the context that hosts the instance, and gives its results.
///
/// A call that cannot work is refused before anything runs, with the
/// context untouched: the context does not host the instance, nothing is
/// exported under the name, or what is exported is no function that takes
/// these arguments and returns numbers. That is a `Usage` failure and never
/// a trap.
///
/// Past that the guest runs on the context's fuel and host state; what it
/// does to the host state is its own affair and stays for the next call.
/// The budget never grows through a call. Running out of fuel is reported
/// as `FuelExhausted`, apart from every trap, and leaves the budget empty;
/// the context stays in one piece and goes on hosting the instance, so the
/// caller may refill it and call again. Without metering the budget is left
/// alone. Results have the types that the export declares.
pub fn call(
    instance: &ModuleInstance,
    context: &mut ExecutionContext,
    export_name: &str,
    args: &Vec<Value>,
) -> (outcome: Result<Vec<Value>, CallFailure>)
    requires
        old(context).wf(),
    ensures
        final(context).wf(),
        final(context).config_of() == old(context).config_of(),
        final(context).hosted() == old(context).hosted(),
        final(context).fuel() <= old(context).fuel(),
        match usage_error(
            old(context).hosts(instance),
            instance@,
            export_name@,
            value_types(args@),
        ) {
            Some(error) => (outcome matches Err(CallFailure::Usage(found)) && found@ == error)
                && final(context).fuel() == old(context).fuel() && final(context).state()
                    == old(context).state(),
            None => !(outcome matches Err(CallFailure::Usage(_))) && (outcome matches Err(
                CallFailure::FuelExhausted,
            ) ==> final(context).fuel() == 0) && (!old(context).config_of().fuel_metering && !(
            outcome matches Err(CallFailure::FuelExhausted)) ==> final(context).fuel()
                == old(context).fuel()) && (outcome matches Ok(results) ==> export_lookup(
                instance@,
                export_name@,
                value_types(args@),
            ) == Ok::<Seq<ValueType>, CallErrorView>(value_types(results@))),
        },
{
    let handle = match context.instance {
        Some(handle) => handle,
        None => {
            return Err(CallFailure::Usage(CallError::NotInstantiated));
        },
    };
    let engine = store_engine(&context.store);
    if !same_engine(&instance.home, &engine) {
        return Err(CallFailure::Usage(CallError::NotInstantiated));
    }
    if !same_exports(&context.exports, &instance.exports) {
        return Err(CallFailure::Usage(CallError::NotInstantiated));
    }
    let zeros = match find_export(&context.exports, export_name, args) {
        Ok(zeros) => zeros,
        Err(error) => {
            return Err(CallFailure::Usage(error));
        },
    };
    let metering = context.config.fuel_metering;
    run_export(
        &mut context.store,
        &mut context.state,
        &mut context.meter,
        metering,
        &handle,
        export_name,
        args,
        &zeros,
    )
}

} // verus!
