//! The host function registry: which host function answers to which import,
//! and the linking of a module's imports against it.

use vstd::prelude::*;
use crate::engine::{
    define_init_led, define_log, define_set_led, linker_defs, linker_shadows,
};
use crate::state::{MEMORY_EXPORT, ModuleState};
use crate::module::{
    ExecutableModule, ImportDescriptor, ImportView, Signature, SignatureView, ValueType,
    imports_view,
};

verus! {

/// The host functions that a guest of this runtime may import.
#[derive(Debug, Clone, Copy, PartialEq, Eq, Structural)]
pub enum HostFunction {
    /// Initialises the LED.
    InitLed,
    /// Switches the LED.
    SetLed,
    /// Logs a text from the guest's memory.
    Log,
}

/// The signature a host function really has.
pub open spec fn signature_of(callable: HostFunction) -> SignatureView {
    match callable {
        HostFunction::InitLed => SignatureView { params: seq![], results: seq![] },
        HostFunction::SetLed => SignatureView { params: seq![ValueType::I32], results: seq![] },
        HostFunction::Log => SignatureView {
            params: seq![ValueType::I32, ValueType::I32],
            results: seq![],
        },
    }
}

impl HostFunction {
    /// The signature this host function really has.
    pub fn signature(&self) -> (signature: Signature)
        ensures
            signature@ == signature_of(*self),
    {
        let mut params: Vec<ValueType> = Vec::new();
        match self {
            HostFunction::InitLed => {},
            HostFunction::SetLed => {
                params.push(ValueType::I32);
            },
            HostFunction::Log => {
                params.push(ValueType::I32);
                params.push(ValueType::I32);
            },
        }
        let signature = Signature { params, results: Vec::new() };
        assert(signature@.params =~= signature_of(*self).params);
        assert(signature@.results =~= signature_of(*self).results);
        signature
    }
}

/// One registration: a host function under the name a guest imports it by.
#[derive(Debug, Clone)]
pub struct HostFunctionBinding {
    pub namespace: String,
    pub name: String,
    pub signature: Signature,
    pub callable: HostFunction,
}

/// The pair of names an import is looked up by.
pub type ImportKey = (Seq<char>, Seq<char>);

/// What a registry holds under a key.
pub type Registered = (SignatureView, HostFunction);

/// The key of an import.
pub open spec fn import_key(import: ImportView) -> ImportKey {
    (import.namespace, import.name)
}

/// Why a registration was refused.
#[derive(Debug, Clone, PartialEq, Eq)]
pub enum RegisterError {
    /// This key, a namespace and a name, is taken.
    Duplicate(String, String),
    /// The signature given is not the one the host function has.
    WrongSignature,
}

pub enum RegisterErrorView {
    Duplicate(Seq<char>, Seq<char>),
    WrongSignature,
}

impl View for RegisterError {
    type V = RegisterErrorView;

    open spec fn view(&self) -> RegisterErrorView {
        match self {
            RegisterError::Duplicate(namespace, name) => RegisterErrorView::Duplicate(
                namespace@,
                name@,
            ),
            RegisterError::WrongSignature => RegisterErrorView::WrongSignature,
        }
    }
}

/// The refusal of a key as taken.
pub open spec fn taken(key: ImportKey) -> RegisterErrorView {
    RegisterErrorView::Duplicate(key.0, key.1)
}

/// Why linking failed. Each error names the import at fault.
#[derive(Debug, Clone, PartialEq, Eq)]
pub enum LinkError {
    /// Nothing is registered under the import's namespace and name.
    MissingImport(String, String),
    /// The import asks for another signature than the host function has.
    SignatureMismatch(String, String),
}

pub enum LinkErrorView {
    MissingImport(Seq<char>, Seq<char>),
    SignatureMismatch(Seq<char>, Seq<char>),
}

impl View for LinkError {
    type V = LinkErrorView;

    open spec fn view(&self) -> LinkErrorView {
        match self {
            LinkError::MissingImport(namespace, name) => LinkErrorView::MissingImport(
                namespace@,
                name@,
            ),
            LinkError::SignatureMismatch(namespace, name) => LinkErrorView::SignatureMismatch(
                namespace@,
                name@,
            ),
        }
    }
}

/// The host function for each import of a module, in declaration order.
#[derive(Debug, Clone)]
pub struct LinkedImports {
    functions: Vec<HostFunction>,
}

impl View for LinkedImports {
    type V = Seq<HostFunction>;

    closed spec fn view(&self) -> Seq<HostFunction> {
        self.functions@
    }
}

impl LinkedImports {
    /// The host functions, one for each import, in declaration order.
    pub fn functions(&self) -> (functions: &Vec<HostFunction>)
        ensures
            functions@ == self@,
    {
        &self.functions
    }
}

/// What one import resolves to.
pub open spec fn resolve(registry: Map<ImportKey, Registered>, import: ImportView) -> Result<
    HostFunction,
    LinkErrorView,
> {
    if !registry.contains_key(import_key(import)) {
        Err(LinkErrorView::MissingImport(import.namespace, import.name))
    } else if registry[import_key(import)].0 != import.signature {
        Err(LinkErrorView::SignatureMismatch(import.namespace, import.name))
    } else {
        Ok(registry[import_key(import)].1)
    }
}

/// What linking gives: every import resolved, in declaration order, or the
/// error of the first import that does not resolve.
pub open spec fn link_outcome(registry: Map<ImportKey, Registered>, imports: Seq<ImportView>)
    -> Result<Seq<HostFunction>, LinkErrorView>
    decreases imports.len(),
{
    if imports.len() == 0 {
        Ok(Seq::empty())
    } else {
        match resolve(registry, imports.first()) {
            Ok(function) => match link_outcome(registry, imports.drop_first()) {
                Ok(functions) => Ok(seq![function] + functions),
                Err(error) => Err(error),
            },
            Err(error) => Err(error),
        }
    }
}

/// The outcome of linking, by views.
pub open spec fn link_view(outcome: Result<LinkedImports, LinkError>) -> Result<
    Seq<HostFunction>,
    LinkErrorView,
> {
    match outcome {
        Ok(linked) => Ok(linked@),
        Err(error) => Err(error@),
    }
}

/// Whether an import finds its host function, with the signature it asks for.
pub open spec fn registered(registry: Map<ImportKey, Registered>, import: ImportView) -> bool {
    registry.contains_key(import_key(import)) && registry[import_key(import)].0
        == import.signature
}

/// When every import resolves, linking gives the resolved functions.
pub proof fn lemma_link_all(registry: Map<ImportKey, Registered>, imports: Seq<ImportView>)
    requires
        forall|i: int| 0 <= i < imports.len() ==> resolve(registry, #[trigger] imports[i]) is Ok,
    ensures
        link_outcome(registry, imports) == Ok::<Seq<HostFunction>, LinkErrorView>(
            Seq::new(imports.len(), |i: int| resolve(registry, imports[i])->Ok_0),
        ),
    decreases imports.len(),
{
    if imports.len() == 0 {
        assert(Seq::new(imports.len(), |i: int| resolve(registry, imports[i])->Ok_0)
            =~= Seq::<HostFunction>::empty());
    } else {
        let tail = imports.drop_first();
        assert forall|i: int| 0 <= i < tail.len() implies resolve(registry, #[trigger] tail[i])
            is Ok by {
            assert(tail[i] == imports[i + 1]);
        }
        lemma_link_all(registry, tail);
        assert(resolve(registry, imports[0]) is Ok);
        assert(seq![resolve(registry, imports[0])->Ok_0] + Seq::new(
            tail.len(),
            |i: int| resolve(registry, tail[i])->Ok_0,
        ) =~= Seq::new(imports.len(), |i: int| resolve(registry, imports[i])->Ok_0));
    }
}

/// Linking fails with the error of the first import that does not resolve.
pub proof fn lemma_link_first_failure(
    registry: Map<ImportKey, Registered>,
    imports: Seq<ImportView>,
    at: int,
)
    requires
        0 <= at < imports.len(),
        resolve(registry, imports[at]) is Err,
        forall|i: int| 0 <= i < at ==> resolve(registry, #[trigger] imports[i]) is Ok,
    ensures
        link_outcome(registry, imports) == Err::<Seq<HostFunction>, LinkErrorView>(
            resolve(registry, imports[at])->Err_0,
        ),
    decreases at,
{
    if at > 0 {
        let tail = imports.drop_first();
        assert(resolve(registry, imports[0]) is Ok);
        assert(tail[at - 1] == imports[at]);
        assert forall|i: int| 0 <= i < at - 1 implies resolve(registry, #[trigger] tail[i])
            is Ok by {
            assert(tail[i] == imports[i + 1]);
        }
        lemma_link_first_failure(registry, tail, at - 1);
    }
}

/// Link completeness: a module all of whose imports are registered under
/// their names with their signatures links, and each import gets the host
/// function registered for it.
pub proof fn lemma_link_complete(registry: Map<ImportKey, Registered>, imports: Seq<ImportView>)
    requires
        forall|i: int| 0 <= i < imports.len() ==> registered(registry, #[trigger] imports[i]),
    ensures
        link_outcome(registry, imports) == Ok::<Seq<HostFunction>, LinkErrorView>(
            Seq::new(imports.len(), |i: int| registry[import_key(imports[i])].1),
        ),
{
    assert forall|i: int| 0 <= i < imports.len() implies resolve(registry, #[trigger] imports[i])
        is Ok by {
        assert(registered(registry, imports[i]));
    }
    lemma_link_all(registry, imports);
    assert(Seq::new(imports.len(), |i: int| resolve(registry, imports[i])->Ok_0) =~= Seq::new(
        imports.len(),
        |i: int| registry[import_key(imports[i])].1,
    )) by {
        assert forall|i: int| 0 <= i < imports.len() implies resolve(registry, imports[i])->Ok_0
            == registry[import_key(imports[i])].1 by {
            assert(registered(registry, imports[i]));
        }
    }
}

proof fn lemma_link_without(
    registry: Map<ImportKey, Registered>,
    imports: Seq<ImportView>,
    key: ImportKey,
    at: int,
)
    requires
        forall|i: int| 0 <= i < imports.len() ==> registered(registry, #[trigger] imports[i]),
        0 <= at < imports.len(),
        import_key(imports[at]) == key,
    ensures
        link_outcome(registry.remove(key), imports) == Err::<Seq<HostFunction>, LinkErrorView>(
            LinkErrorView::MissingImport(key.0, key.1),
        ),
    decreases imports.len(),
{
    let rest = registry.remove(key);
    assert(registered(registry, imports[0]));
    if import_key(imports[0]) != key {
        let tail = imports.drop_first();
        assert(tail[at - 1] == imports[at]);
        assert forall|i: int| 0 <= i < tail.len() implies registered(
            registry,
            #[trigger] tail[i],
        ) by {
            assert(tail[i] == imports[i + 1]);
        }
        lemma_link_without(registry, tail, key, at - 1);
        assert(resolve(rest, imports.first()) is Ok);
    }
}

/// Every registration a module needs is needed: take the registration of any
/// one of its imports away and linking fails with `MissingImport`, naming
/// exactly that import.
pub proof fn lemma_link_needs_every_binding(
    registry: Map<ImportKey, Registered>,
    imports: Seq<ImportView>,
    at: int,
)
    requires
        forall|i: int| 0 <= i < imports.len() ==> registered(registry, #[trigger] imports[i]),
        0 <= at < imports.len(),
    ensures
        link_outcome(registry.remove(import_key(imports[at])), imports) == Err::<
            Seq<HostFunction>,
            LinkErrorView,
        >(LinkErrorView::MissingImport(imports[at].namespace, imports[at].name)),
{
    lemma_link_without(registry, imports, import_key(imports[at]), at);
}

/// The bindings of a list of registrations; a later one would replace an
/// earlier one under the same key.
pub closed spec fn bindings_map(bindings: Seq<HostFunctionBinding>) -> Map<ImportKey, Registered>
    decreases bindings.len(),
{
    if bindings.len() == 0 {
        Map::empty()
    } else {
        bindings_map(bindings.drop_last()).insert(
            (bindings.last().namespace@, bindings.last().name@),
            (bindings.last().signature@, bindings.last().callable),
        )
    }
}

/// The mapping from import keys to host functions. Keys are unique.
#[derive(Debug, Clone)]
pub struct HostFunctionRegistry {
    bindings: Vec<HostFunctionBinding>,
}

impl View for HostFunctionRegistry {
    type V = Map<ImportKey, Registered>;

    closed spec fn view(&self) -> Map<ImportKey, Registered> {
        bindings_map(self.bindings@)
    }
}

impl HostFunctionRegistry {
    /// A registry with no registration.
    pub fn new() -> (registry: HostFunctionRegistry)
        ensures
            registry@ == Map::<ImportKey, Registered>::empty(),
    {
        HostFunctionRegistry { bindings: Vec::new() }
    }

    fn find(&self, namespace: &String, name: &String) -> (found: Option<usize>)
        ensures
            match found {
                Some(index) => index < self.bindings@.len() && self@.contains_key(
                    (namespace@, name@),
                ) && self@[(namespace@, name@)] == (
                    self.bindings@[index as int].signature@,
                    self.bindings@[index as int].callable,
                ),
                None => !self@.contains_key((namespace@, name@)),
            },
    {
        let ghost key = (namespace@, name@);
        let ghost whole = bindings_map(self.bindings@);
        let mut index: usize = self.bindings.len();
        assert(self.bindings@.take(index as int) =~= self.bindings@);
        while index > 0
            invariant
                index <= self.bindings@.len(),
                key == (namespace@, name@),
                whole == bindings_map(self.bindings@),
                whole.contains_key(key) == bindings_map(
                    self.bindings@.take(index as int),
                ).contains_key(key),
                whole.contains_key(key) ==> whole[key] == bindings_map(
                    self.bindings@.take(index as int),
                )[key],
            decreases index,
        {
            index -= 1;
            let binding = &self.bindings[index];
            proof {
                let upto = self.bindings@.take(index + 1);
                assert(upto.drop_last() =~= self.bindings@.take(index as int));
                assert(upto.last() == self.bindings@[index as int]);
            }
            if binding.namespace == *namespace && binding.name == *name {
                return Some(index);
            }
        }
        None
    }

    /// Registers `callable` under `namespace` and `name`.
    ///
    /// Refused, with the registry unchanged, when the key is taken
    /// (`Duplicate`) or, the key being free, when `signature` is not the one
    /// `callable` has (`WrongSignature`).
    pub fn register(
        &mut self,
        namespace: String,
        name: String,
        signature: Signature,
        callable: HostFunction,
    ) -> (outcome: Result<(), RegisterError>)
        ensures
            match outcome {
                Ok(_) => !old(self)@.contains_key((namespace@, name@)) && signature@
                    == signature_of(callable) && final(self)@ == old(self)@.insert(
                    (namespace@, name@),
                    (signature@, callable),
                ),
                Err(error) => final(self)@ == old(self)@ && error@
                    == (if old(self)@.contains_key((namespace@, name@)) {
                    taken((namespace@, name@))
                } else {
                    RegisterErrorView::WrongSignature
                }) && (error is WrongSignature ==> signature@ != signature_of(callable)),
            },
    {
        if self.find(&namespace, &name).is_some() {
            return Err(RegisterError::Duplicate(namespace, name));
        }
        if !signature.same(&callable.signature()) {
            return Err(RegisterError::WrongSignature);
        }
        let ghost before = self.bindings@;
        let binding = HostFunctionBinding { namespace, name, signature, callable };
        self.bindings.push(binding);
        assert(self.bindings@.drop_last() =~= before);
        Ok(())
    }

    /// Whether something is registered under `namespace` and `name`.
    pub fn contains(&self, namespace: &String, name: &String) -> (found: bool)
        ensures
            found == self@.contains_key((namespace@, name@)),
    {
        self.find(namespace, name).is_some()
    }

    fn resolve_import(&self, import: &ImportDescriptor) -> (outcome: Result<
        HostFunction,
        LinkError,
    >)
        ensures
            match outcome {
                Ok(function) => resolve(self@, import@) == Ok::<HostFunction, LinkErrorView>(
                    function,
                ),
                Err(error) => resolve(self@, import@) == Err::<HostFunction, LinkErrorView>(
                    error@,
                ),
            },
    {
        match self.find(&import.namespace, &import.name) {
            None => Err(LinkError::MissingImport(import.namespace.clone(), import.name.clone())),
            Some(index) => {
                let binding = &self.bindings[index];
                if binding.signature.same(&import.signature) {
                    Ok(binding.callable)
                } else {
                    Err(
                        LinkError::SignatureMismatch(
                            import.namespace.clone(),
                            import.name.clone(),
                        ),
                    )
                }
            },
        }
    }

    /// Resolves the imports of `module`, in declaration order.
    ///
    /// All or nothing: the result is a host function for every import, or
    /// the error of the first import that does not resolve, be it that
    /// nothing is registered under its names or that what is registered has
    /// another signature. Registrations that no import asks for play no part.
    pub fn link(&self, module: &ExecutableModule) -> (outcome: Result<LinkedImports, LinkError>)
        ensures
            link_view(outcome) == link_outcome(self@, module@.imports),
    {
        let imports = module.imports();
        let ghost views = imports_view(imports@);
        let mut functions: Vec<HostFunction> = Vec::new();
        let mut index: usize = 0;
        while index < imports.len()
            invariant
                index <= imports@.len(),
                views == imports_view(imports@),
                views == module@.imports,
                functions@.len() == index,
                forall|i: int|
                    0 <= i < index ==> resolve(self@, #[trigger] views[i]) == Ok::<
                        HostFunction,
                        LinkErrorView,
                    >(functions@[i]),
            decreases imports.len() - index,
        {
            match self.resolve_import(&imports[index]) {
                Ok(function) => {
                    functions.push(function);
                },
                Err(error) => {
                    proof {
                        assert(views[index as int] == imports@[index as int]@);
                        lemma_link_first_failure(self@, views, index as int);
                    }
                    return Err(error);
                },
            }
            index += 1;
        }
        proof {
            lemma_link_all(self@, views);
            assert(functions@ =~= Seq::new(views.len(), |i: int| resolve(self@, views[i])->Ok_0));
        }
        Ok(LinkedImports { functions })
    }
}

impl LinkedImports {
    /// A plan made by hand: `functions[i]` answers the module's import `i`.
    pub fn new(functions: Vec<HostFunction>) -> (linked: LinkedImports)
        ensures
            linked@ == functions@,
    {
        LinkedImports { functions }
    }
}

/// The key `env.init_led` is registered under.
pub open spec fn init_led_key() -> ImportKey {
    ("env"@, "init_led"@)
}

/// The key `env.set_led` is registered under.
pub open spec fn set_led_key() -> ImportKey {
    ("env"@, "set_led"@)
}

/// The key `logging.log` is registered under.
pub open spec fn log_key() -> ImportKey {
    ("logging"@, "log"@)
}

/// The registry of this runtime's own host functions.
pub open spec fn host_functions() -> Map<ImportKey, Registered> {
    Map::<ImportKey, Registered>::empty().insert(
        init_led_key(),
        (signature_of(HostFunction::InitLed), HostFunction::InitLed),
    ).insert(set_led_key(), (signature_of(HostFunction::SetLed), HostFunction::SetLed)).insert(
        log_key(),
        (signature_of(HostFunction::Log), HostFunction::Log),
    )
}

/// The three keys are three different keys.
pub proof fn lemma_keys_differ()
    ensures
        init_led_key() != set_led_key(),
        init_led_key() != log_key(),
        set_led_key() != log_key(),
{
    reveal_strlit("env");
    reveal_strlit("logging");
    reveal_strlit("init_led");
    reveal_strlit("set_led");
    assert("init_led"@.len() != "set_led"@.len());
    assert("env"@.len() != "logging"@.len());
}

impl HostFunctionRegistry {
    /// The registry of this runtime's own three host functions.
    pub fn with_host_functions() -> (registry: HostFunctionRegistry)
        ensures
            registry@ == host_functions(),
    {
        proof {
            lemma_keys_differ();
        }
        let mut registry = HostFunctionRegistry::new();
        let first = HostFunction::InitLed;
        let _ = registry.register("env".to_owned(), "init_led".to_owned(), first.signature(),
            first);
        let second = HostFunction::SetLed;
        let _ = registry.register("env".to_owned(), "set_led".to_owned(), second.signature(),
            second);
        let third = HostFunction::Log;
        let _ = registry.register("logging".to_owned(), "log".to_owned(), third.signature(), third);
        registry
    }
}

/// Whether a linker with these definitions refuses a definition under
/// `key`: the key is taken, and the linker does not let definitions shadow
/// each other.
pub open spec fn refuses(defs: Map<ImportKey, HostFunction>, shadows: bool, key: ImportKey)
    -> bool {
    defs.contains_key(key) && !shadows
}

/// Defines the host function that initialises the LED as `env.init_led` in
/// `linker`.
///
/// Refused, naming the key and leaving the linker unchanged, exactly when
/// the linker holds that key and does not let definitions shadow each
/// other. Otherwise the definition stands under the key afterwards.
pub fn link_output_init(linker: &mut wasmi::Linker<ModuleState>) -> (outcome: Result<
    (),
    RegisterError,
>)
    ensures
        linker_shadows(*final(linker)) == linker_shadows(*old(linker)),
        if refuses(linker_defs(*old(linker)), linker_shadows(*old(linker)), init_led_key()) {
            (outcome matches Err(error) && error@ == taken(init_led_key())) && linker_defs(
                *final(linker),
            ) == linker_defs(*old(linker))
        } else {
            outcome is Ok && linker_defs(*final(linker)) == linker_defs(*old(linker)).insert(
                init_led_key(),
                HostFunction::InitLed,
            )
        },
{
    if define_init_led(linker, "env", "init_led") {
        Ok(())
    } else {
        Err(RegisterError::Duplicate("env".to_owned(), "init_led".to_owned()))
    }
}

/// Defines the host function that switches the LED as `env.set_led` in
/// `linker`.
///
/// Refused, naming the key and leaving the linker unchanged, exactly when
/// the linker holds that key and does not let definitions shadow each
/// other. Otherwise the definition stands under the key afterwards.
pub fn link_set_led(linker: &mut wasmi::Linker<ModuleState>) -> (outcome: Result<
    (),
    RegisterError,
>)
    ensures
        linker_shadows(*final(linker)) == linker_shadows(*old(linker)),
        if refuses(linker_defs(*old(linker)), linker_shadows(*old(linker)), set_led_key()) {
            (outcome matches Err(error) && error@ == taken(set_led_key())) && linker_defs(
                *final(linker),
            ) == linker_defs(*old(linker))
        } else {
            outcome is Ok && linker_defs(*final(linker)) == linker_defs(*old(linker)).insert(
                set_led_key(),
                HostFunction::SetLed,
            )
        },
{
    if define_set_led(linker, "env", "set_led") {
        Ok(())
    } else {
        Err(RegisterError::Duplicate("env".to_owned(), "set_led".to_owned()))
    }
}

/// Defines the host function that logs as `logging.log` in `linker`; it
/// reads the memory that its caller exports as `MEMORY_EXPORT`.
///
/// Refused, naming the key and leaving the linker unchanged, exactly when
/// the linker holds that key and does not let definitions shadow each
/// other. Otherwise the definition stands under the key afterwards.
pub fn link_logging(linker: &mut wasmi::Linker<ModuleState>) -> (outcome: Result<
    (),
    RegisterError,
>)
    ensures
        linker_shadows(*final(linker)) == linker_shadows(*old(linker)),
        if refuses(linker_defs(*old(linker)), linker_shadows(*old(linker)), log_key()) {
            (outcome matches Err(error) && error@ == taken(log_key())) && linker_defs(
                *final(linker),
            ) == linker_defs(*old(linker))
        } else {
            outcome is Ok && linker_defs(*final(linker)) == linker_defs(*old(linker)).insert(
                log_key(),
                HostFunction::Log,
            )
        },
{
    if define_log(linker, "logging", "log", MEMORY_EXPORT) {
        Ok(())
    } else {
        Err(RegisterError::Duplicate("logging".to_owned(), "log".to_owned()))
    }
}

/// What `link_host_functions` leaves in a linker, and the key it was
/// refused under, if it was: the three definitions are made in order, and
/// the first one that the linker refuses stops the work.
pub open spec fn host_functions_linked(defs: Map<ImportKey, HostFunction>, shadows: bool) -> (
    Map<ImportKey, HostFunction>,
    Option<ImportKey>,
) {
    let first = defs.insert(init_led_key(), HostFunction::InitLed);
    let second = first.insert(set_led_key(), HostFunction::SetLed);
    let third = second.insert(log_key(), HostFunction::Log);
    if refuses(defs, shadows, init_led_key()) {
        (defs, Some(init_led_key()))
    } else if refuses(defs, shadows, set_led_key()) {
        (first, Some(set_led_key()))
    } else if refuses(defs, shadows, log_key()) {
        (second, Some(log_key()))
    } else {
        (third, None)
    }
}

/// Defines this runtime's three host functions in `linker`: first
/// `env.init_led`, then `env.set_led`, then `logging.log`.
///
/// The first key that the linker refuses stops the work and is named in
/// the error; what was defined before it stays defined, what comes after
/// it is not defined. A linker refuses a key that it holds, unless it lets
/// definitions shadow each other.
pub fn link_host_functions(linker: &mut wasmi::Linker<ModuleState>) -> (outcome: Result<
    (),
    RegisterError,
>)
    ensures
        linker_shadows(*final(linker)) == linker_shadows(*old(linker)),
        linker_defs(*final(linker)) == host_functions_linked(
            linker_defs(*old(linker)),
            linker_shadows(*old(linker)),
        ).0,
        match host_functions_linked(linker_defs(*old(linker)), linker_shadows(*old(linker))).1 {
            Some(key) => outcome matches Err(error) && error@ == taken(key),
            None => outcome is Ok,
        },
{
    proof {
        lemma_keys_differ();
    }
    match link_output_init(linker) {
        Ok(_) => {},
        Err(error) => {
            return Err(error);
        },
    }
    match link_set_led(linker) {
        Ok(_) => {},
        Err(error) => {
            return Err(error);
        },
    }
    match link_logging(linker) {
        Ok(_) => {},
        Err(error) => {
            return Err(error);
        },
    }
    Ok(())
}

} // verus!
