//! A validated module as the runtime sees it: what it imports, what it
//! exports, and its code.

use vstd::prelude::*;
use crate::config::EngineConfig;

verus! {

/// The type of a value that crosses the boundary between host and guest.
#[derive(Debug, Clone, Copy, PartialEq, Eq, Structural)]
pub enum ValueType {
    I32,
    I64,
    F32,
    F64,
    V128,
    FuncRef,
    ExternRef,
}

/// A number that crosses the boundary between host and guest. A float
/// travels as its bits.
#[derive(Debug, Clone, Copy, PartialEq, Eq, Structural)]
pub enum Value {
    I32(i32),
    I64(i64),
    F32(u32),
    F64(u64),
}

/// The type of a value.
pub open spec fn type_of(value: Value) -> ValueType {
    match value {
        Value::I32(_) => ValueType::I32,
        Value::I64(_) => ValueType::I64,
        Value::F32(_) => ValueType::F32,
        Value::F64(_) => ValueType::F64,
    }
}

/// The types of a run of values.
pub open spec fn value_types(values: Seq<Value>) -> Seq<ValueType> {
    Seq::new(values.len(), |i: int| type_of(values[i]))
}

/// Whether a type is a type of numbers.
pub open spec fn is_numeric(ty: ValueType) -> bool {
    ty == ValueType::I32 || ty == ValueType::I64 || ty == ValueType::F32 || ty == ValueType::F64
}

impl Value {
    /// The type of this value.
    pub fn value_type(&self) -> (ty: ValueType)
        ensures
            ty == type_of(*self),
    {
        match self {
            Value::I32(_) => ValueType::I32,
            Value::I64(_) => ValueType::I64,
            Value::F32(_) => ValueType::F32,
            Value::F64(_) => ValueType::F64,
        }
    }

    /// The zero of a type of numbers; nothing for any other type.
    pub fn zero(ty: ValueType) -> (value: Option<Value>)
        ensures
            value is Some <==> is_numeric(ty),
            value matches Some(zero) ==> type_of(zero) == ty,
    {
        match ty {
            ValueType::I32 => Some(Value::I32(0)),
            ValueType::I64 => Some(Value::I64(0)),
            ValueType::F32 => Some(Value::F32(0)),
            ValueType::F64 => Some(Value::F64(0)),
            _ => None,
        }
    }
}

/// The parameter and result types of a function.
#[derive(Debug, Clone, PartialEq, Eq)]
pub struct Signature {
    pub params: Vec<ValueType>,
    pub results: Vec<ValueType>,
}

pub struct SignatureView {
    pub params: Seq<ValueType>,
    pub results: Seq<ValueType>,
}

impl View for Signature {
    type V = SignatureView;

    open spec fn view(&self) -> SignatureView {
        SignatureView { params: self.params@, results: self.results@ }
    }
}

fn same_types(left: &Vec<ValueType>, right: &Vec<ValueType>) -> (same: bool)
    ensures
        same == (left@ == right@),
{
    if left.len() != right.len() {
        return false;
    }
    let mut index: usize = 0;
    while index < left.len()
        invariant
            left.len() == right.len(),
            index <= left.len(),
            forall|k: int| 0 <= k < index ==> left@[k] == right@[k],
        decreases left.len() - index,
    {
        if left[index] != right[index] {
            return false;
        }
        index += 1;
    }
    assert(left@ =~= right@);
    true
}

fn copy_types(types: &Vec<ValueType>) -> (copy: Vec<ValueType>)
    ensures
        copy@ == types@,
{
    let mut copy: Vec<ValueType> = Vec::new();
    let mut index: usize = 0;
    while index < types.len()
        invariant
            index <= types.len(),
            copy@ == types@.take(index as int),
        decreases types.len() - index,
    {
        copy.push(types[index]);
        assert(types@.take(index + 1) =~= types@.take(index as int).push(types@[index as int]));
        index += 1;
    }
    assert(types@.take(types.len() as int) =~= types@);
    copy
}

impl Signature {
    /// Whether two signatures agree in arity and in every parameter and
    /// result type.
    pub fn same(&self, other: &Signature) -> (same: bool)
        ensures
            same == (self@ == other@),
    {
        same_types(&self.params, &other.params) && same_types(&self.results, &other.results)
    }

    /// A signature with the same types.
    pub fn duplicate(&self) -> (copy: Signature)
        ensures
            copy@ == self@,
    {
        Signature { params: copy_types(&self.params), results: copy_types(&self.results) }
    }
}

/// A function that a module requires from its host.
#[derive(Debug, Clone, PartialEq, Eq)]
pub struct ImportDescriptor {
    pub namespace: String,
    pub name: String,
    pub signature: Signature,
}

pub struct ImportView {
    pub namespace: Seq<char>,
    pub name: Seq<char>,
    pub signature: SignatureView,
}

impl View for ImportDescriptor {
    type V = ImportView;

    open spec fn view(&self) -> ImportView {
        ImportView { namespace: self.namespace@, name: self.name@, signature: self.signature@ }
    }
}

/// What an export is; a function comes with its signature.
#[derive(Debug, Clone, PartialEq, Eq)]
pub enum ExportKind {
    Function(Signature),
    Table,
    Memory,
    Global,
}

pub enum ExportKindView {
    Function(SignatureView),
    Table,
    Memory,
    Global,
}

impl View for ExportKind {
    type V = ExportKindView;

    open spec fn view(&self) -> ExportKindView {
        match self {
            ExportKind::Function(signature) => ExportKindView::Function(signature@),
            ExportKind::Table => ExportKindView::Table,
            ExportKind::Memory => ExportKindView::Memory,
            ExportKind::Global => ExportKindView::Global,
        }
    }
}

/// Something a module offers to its host under a name.
#[derive(Debug, Clone, PartialEq, Eq)]
pub struct ExportDescriptor {
    pub name: String,
    pub kind: ExportKind,
}

pub struct ExportView {
    pub name: Seq<char>,
    pub kind: ExportKindView,
}

impl View for ExportDescriptor {
    type V = ExportView;

    open spec fn view(&self) -> ExportView {
        ExportView { name: self.name@, kind: self.kind@ }
    }
}

impl ExportDescriptor {
    /// Whether two exports agree in name and kind, a function also in its
    /// signature.
    pub fn same(&self, other: &ExportDescriptor) -> (same: bool)
        ensures
            same == (self@ == other@),
    {
        if self.name != other.name {
            return false;
        }
        match (&self.kind, &other.kind) {
            (ExportKind::Function(left), ExportKind::Function(right)) => left.same(right),
            (ExportKind::Table, ExportKind::Table) => true,
            (ExportKind::Memory, ExportKind::Memory) => true,
            (ExportKind::Global, ExportKind::Global) => true,
            _ => false,
        }
    }

    /// An export with the same name and kind.
    pub fn duplicate(&self) -> (copy: ExportDescriptor)
        ensures
            copy@ == self@,
    {
        let kind = match &self.kind {
            ExportKind::Function(signature) => ExportKind::Function(signature.duplicate()),
            ExportKind::Table => ExportKind::Table,
            ExportKind::Memory => ExportKind::Memory,
            ExportKind::Global => ExportKind::Global,
        };
        ExportDescriptor { name: self.name.clone(), kind }
    }
}

/// The views of a list of imports, in declaration order.
pub open spec fn imports_view(imports: Seq<ImportDescriptor>) -> Seq<ImportView> {
    imports.map_values(|import: ImportDescriptor| import@)
}

/// The views of a list of exports, in the order of the list.
pub open spec fn exports_view(exports: Seq<ExportDescriptor>) -> Seq<ExportView> {
    exports.map_values(|export: ExportDescriptor| export@)
}

/// One validated program. Nothing in it changes after it is made, so it can
/// be instantiated any number of times.
#[derive(Debug, Clone, PartialEq, Eq)]
pub struct ExecutableModule {
    config: EngineConfig,
    imports: Vec<ImportDescriptor>,
    exports: Vec<ExportDescriptor>,
    code: Vec<u8>,
}

pub struct ModuleView {
    /// The configuration the module was validated under.
    pub config: EngineConfig,
    pub imports: Seq<ImportView>,
    pub exports: Seq<ExportView>,
    /// The program, as the bytes that the validator accepted. No engine at
    /// hand takes a translated program, so the engine translates these bytes
    /// again when the module is instantiated.
    pub code: Seq<u8>,
}

impl View for ExecutableModule {
    type V = ModuleView;

    closed spec fn view(&self) -> ModuleView {
        ModuleView {
            config: self.config,
            imports: imports_view(self.imports@),
            exports: exports_view(self.exports@),
            code: self.code@,
        }
    }
}

impl ExecutableModule {
    /// Puts a module together from its parts.
    pub fn new(
        config: EngineConfig,
        imports: Vec<ImportDescriptor>,
        exports: Vec<ExportDescriptor>,
        code: Vec<u8>,
    ) -> (module: ExecutableModule)
        ensures
            module@ == (ModuleView {
                config,
                imports: imports_view(imports@),
                exports: exports_view(exports@),
                code: code@,
            }),
    {
        ExecutableModule { config, imports, exports, code }
    }

    /// The configuration the module was validated under.
    pub fn config(&self) -> (config: EngineConfig)
        ensures
            config == self@.config,
    {
        self.config
    }

    /// The imports, in declaration order.
    pub fn imports(&self) -> (imports: &Vec<ImportDescriptor>)
        ensures
            imports_view(imports@) == self@.imports,
    {
        &self.imports
    }

    /// The exports, in the order of their descriptors: for a module that
    /// the validator described, the order in which the engine walks them.
    pub fn exports(&self) -> (exports: &Vec<ExportDescriptor>)
        ensures
            exports_view(exports@) == self@.exports,
    {
        &self.exports
    }

    /// The program, as the bytes that the validator accepted.
    pub fn code(&self) -> (code: &Vec<u8>)
        ensures
            code@ == self@.code,
    {
        &self.code
    }
}

} // verus!
