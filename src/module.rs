//! The decoded, immutable module and its parts, each with the mathematical
//! model that the decoder's contract speaks of.
use vstd::prelude::*;
use crate::instr::Instr;
use crate::value::{ExportDesc, GlobalMut, Limit, RefType, ValType, Value};

verus! {

/// The models of the items of a sequence.
pub open spec fn models<T: View>(v: Seq<T>) -> Seq<T::V> {
    v.map_values(|t: T| t@)
}

pub proof fn lemma_models_push<T: View>(v: Seq<T>, x: T)
    ensures
        models(v.push(x)) == models(v).push(x@),
{
    assert(models(v.push(x)) =~= models(v).push(x@));
}

pub proof fn lemma_models_empty<T: View>()
    ensures
        models(Seq::<T>::empty()) == Seq::<T::V>::empty(),
{
    assert(models(Seq::<T>::empty()) =~= Seq::<T::V>::empty());
}

/// A function signature.
#[derive(Debug)]
pub struct FuncType {
    pub params: Vec<ValType>,
    pub results: Vec<ValType>,
}

pub struct FuncTypeModel {
    pub params: Seq<ValType>,
    pub results: Seq<ValType>,
}

impl View for FuncType {
    type V = FuncTypeModel;

    open spec fn view(&self) -> FuncTypeModel {
        FuncTypeModel { params: self.params@, results: self.results@ }
    }
}

/// The type of a table: its element type and size bounds.
#[derive(Debug, Clone, Copy, PartialEq, Eq, Structural)]
pub struct TableType {
    pub ref_type: RefType,
    pub limit: Limit,
}

/// The type of a global: its value type and mutability.
#[derive(Debug, Clone, Copy, PartialEq, Eq, Structural)]
pub struct GlobalType {
    pub valtype: ValType,
    pub mutability: GlobalMut,
}

/// What an import asks the host for.
#[derive(Debug, Clone, Copy, PartialEq, Eq, Structural)]
pub enum ImportKind {
    /// A function of the signature with this index.
    TypeIdx(u32),
    TableType(TableType),
    MemType(Limit),
    GlobalType(GlobalType),
}

#[derive(Debug)]
pub struct Import {
    pub module_name: String,
    pub field_name: String,
    pub kind: ImportKind,
}

pub struct ImportModel {
    pub module_name: Seq<char>,
    pub field_name: Seq<char>,
    pub kind: ImportKind,
}

impl View for Import {
    type V = ImportModel;

    open spec fn view(&self) -> ImportModel {
        ImportModel { module_name: self.module_name@, field_name: self.field_name@, kind: self.kind }
    }
}

#[derive(Debug)]
pub struct Export {
    pub name: String,
    pub desc: ExportDesc,
    pub idx: u32,
}

pub struct ExportModel {
    pub name: Seq<char>,
    pub desc: ExportDesc,
    pub idx: u32,
}

impl View for Export {
    type V = ExportModel;

    open spec fn view(&self) -> ExportModel {
        ExportModel { name: self.name@, desc: self.desc, idx: self.idx }
    }
}

/// A constant expression: the initializer of a global or the offset of a
/// segment.
#[derive(Debug, Clone, Copy, PartialEq, Eq, Structural)]
pub enum ConstExpr {
    Const(Value),
    GlobalGet(u32),
}

/// A global as the module declares it.
#[derive(Debug, Clone, Copy, PartialEq, Eq, Structural)]
pub struct GlobalDef {
    pub ty: GlobalType,
    pub init: ConstExpr,
}

impl View for TableType {
    type V = TableType;

    open spec fn view(&self) -> TableType {
        *self
    }
}

impl View for GlobalType {
    type V = GlobalType;

    open spec fn view(&self) -> GlobalType {
        *self
    }
}

impl View for ConstExpr {
    type V = ConstExpr;

    open spec fn view(&self) -> ConstExpr {
        *self
    }
}

impl View for GlobalDef {
    type V = GlobalDef;

    open spec fn view(&self) -> GlobalDef {
        *self
    }
}

/// `count` locals of one type.
#[derive(Debug, Clone, Copy, PartialEq, Eq, Structural)]
pub struct LocalGroup {
    pub count: u32,
    pub valtype: ValType,
}

impl View for LocalGroup {
    type V = LocalGroup;

    open spec fn view(&self) -> LocalGroup {
        *self
    }
}

/// A function body decoded into a flat instruction sequence (without the
/// final `end`).
#[derive(Debug)]
pub struct ParsedBody {
    pub instrs: Vec<Instr>,
}

impl ParsedBody {
    pub fn new(instrs: Vec<Instr>) -> (r: ParsedBody)
        ensures
            r.instrs@ == instrs@,
    {
        ParsedBody { instrs }
    }
}

#[derive(Debug)]
pub struct Function {
    pub signature_idx: u32,
    pub locals: Vec<LocalGroup>,
    pub parsed_body: ParsedBody,
}

pub struct FunctionModel {
    pub signature_idx: u32,
    pub locals: Seq<LocalGroup>,
    pub instrs: Seq<Instr>,
}

impl View for Function {
    type V = FunctionModel;

    open spec fn view(&self) -> FunctionModel {
        FunctionModel {
            signature_idx: self.signature_idx,
            locals: self.locals@,
            instrs: self.parsed_body.instrs@,
        }
    }
}

/// Where a data segment goes.
#[derive(Debug, Clone, Copy, PartialEq, Eq, Structural)]
pub enum DataMode {
    /// Copied into memory `memory` at `offset` during instantiation.
    Active { memory: u32, offset: ConstExpr },
    /// Copied only by an explicit `init`.
    Passive,
}

/// A data segment. Once dropped its payload is gone and `init` from it fails.
#[derive(Debug)]
pub struct Data {
    pub mode: DataMode,
    pub data: Vec<u8>,
    pub dropped: bool,
}

pub struct DataModel {
    pub mode: DataMode,
    pub data: Seq<u8>,
    pub dropped: bool,
}

impl View for Data {
    type V = DataModel;

    open spec fn view(&self) -> DataModel {
        DataModel { mode: self.mode, data: self.data@, dropped: self.dropped }
    }
}

impl Data {
    /// Prevents further use of the segment: its payload is released and later
    /// `init` calls from it fail.
    pub fn drop(&mut self)
        ensures
            final(self).mode == old(self).mode,
            final(self).data@.len() == 0,
            final(self).dropped,
    {
        self.data = Vec::new();
        self.dropped = true;
    }
}

/// Where an element segment goes.
#[derive(Debug, Clone, Copy, PartialEq, Eq, Structural)]
pub enum ElemMode {
    /// Copied into table `table` at `offset` during instantiation.
    Active { table: u32, offset: ConstExpr },
    /// Copied only by an explicit table initialization.
    Passive,
    /// Only declares the functions it names as referenceable.
    Declarative,
}

impl View for ElemMode {
    type V = ElemMode;

    open spec fn view(&self) -> ElemMode {
        *self
    }
}

/// An element segment: references to functions (`None` for a null
/// reference).
#[derive(Debug)]
pub struct Element {
    pub mode: ElemMode,
    pub ref_type: RefType,
    pub init: Vec<Option<u32>>,
    pub dropped: bool,
}

pub struct ElementModel {
    pub mode: ElemMode,
    pub ref_type: RefType,
    pub init: Seq<Option<u32>>,
    pub dropped: bool,
}

impl View for Element {
    type V = ElementModel;

    open spec fn view(&self) -> ElementModel {
        ElementModel { mode: self.mode, ref_type: self.ref_type, init: self.init@, dropped: self.dropped }
    }
}

impl Element {
    /// Prevents further use of the segment: its references are released and
    /// later table initializations from it fail.
    pub fn drop(&mut self)
        ensures
            final(self).mode == old(self).mode,
            final(self).ref_type == old(self).ref_type,
            final(self).init@.len() == 0,
            final(self).dropped,
    {
        self.init = Vec::new();
        self.dropped = true;
    }
}

/// A custom section, kept verbatim.
#[derive(Debug)]
pub struct Custom {
    pub name: String,
    pub bytes: Vec<u8>,
}

pub struct CustomModel {
    pub name: Seq<char>,
    pub bytes: Seq<u8>,
}

impl View for Custom {
    type V = CustomModel;

    open spec fn view(&self) -> CustomModel {
        CustomModel { name: self.name@, bytes: self.bytes@ }
    }
}

/// A fully decoded module.
#[derive(Debug)]
pub struct Module {
    pub customs: Vec<Custom>,
    pub types: Vec<FuncType>,
    pub imports: Vec<Import>,
    pub functions: Vec<Function>,
    pub tables: Vec<TableType>,
    pub memories: Vec<Limit>,
    pub globals: Vec<GlobalDef>,
    pub exports: Vec<Export>,
    pub start_func: Option<u32>,
    pub elems: Vec<Element>,
    pub data: Vec<Data>,
    pub data_count: Option<u32>,
}

pub struct ModuleModel {
    pub customs: Seq<CustomModel>,
    pub types: Seq<FuncTypeModel>,
    pub imports: Seq<ImportModel>,
    pub functions: Seq<FunctionModel>,
    pub tables: Seq<TableType>,
    pub memories: Seq<Limit>,
    pub globals: Seq<GlobalDef>,
    pub exports: Seq<ExportModel>,
    pub start_func: Option<u32>,
    pub elems: Seq<ElementModel>,
    pub data: Seq<DataModel>,
    pub data_count: Option<u32>,
}

impl View for Module {
    type V = ModuleModel;

    open spec fn view(&self) -> ModuleModel {
        ModuleModel {
            customs: models(self.customs@),
            types: models(self.types@),
            imports: models(self.imports@),
            functions: models(self.functions@),
            tables: self.tables@,
            memories: self.memories@,
            globals: self.globals@,
            exports: models(self.exports@),
            start_func: self.start_func,
            elems: models(self.elems@),
            data: models(self.data@),
            data_count: self.data_count,
        }
    }
}

impl Module {
    pub fn custom_sections(&self) -> (r: &Vec<Custom>)
        ensures
            r == &self.customs,
    {
        &self.customs
    }

    pub fn exports(&self) -> (r: &Vec<Export>)
        ensures
            r == &self.exports,
    {
        &self.exports
    }

    pub fn imports(&self) -> (r: &Vec<Import>)
        ensures
            r == &self.imports,
    {
        &self.imports
    }
}

} // verus!
