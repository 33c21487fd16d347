//! Instantiation: binding a decoded module to host-provided imports and
//! allocating its runtime storage; and invocation of its functions.
use vstd::prelude::*;
use crate::executor::{execute, complete_float, spec_complete_float, spec_run, Error, Halt};
use crate::global::Global;
use crate::instr::Instr;
use crate::memory::{Memory32, repeat, PAGE_SIZE};
use crate::table::{elem_limit, repeat_ref, Table};
use crate::module::{
    models, ConstExpr, Data, DataMode, ElemMode, Element, ElementModel, TableType, FuncTypeModel, FunctionModel, GlobalDef, ImportKind,
    ImportModel, LocalGroup, Module, ModuleModel,
};
use crate::stack::{CallStack, Frame};
use crate::value::{Limit, ValType, Value};

verus! {

/// The call depth an instance allows.
pub const MAX_CALL_DEPTH: usize = 1024;

/// The most locals (parameters included) that one frame may hold.
pub const MAX_LOCALS: usize = 50_000;

/// A value the host offers under a module name and a field name.
pub struct ImportEntry {
    pub module_name: String,
    pub field_name: String,
    pub value: Value,
}

/// What the host offers to a module's imports.
pub type ImportObject = Vec<ImportEntry>;

/// Why instantiation failed; indices are into the module's imports, globals,
/// memories or data segments.
#[derive(Debug, Clone, Copy, PartialEq, Eq, Structural)]
pub enum InstantiationError {
    /// No value offered for the import, or it asks for something other than
    /// a global.
    UnresolvedImport(usize),
    /// The value offered has another type than the imported global.
    IncompatibleImport(usize),
    /// The initializer does not yield a value of the global's type.
    InvalidInitializer(usize),
    /// The memory's bounds admit no allocation.
    InvalidMemory(usize),
    /// An active data segment does not fit its memory.
    DataOutOfBounds(usize),
    /// The table's bounds admit no allocation.
    InvalidTable(usize),
    /// An active element segment does not fit its table.
    ElementOutOfBounds(usize),
}

/// The value offered under the two names: the first matching entry.
pub open spec fn spec_lookup(entries: Seq<ImportEntry>, m: Seq<char>, f: Seq<char>) -> Option<Value>
    decreases entries.len(),
{
    if entries.len() == 0 {
        None
    } else if entries[0].module_name@ == m && entries[0].field_name@ == f {
        Some(entries[0].value)
    } else {
        spec_lookup(entries.drop_first(), m, f)
    }
}

/// The global that import `i` binds to.
pub open spec fn spec_import_global(imp: ImportModel, entries: Seq<ImportEntry>, i: int) -> Result<
    Global,
    InstantiationError,
> {
    match (imp.kind, spec_lookup(entries, imp.module_name, imp.field_name)) {
        (ImportKind::GlobalType(gt), Some(v)) => if v.spec_type() == gt.valtype {
            Ok(Global { kind: gt.mutability, valtype: gt.valtype, value: Some(v) })
        } else {
            Err(InstantiationError::IncompatibleImport(i as usize))
        },
        _ => Err(InstantiationError::UnresolvedImport(i as usize)),
    }
}

/// The imported globals, for the imports from `i` on.
pub open spec fn spec_imported_globals(
    imports: Seq<ImportModel>,
    entries: Seq<ImportEntry>,
    i: int,
    acc: Seq<Global>,
) -> Result<Seq<Global>, InstantiationError>
    decreases imports.len() - i,
{
    if i < 0 || i >= imports.len() {
        Ok(acc)
    } else {
        match spec_import_global(imports[i], entries, i) {
            Ok(g) => spec_imported_globals(imports, entries, i + 1, acc.push(g)),
            Err(e) => Err(e),
        }
    }
}

/// The value of a constant expression, which may read the imported globals.
pub open spec fn spec_eval(c: ConstExpr, imported: Seq<Global>) -> Option<Value> {
    match c {
        ConstExpr::Const(v) => Some(v),
        ConstExpr::GlobalGet(k) => if k < imported.len() {
            imported[k as int].value
        } else {
            None
        },
    }
}

/// The module's own globals, initialized, for the definitions from `i` on.
pub open spec fn spec_defined_globals(
    defs: Seq<GlobalDef>,
    imported: Seq<Global>,
    i: int,
    acc: Seq<Global>,
) -> Result<Seq<Global>, InstantiationError>
    decreases defs.len() - i,
{
    if i < 0 || i >= defs.len() {
        Ok(acc)
    } else {
        match spec_eval(defs[i].init, imported) {
            Some(v) => if v.spec_type() == defs[i].ty.valtype {
                spec_defined_globals(
                    defs,
                    imported,
                    i + 1,
                    acc.push(
                        Global { kind: defs[i].ty.mutability, valtype: defs[i].ty.valtype, value: Some(v) },
                    ),
                )
            } else {
                Err(InstantiationError::InvalidInitializer(i as usize))
            },
            None => Err(InstantiationError::InvalidInitializer(i as usize)),
        }
    }
}

/// The globals of an instance: the imported ones, then the module's own.
pub open spec fn spec_globals(m: ModuleModel, entries: Seq<ImportEntry>) -> Result<
    Seq<Global>,
    InstantiationError,
> {
    match spec_imported_globals(m.imports, entries, 0, Seq::empty()) {
        Ok(imported) => spec_defined_globals(m.globals, imported, 0, imported),
        Err(e) => Err(e),
    }
}

fn find_import(entries: &Vec<ImportEntry>, m: &String, f: &String) -> (r: Option<Value>)
    ensures
        r == spec_lookup(entries@, m@, f@),
{
    let mut i: usize = 0;
    assert(entries@.subrange(0, entries@.len() as int) =~= entries@);
    while i < entries.len()
        invariant
            i <= entries@.len(),
            spec_lookup(entries@, m@, f@) == spec_lookup(entries@.subrange(i as int, entries@.len() as int), m@, f@),
        decreases entries@.len() - i,
    {
        let ghost rest = entries@.subrange(i as int, entries@.len() as int);
        assert(rest.drop_first() =~= entries@.subrange(i + 1, entries@.len() as int));
        if entries[i].module_name == *m && entries[i].field_name == *f {
            return Some(entries[i].value);
        }
        i = i + 1;
    }
    assert(entries@.subrange(i as int, entries@.len() as int).len() == 0);
    None
}

fn resolve_globals(module: &Module, entries: &Vec<ImportEntry>) -> (r: Result<Vec<Global>, InstantiationError>)
    ensures
        match spec_globals(module@, entries@) {
            Ok(gs) => r is Ok && r->Ok_0@ == gs,
            Err(e) => r == Err::<Vec<Global>, InstantiationError>(e),
        },
{
    let mut globals: Vec<Global> = Vec::new();
    let mut i: usize = 0;
    let ghost imports = module@.imports;
    while i < module.imports.len()
        invariant
            i <= module.imports@.len(),
            imports == models(module.imports@),
            imports.len() == module.imports@.len(),
            spec_imported_globals(imports, entries@, 0, Seq::empty())
                == spec_imported_globals(imports, entries@, i as int, globals@),
        decreases module.imports@.len() - i,
    {
        let imp = &module.imports[i];
        assert(imports[i as int] == imp@);
        let found = find_import(entries, &imp.module_name, &imp.field_name);
        match (imp.kind, found) {
            (ImportKind::GlobalType(gt), Some(v)) => {
                if v.value_type() != gt.valtype {
                    return Err(InstantiationError::IncompatibleImport(i));
                }
                globals.push(Global { kind: gt.mutability, valtype: gt.valtype, value: Some(v) });
            },
            _ => {
                return Err(InstantiationError::UnresolvedImport(i));
            },
        }
        i = i + 1;
    }
    let n_imported = globals.len();
    let ghost imported = globals@;
    assert(spec_imported_globals(imports, entries@, 0, Seq::empty()) == Ok::<Seq<Global>, InstantiationError>(imported));
    assert(globals@.subrange(0, n_imported as int) =~= imported);
    let mut j: usize = 0;
    while j < module.globals.len()
        invariant
            j <= module.globals@.len(),
            n_imported == imported.len(),
            imported.len() <= globals@.len(),
            imported == globals@.subrange(0, n_imported as int),
            imports == models(module.imports@),
            spec_imported_globals(imports, entries@, 0, Seq::empty()) == Ok::<
                Seq<Global>,
                InstantiationError,
            >(imported),
            spec_defined_globals(module@.globals, imported, 0, imported)
                == spec_defined_globals(module@.globals, imported, j as int, globals@),
        decreases module.globals@.len() - j,
    {
        let def = module.globals[j];
        let v = match def.init {
            ConstExpr::Const(v) => Some(v),
            ConstExpr::GlobalGet(k) => if (k as usize) < n_imported {
                globals[k as usize].value
            } else {
                None
            },
        };
        match v {
            Some(v) => {
                if v.value_type() != def.ty.valtype {
                    return Err(InstantiationError::InvalidInitializer(j));
                }
                let ghost before = globals@;
                globals.push(Global { kind: def.ty.mutability, valtype: def.ty.valtype, value: Some(v) });
                assert(globals@.subrange(0, n_imported as int) =~= before.subrange(0, n_imported as int));
            },
            None => {
                return Err(InstantiationError::InvalidInitializer(j));
            },
        }
        j = j + 1;
    }
    Ok(globals)
}

// ---------------------------------------------------------------- memories and data

/// Whether a memory with these bounds can be allocated.
pub open spec fn allocatable(l: Limit) -> bool {
    l.min <= crate::memory::page_limit(l.max) && crate::memory::fits_machine(l.min as nat)
}

/// The first memory, from `i` on, that cannot be allocated.
pub open spec fn first_bad_memory(limits: Seq<Limit>, i: int) -> Option<int>
    decreases limits.len() - i,
{
    if i < 0 || i >= limits.len() {
        None
    } else if !allocatable(limits[i]) {
        Some(i)
    } else {
        first_bad_memory(limits, i + 1)
    }
}

/// A freshly allocated memory for `l`.
pub open spec fn fresh_memory(m: Memory32, l: Limit) -> bool {
    &&& m.wf()
    &&& m.size == l.min
    &&& m.initial == l.min
    &&& m.max == l.max
    &&& m.bytes() == repeat(0, (l.min * PAGE_SIZE) as nat)
}

fn allocate_memories(limits: &Vec<Limit>) -> (r: Result<Vec<Memory32>, InstantiationError>)
    ensures
        match first_bad_memory(limits@, 0) {
            Some(i) => r == Err::<Vec<Memory32>, InstantiationError>(
                InstantiationError::InvalidMemory(i as usize),
            ),
            None => r is Ok && r->Ok_0@.len() == limits@.len() && forall|k: int|
                0 <= k < limits@.len() ==> fresh_memory(#[trigger] r->Ok_0@[k], limits@[k]),
        },
{
    let mut mems: Vec<Memory32> = Vec::new();
    let mut i: usize = 0;
    while i < limits.len()
        invariant
            i <= limits@.len(),
            mems@.len() == i,
            first_bad_memory(limits@, 0) == first_bad_memory(limits@, i as int),
            forall|k: int| 0 <= k < i ==> fresh_memory(#[trigger] mems@[k], limits@[k]),
        decreases limits@.len() - i,
    {
        match Memory32::allocate(limits[i]) {
            Ok(m) => {
                mems.push(m);
            },
            Err(_) => {
                return Err(InstantiationError::InvalidMemory(i));
            },
        }
        i = i + 1;
    }
    Ok(mems)
}

/// The offset that a constant expression gives a data segment.
pub open spec fn spec_offset(c: ConstExpr, globals: Seq<Global>) -> Option<u32> {
    match spec_eval(c, globals) {
        Some(Value::I32(o)) => Some(o as u32),
        _ => None,
    }
}

/// The memory contents after copying the active data segments from `i` on.
pub open spec fn spec_apply_data(
    segs: Seq<crate::module::DataModel>,
    globals: Seq<Global>,
    mems: Seq<Seq<u8>>,
    i: int,
) -> Result<Seq<Seq<u8>>, InstantiationError>
    decreases segs.len() - i,
{
    if i < 0 || i >= segs.len() {
        Ok(mems)
    } else {
        match segs[i].mode {
            DataMode::Passive => spec_apply_data(segs, globals, mems, i + 1),
            DataMode::Active { memory, offset } => match spec_offset(offset, globals) {
                Some(o) => if memory < mems.len() && o + segs[i].data.len()
                    <= mems[memory as int].len() {
                    let mb = mems[memory as int];
                    spec_apply_data(
                        segs,
                        globals,
                        mems.update(
                            memory as int,
                            mb.subrange(0, o as int) + segs[i].data + mb.subrange(
                                o + segs[i].data.len(),
                                mb.len() as int,
                            ),
                        ),
                        i + 1,
                    )
                } else {
                    Err(InstantiationError::DataOutOfBounds(i as usize))
                },
                None => Err(InstantiationError::DataOutOfBounds(i as usize)),
            },
        }
    }
}

/// The contents of each memory.
pub open spec fn contents(mems: Seq<Memory32>) -> Seq<Seq<u8>> {
    mems.map_values(|m: Memory32| m.bytes())
}

/// The segments an instance keeps: active ones are dropped once copied.
pub open spec fn kept_segment(d: crate::module::DataModel) -> crate::module::DataModel {
    match d.mode {
        DataMode::Active { .. } => crate::module::DataModel { mode: d.mode, data: Seq::empty(), dropped: true },
        DataMode::Passive => d,
    }
}

fn apply_data(segs: &Vec<Data>, globals: &Vec<Global>, mems: &mut Vec<Memory32>) -> (r: Result<
    (),
    InstantiationError,
>)
    requires
        forall|k: int| 0 <= k < old(mems)@.len() ==> (#[trigger] old(mems)@[k]).wf(),
    ensures
        forall|k: int| 0 <= k < final(mems)@.len() ==> (#[trigger] final(mems)@[k]).wf(),
        final(mems)@.len() == old(mems)@.len(),
        forall|k: int| 0 <= k < final(mems)@.len() ==> (#[trigger] final(mems)@[k]).size == old(mems)@[k].size
            && final(mems)@[k].max == old(mems)@[k].max && final(mems)@[k].initial == old(mems)@[k].initial,
        match spec_apply_data(models(segs@), globals@, contents(old(mems)@), 0) {
            Ok(c) => r is Ok && contents(final(mems)@) == c,
            Err(e) => r == Err::<(), InstantiationError>(e),
        },
{
    let ghost segm = models(segs@);
    let mut i: usize = 0;
    while i < segs.len()
        invariant
            i <= segs@.len(),
            segm == models(segs@),
            segm.len() == segs@.len(),
            mems@.len() == old(mems)@.len(),
            forall|k: int| 0 <= k < mems@.len() ==> (#[trigger] mems@[k]).wf(),
            forall|k: int| 0 <= k < mems@.len() ==> (#[trigger] mems@[k]).size == old(mems)@[k].size
                && mems@[k].max == old(mems)@[k].max && mems@[k].initial == old(mems)@[k].initial,
            spec_apply_data(segm, globals@, contents(old(mems)@), 0) == spec_apply_data(
                segm,
                globals@,
                contents(mems@),
                i as int,
            ),
        decreases segs@.len() - i,
    {
        let seg = &segs[i];
        assert(segm[i as int] == seg@);
        match seg.mode {
            DataMode::Passive => {},
            DataMode::Active { memory, offset } => {
                let o = match offset {
                    ConstExpr::Const(v) => Some(v),
                    ConstExpr::GlobalGet(k) => if (k as usize) < globals.len() {
                        globals[k as usize].value
                    } else {
                        None
                    },
                };
                let o = match o {
                    Some(Value::I32(o)) => o as u32,
                    _ => {
                        return Err(InstantiationError::DataOutOfBounds(i));
                    },
                };
                if memory as usize >= mems.len() {
                    return Err(InstantiationError::DataOutOfBounds(i));
                }
                let mi = memory as usize;
                let ghost before = mems@;
                let mut mem = mems.remove(mi);
                let res = mem.write(o, seg.data.as_slice());
                mems.insert(mi, mem);
                match res {
                    Ok(()) => {},
                    Err(_) => {
                        return Err(InstantiationError::DataOutOfBounds(i));
                    },
                }
                proof {
                    assert(mems@ =~= before.update(mi as int, mems@[mi as int]));
                    assert(contents(mems@) =~= contents(before).update(
                        mi as int,
                        mems@[mi as int].bytes(),
                    ));
                }
            },
        }
        i = i + 1;
    }
    Ok(())
}

// ---------------------------------------------------------------- the instance

/// A module bound to its imports, with its own globals, memories and data
/// segments.
pub struct ModuleInstance {
    pub module: Module,
    pub globals: Vec<Global>,
    pub memories: Vec<Memory32>,
    pub tables: Vec<Table>,
    pub data: Vec<Data>,
    pub elems: Vec<Element>,
    pub call_stack: CallStack,
}

fn kept_segments(segs: &Vec<Data>) -> (r: Vec<Data>)
    ensures
        models(r@) == models(segs@).map_values(|d: crate::module::DataModel| kept_segment(d)),
{
    let mut out: Vec<Data> = Vec::new();
    let mut i: usize = 0;
    while i < segs.len()
        invariant
            i <= segs@.len(),
            models(out@) == models(segs@).take(i as int).map_values(
                |d: crate::module::DataModel| kept_segment(d),
            ),
        decreases segs@.len() - i,
    {
        let seg = &segs[i];
        let kept = match seg.mode {
            DataMode::Active { .. } => Data { mode: seg.mode, data: Vec::new(), dropped: true },
            DataMode::Passive => {
                let bytes = crate::parse::copy_all(seg.data.as_slice());
                Data { mode: seg.mode, data: bytes, dropped: seg.dropped }
            },
        };
        proof {
            crate::module::lemma_models_push(out@, kept);
        }
        out.push(kept);
        i = i + 1;
        proof {
            assert(models(out@) =~= models(segs@).take(i as int).map_values(
                |d: crate::module::DataModel| kept_segment(d),
            ));
        }
    }
    assert(models(segs@).take(i as int) =~= models(segs@));
    out
}

// ---------------------------------------------------------------- tables and elements

/// The first table, from `i` on, whose bounds admit no allocation.
pub open spec fn first_bad_table(types: Seq<TableType>, i: int) -> Option<int>
    decreases types.len() - i,
{
    if i < 0 || i >= types.len() {
        None
    } else if types[i].limit.min > elem_limit(types[i].limit.max) {
        Some(i)
    } else {
        first_bad_table(types, i + 1)
    }
}

fn allocate_tables(types: &Vec<TableType>) -> (r: Result<Vec<Table>, InstantiationError>)
    ensures
        match first_bad_table(types@, 0) {
            Some(i) => r == Err::<Vec<Table>, InstantiationError>(
                InstantiationError::InvalidTable(i as usize),
            ),
            None => r is Ok && r->Ok_0@.len() == types@.len() && forall|k: int|
                0 <= k < types@.len() ==> {
                    &&& (#[trigger] r->Ok_0@[k]).wf()
                    &&& r->Ok_0@[k].elems@ == repeat_ref(None, types@[k].limit.min as nat)
                    &&& r->Ok_0@[k].ref_type == types@[k].ref_type
                    &&& r->Ok_0@[k].max == types@[k].limit.max
                },
        },
{
    let mut tables: Vec<Table> = Vec::new();
    let mut i: usize = 0;
    while i < types.len()
        invariant
            i <= types@.len(),
            tables@.len() == i,
            first_bad_table(types@, 0) == first_bad_table(types@, i as int),
            forall|k: int| 0 <= k < i ==> {
                &&& (#[trigger] tables@[k]).wf()
                &&& tables@[k].elems@ == repeat_ref(None, types@[k].limit.min as nat)
                &&& tables@[k].ref_type == types@[k].ref_type
                &&& tables@[k].max == types@[k].limit.max
            },
        decreases types@.len() - i,
    {
        match Table::new(types[i]) {
            Ok(t) => {
                tables.push(t);
            },
            Err(_) => {
                return Err(InstantiationError::InvalidTable(i));
            },
        }
        i = i + 1;
    }
    Ok(tables)
}

/// The contents of each table.
pub open spec fn table_contents(ts: Seq<Table>) -> Seq<Seq<Option<u32>>> {
    ts.map_values(|t: Table| t.elems@)
}

/// The table contents after copying the active element segments from `i` on.
pub open spec fn spec_apply_elems(
    segs: Seq<ElementModel>,
    globals: Seq<Global>,
    tabs: Seq<Seq<Option<u32>>>,
    i: int,
) -> Result<Seq<Seq<Option<u32>>>, InstantiationError>
    decreases segs.len() - i,
{
    if i < 0 || i >= segs.len() {
        Ok(tabs)
    } else {
        match segs[i].mode {
            ElemMode::Active { table, offset } => match spec_offset(offset, globals) {
                Some(o) => if table < tabs.len() && o + segs[i].init.len() <= tabs[table as int].len() {
                    let tb = tabs[table as int];
                    spec_apply_elems(
                        segs,
                        globals,
                        tabs.update(
                            table as int,
                            tb.subrange(0, o as int) + segs[i].init + tb.subrange(
                                o + segs[i].init.len(),
                                tb.len() as int,
                            ),
                        ),
                        i + 1,
                    )
                } else {
                    Err(InstantiationError::ElementOutOfBounds(i as usize))
                },
                None => Err(InstantiationError::ElementOutOfBounds(i as usize)),
            },
            _ => spec_apply_elems(segs, globals, tabs, i + 1),
        }
    }
}

fn apply_elems(segs: &Vec<Element>, globals: &Vec<Global>, tables: &mut Vec<Table>) -> (r: Result<
    (),
    InstantiationError,
>)
    requires
        forall|k: int| 0 <= k < old(tables)@.len() ==> (#[trigger] old(tables)@[k]).wf(),
    ensures
        forall|k: int| 0 <= k < final(tables)@.len() ==> (#[trigger] final(tables)@[k]).wf(),
        final(tables)@.len() == old(tables)@.len(),
        forall|k: int| 0 <= k < final(tables)@.len() ==> (#[trigger] final(tables)@[k]).max
            == old(tables)@[k].max && final(tables)@[k].ref_type == old(tables)@[k].ref_type,
        match spec_apply_elems(models(segs@), globals@, table_contents(old(tables)@), 0) {
            Ok(c) => r is Ok && table_contents(final(tables)@) == c,
            Err(e) => r == Err::<(), InstantiationError>(e),
        },
{
    let ghost segm = models(segs@);
    let mut i: usize = 0;
    while i < segs.len()
        invariant
            i <= segs@.len(),
            segm == models(segs@),
            segm.len() == segs@.len(),
            tables@.len() == old(tables)@.len(),
            forall|k: int| 0 <= k < tables@.len() ==> (#[trigger] tables@[k]).wf(),
            forall|k: int| 0 <= k < tables@.len() ==> (#[trigger] tables@[k]).max == old(tables)@[k].max
                && tables@[k].ref_type == old(tables)@[k].ref_type,
            spec_apply_elems(segm, globals@, table_contents(old(tables)@), 0) == spec_apply_elems(
                segm,
                globals@,
                table_contents(tables@),
                i as int,
            ),
        decreases segs@.len() - i,
    {
        let seg = &segs[i];
        assert(segm[i as int] == seg@);
        match seg.mode {
            ElemMode::Active { table, offset } => {
                let o = match offset {
                    ConstExpr::Const(v) => Some(v),
                    ConstExpr::GlobalGet(k) => if (k as usize) < globals.len() {
                        globals[k as usize].value
                    } else {
                        None
                    },
                };
                let o = match o {
                    Some(Value::I32(o)) => o as u32,
                    _ => {
                        return Err(InstantiationError::ElementOutOfBounds(i));
                    },
                };
                if table as usize >= tables.len() {
                    return Err(InstantiationError::ElementOutOfBounds(i));
                }
                let ti = table as usize;
                let len = seg.init.len();
                if len > u32::MAX as usize {
                    return Err(InstantiationError::ElementOutOfBounds(i));
                }
                let ghost before = tables@;
                let mut t = tables.remove(ti);
                let res = if o as usize > t.elems.len() || len > t.elems.len() - o as usize {
                    Err(crate::executor::Error::OutOfBoundTableAccess)
                } else {
                    write_refs(&mut t, o, &seg.init)
                };
                tables.insert(ti, t);
                match res {
                    Ok(()) => {},
                    Err(_) => {
                        return Err(InstantiationError::ElementOutOfBounds(i));
                    },
                }
                proof {
                    assert(tables@ =~= before.update(ti as int, tables@[ti as int]));
                    assert(table_contents(tables@) =~= table_contents(before).update(
                        ti as int,
                        tables@[ti as int].elems@,
                    ));
                }
            },
            _ => {},
        }
        i = i + 1;
    }
    Ok(())
}

fn write_refs(t: &mut Table, offset: u32, refs: &Vec<Option<u32>>) -> (r: Result<(), crate::executor::Error>)
    requires
        old(t).wf(),
        offset + refs@.len() <= old(t).elems@.len(),
    ensures
        r is Ok,
        final(t).wf(),
        final(t).max == old(t).max,
        final(t).ref_type == old(t).ref_type,
        final(t).elems@ == old(t).elems@.subrange(0, offset as int) + refs@ + old(t).elems@.subrange(
            offset + refs@.len(),
            old(t).elems@.len() as int,
        ),
{
    let e = Element { mode: ElemMode::Passive, ref_type: t.ref_type, init: crate::table::copy_refs(refs), dropped: false };
    t.init(&e, offset, 0, refs.len() as u32)
}

/// The segments an instance keeps: active and declarative ones are dropped.
pub open spec fn kept_element(e: ElementModel) -> ElementModel {
    match e.mode {
        ElemMode::Passive => e,
        _ => ElementModel { mode: e.mode, ref_type: e.ref_type, init: Seq::empty(), dropped: true },
    }
}

fn kept_elements(segs: &Vec<Element>) -> (r: Vec<Element>)
    ensures
        models(r@) == models(segs@).map_values(|e: ElementModel| kept_element(e)),
{
    let mut out: Vec<Element> = Vec::new();
    let mut i: usize = 0;
    while i < segs.len()
        invariant
            i <= segs@.len(),
            models(out@) == models(segs@).take(i as int).map_values(|e: ElementModel| kept_element(e)),
        decreases segs@.len() - i,
    {
        let seg = &segs[i];
        let kept = match seg.mode {
            ElemMode::Passive => Element {
                mode: seg.mode,
                ref_type: seg.ref_type,
                init: crate::table::copy_refs(&seg.init),
                dropped: seg.dropped,
            },
            _ => Element { mode: seg.mode, ref_type: seg.ref_type, init: Vec::new(), dropped: true },
        };
        proof {
            crate::module::lemma_models_push(out@, kept);
        }
        out.push(kept);
        i = i + 1;
        proof {
            assert(models(out@) =~= models(segs@).take(i as int).map_values(
                |e: ElementModel| kept_element(e),
            ));
        }
    }
    assert(models(segs@).take(i as int) =~= models(segs@));
    out
}

/// The initial zero-filled contents of each memory.
pub open spec fn zeroed(limits: Seq<Limit>) -> Seq<Seq<u8>> {
    limits.map_values(|l: Limit| repeat(0, (l.min * PAGE_SIZE) as nat))
}

/// The initial null contents of each table.
pub open spec fn nulled(types: Seq<TableType>) -> Seq<Seq<Option<u32>>> {
    types.map_values(|t: TableType| repeat_ref(None, t.limit.min as nat))
}

/// The state that instantiation gives an instance.
pub struct InstanceModel {
    pub globals: Seq<Global>,
    pub memories: Seq<Seq<u8>>,
    pub tables: Seq<Seq<Option<u32>>>,
}

/// What instantiating `m` against `imports` gives: the globals and the
/// contents of the memories and tables, or the first failure.
pub open spec fn spec_instantiate(m: ModuleModel, imports: Seq<ImportEntry>) -> Result<
    InstanceModel,
    InstantiationError,
> {
    match spec_globals(m, imports) {
        Err(e) => Err(e),
        Ok(gs) => match first_bad_memory(m.memories, 0) {
            Some(i) => Err(InstantiationError::InvalidMemory(i as usize)),
            None => match first_bad_table(m.tables, 0) {
                Some(i) => Err(InstantiationError::InvalidTable(i as usize)),
                None => match spec_apply_elems(m.elems, gs, nulled(m.tables), 0) {
                    Err(e) => Err(e),
                    Ok(tc) => match spec_apply_data(m.data, gs, zeroed(m.memories), 0) {
                        Err(e) => Err(e),
                        Ok(c) => Ok(InstanceModel { globals: gs, memories: c, tables: tc }),
                    },
                },
            },
        },
    }
}

impl ModuleInstance {
    /// This instance is `m` in state `s`: its memories and tables sized by
    /// their minimums, its active segments dropped, and no call active.
    pub open spec fn instance_of(self, m: ModuleModel, s: InstanceModel) -> bool {
        &&& self.module@ == m
        &&& self.globals@ == s.globals
        &&& self.wf()
        &&& contents(self.memories@) == s.memories
        &&& table_contents(self.tables@) == s.tables
        &&& self.memories@.len() == m.memories.len()
        &&& forall|k: int| 0 <= k < self.memories@.len() ==> {
            &&& (#[trigger] self.memories@[k]).size == m.memories[k].min
            &&& self.memories@[k].max == m.memories[k].max
        }
        &&& self.tables@.len() == m.tables.len()
        &&& forall|k: int| 0 <= k < self.tables@.len() ==> {
            &&& (#[trigger] self.tables@[k]).ref_type == m.tables[k].ref_type
            &&& self.tables@[k].max == m.tables[k].limit.max
        }
        &&& models(self.data@) == m.data.map_values(|d: crate::module::DataModel| kept_segment(d))
        &&& models(self.elems@) == m.elems.map_values(|e: ElementModel| kept_element(e))
        &&& self.call_stack.frames@.len() == 0
    }

    /// Binds `module` to the values in `imports`, initializes its globals,
    /// allocates its memories and tables, and copies its active element and
    /// data segments into them.
    pub fn new(module: Module, imports: &ImportObject) -> (r: Result<ModuleInstance, InstantiationError>)
        ensures
            match spec_instantiate(module@, imports@) {
                Err(e) => r == Err::<ModuleInstance, InstantiationError>(e),
                Ok(s) => r is Ok && r->Ok_0.instance_of(module@, s),
            },
    {
        let globals = resolve_globals(&module, imports)?;
        let mut memories = allocate_memories(&module.memories)?;
        let mut tables = allocate_tables(&module.tables)?;
        proof {
            assert(contents(memories@) =~= zeroed(module@.memories));
            assert(table_contents(tables@) =~= nulled(module@.tables));
        }
        apply_elems(&module.elems, &globals, &mut tables)?;
        apply_data(&module.data, &globals, &mut memories)?;
        let data = kept_segments(&module.data);
        let elems = kept_elements(&module.elems);
        Ok(ModuleInstance {
            module,
            globals,
            memories,
            tables,
            data,
            elems,
            call_stack: CallStack::new(MAX_CALL_DEPTH),
        })
    }

    /// Every memory and table is well formed and the call depth is bounded.
    pub open spec fn wf(&self) -> bool {
        &&& forall|k: int| 0 <= k < self.memories@.len() ==> (#[trigger] self.memories@[k]).wf()
        &&& forall|k: int| 0 <= k < self.tables@.len() ==> (#[trigger] self.tables@[k]).wf()
        &&& self.call_stack.max_depth == MAX_CALL_DEPTH
    }
}

// ---------------------------------------------------------------- invocation

/// A call halted in front of a floating-point instruction: the function, the
/// program counter at that instruction, and the operand stack, whose top
/// values are the instruction's operands.
#[derive(Debug)]
pub struct Activation {
    pub func_idx: u32,
    pub pc: usize,
    pub stack: Vec<Value>,
}

/// How a call ended, when it did not trap.
#[derive(Debug)]
pub enum Completion {
    /// The function returned these values.
    Returned(Vec<Value>),
    /// The call waits for the result of a floating-point instruction; see
    /// `ModuleInstance::resume`.
    Suspended(Activation),
}

pub enum CompletionModel {
    Returned(Seq<Value>),
    Suspended(u32, int, Seq<Value>),
}

/// An executable call result agrees with a spec-level one.
pub open spec fn completes_as(r: Result<Completion, Error>, m: Result<CompletionModel, Error>) -> bool {
    match r {
        Ok(Completion::Returned(v)) => m == Ok::<CompletionModel, Error>(CompletionModel::Returned(v@)),
        Ok(Completion::Suspended(a)) => m == Ok::<CompletionModel, Error>(
            CompletionModel::Suspended(a.func_idx, a.pc as int, a.stack@),
        ),
        Err(e) => m == Err::<CompletionModel, Error>(e),
    }
}

/// The number of locals that the groups declare.
pub open spec fn locals_count(g: Seq<LocalGroup>) -> nat
    decreases g.len(),
{
    if g.len() == 0 {
        0
    } else {
        (locals_count(g.drop_last()) + g.last().count) as nat
    }
}

proof fn lemma_locals_count_prefix(g: Seq<LocalGroup>, i: int)
    requires
        0 <= i <= g.len(),
    ensures
        locals_count(g.take(i)) <= locals_count(g),
    decreases g.len() - i,
{
    if i < g.len() {
        lemma_locals_count_prefix(g, i + 1);
        assert(g.take(i + 1).drop_last() =~= g.take(i));
    } else {
        assert(g.take(i) =~= g);
    }
}

/// Each argument has the type of its parameter.
pub open spec fn args_match(args: Seq<Value>, params: Seq<ValType>) -> bool {
    args.len() == params.len() && forall|i: int| 0 <= i < args.len() ==> (#[trigger] args[i]).spec_type()
        == params[i]
}

/// The top `tys.len()` values of the stack, which must have those types.
pub open spec fn spec_results(st: Seq<Value>, tys: Seq<ValType>) -> Result<Seq<Value>, Error> {
    if st.len() < tys.len() {
        Err(Error::StackUnderflow)
    } else if args_match(st.subrange(st.len() - tys.len(), st.len() as int), tys) {
        Ok(st.subrange(st.len() - tys.len(), st.len() as int))
    } else {
        Err(Error::TypeMismatch)
    }
}

/// Runs function `f` of the module from `pc` on `st` to completion, trap or
/// suspension.
pub open spec fn spec_finish(f: u32, instrs: Seq<Instr>, pc: int, st: Seq<Value>, tys: Seq<ValType>) -> Result<
    CompletionModel,
    Error,
> {
    let (h, st2, pc2) = spec_run(instrs, pc, st);
    match h {
        Halt::Done => match spec_results(st2, tys) {
            Ok(v) => Ok(CompletionModel::Returned(v)),
            Err(e) => Err(e),
        },
        Halt::Trapped(e) => Err(e),
        Halt::Float => Ok(CompletionModel::Suspended(f, pc2, st2)),
    }
}

/// The function with index `f` and its signature.
pub open spec fn spec_callee(m: ModuleModel, f: u32) -> Result<(FunctionModel, FuncTypeModel), Error> {
    if f >= m.functions.len() {
        Err(Error::UndefinedFunction)
    } else if m.functions[f as int].signature_idx >= m.types.len() {
        Err(Error::UndefinedFunction)
    } else {
        Ok((m.functions[f as int], m.types[m.functions[f as int].signature_idx as int]))
    }
}

/// A call of function `f` with `args` when `depth` calls are active.
pub open spec fn spec_invoke(m: ModuleModel, f: u32, args: Seq<Value>, depth: nat) -> Result<
    CompletionModel,
    Error,
> {
    match spec_callee(m, f) {
        Err(e) => Err(e),
        Ok((func, ty)) => if !args_match(args, ty.params) {
            Err(Error::TypeMismatch)
        } else if args.len() + locals_count(func.locals) > MAX_LOCALS {
            Err(Error::MemoryExhaustion)
        } else if depth >= MAX_CALL_DEPTH {
            Err(Error::StackOverflow)
        } else {
            spec_finish(f, func.instrs, 0, Seq::empty(), ty.results)
        }
    }
}

/// A suspended call resumed with `result`, the value of its pending
/// floating-point instruction.
pub open spec fn spec_resume(m: ModuleModel, f: u32, pc: int, st: Seq<Value>, result: Value) -> Result<
    CompletionModel,
    Error,
> {
    match spec_callee(m, f) {
        Err(e) => Err(e),
        Ok((func, ty)) => if pc < 0 || pc >= func.instrs.len() {
            Err(Error::TypeMismatch)
        } else {
            match spec_complete_float(st, func.instrs[pc], result) {
                Err(e) => Err(e),
                Ok(st2) => spec_finish(f, func.instrs, pc + 1, st2, ty.results),
            }
        },
    }
}

fn take_results(st: Vec<Value>, tys: &Vec<ValType>) -> (r: Result<Vec<Value>, Error>)
    ensures
        match spec_results(st@, tys@) {
            Ok(v) => r is Ok && r->Ok_0@ == v,
            Err(e) => r == Err::<Vec<Value>, Error>(e),
        },
{
    let n = tys.len();
    let len = st.len();
    if len < n {
        return Err(Error::StackUnderflow);
    }
    let mut out: Vec<Value> = Vec::new();
    let mut i: usize = 0;
    while i < n
        invariant
            i <= n == tys@.len(),
            n <= len == st@.len(),
            out@ == st@.subrange(len - n, len - n + i),
            forall|j: int| 0 <= j < i ==> (#[trigger] out@[j]).spec_type() == tys@[j],
        decreases n - i,
    {
        let v = st[len - n + i];
        if v.value_type() != tys[i] {
            assert(st@.subrange(len - n, len as int)[i as int] == v);
            return Err(Error::TypeMismatch);
        }
        out.push(v);
        i = i + 1;
        assert(out@ =~= st@.subrange(len - n, len - n + i));
    }
    Ok(out)
}

fn finish(f: u32, h: Halt, pc: usize, st: Vec<Value>, tys: &Vec<ValType>) -> (r: Result<Completion, Error>)
    ensures
        completes_as(
            r,
            match h {
                Halt::Done => match spec_results(st@, tys@) {
                    Ok(v) => Ok(CompletionModel::Returned(v)),
                    Err(e) => Err(e),
                },
                Halt::Trapped(e) => Err(e),
                Halt::Float => Ok(CompletionModel::Suspended(f, pc as int, st@)),
            },
        ),
{
    match h {
        Halt::Done => {
            let v = take_results(st, tys)?;
            Ok(Completion::Returned(v))
        },
        Halt::Trapped(e) => Err(e),
        Halt::Float => Ok(Completion::Suspended(Activation { func_idx: f, pc, stack: st })),
    }
}

fn args_ok(args: &Vec<Value>, params: &Vec<ValType>) -> (r: bool)
    ensures
        r == args_match(args@, params@),
{
    if args.len() != params.len() {
        return false;
    }
    let mut i: usize = 0;
    while i < args.len()
        invariant
            i <= args@.len() == params@.len(),
            forall|j: int| 0 <= j < i ==> (#[trigger] args@[j]).spec_type() == params@[j],
        decreases args@.len() - i,
    {
        if args[i].value_type() != params[i] {
            assert(args@[i as int].spec_type() != params@[i as int]);
            return false;
        }
        i = i + 1;
    }
    true
}

fn count_locals(groups: &Vec<LocalGroup>, base: usize) -> (r: Option<usize>)
    requires
        base <= MAX_LOCALS,
    ensures
        match r {
            Some(n) => n == base + locals_count(groups@) && n <= MAX_LOCALS,
            None => base + locals_count(groups@) > MAX_LOCALS,
        },
{
    let mut total: usize = base;
    let mut i: usize = 0;
    assert(groups@.take(0) =~= Seq::<LocalGroup>::empty());
    while i < groups.len()
        invariant
            i <= groups@.len(),
            total == base + locals_count(groups@.take(i as int)),
            total <= MAX_LOCALS,
        decreases groups@.len() - i,
    {
        assert(groups@.take(i + 1).drop_last() =~= groups@.take(i as int));
        let c = groups[i].count as usize;
        if c > MAX_LOCALS - total {
            proof {
                lemma_locals_count_prefix(groups@, i + 1);
            }
            return None;
        }
        total = total + c;
        i = i + 1;
    }
    assert(groups@.take(i as int) =~= groups@);
    Some(total)
}

/// The locals of a frame: the arguments, then each declared local at the
/// zero value of its type.
fn build_locals(args: &Vec<Value>, groups: &Vec<LocalGroup>) -> (r: Vec<Value>)
    requires
        args@.len() + locals_count(groups@) <= MAX_LOCALS,
    ensures
        r@.len() == args@.len() + locals_count(groups@),
        r@.subrange(0, args@.len() as int) == args@,
{
    let mut locals: Vec<Value> = Vec::new();
    let mut i: usize = 0;
    while i < args.len()
        invariant
            i <= args@.len(),
            locals@ == args@.subrange(0, i as int),
        decreases args@.len() - i,
    {
        locals.push(args[i]);
        i = i + 1;
        assert(locals@ =~= args@.subrange(0, i as int));
    }
    let n = args.len();
    let mut g: usize = 0;
    assert(groups@.take(0) =~= Seq::<LocalGroup>::empty());
    proof {
        lemma_locals_count_prefix(groups@, 0);
    }
    while g < groups.len()
        invariant
            g <= groups@.len(),
            n == args@.len(),
            n + locals_count(groups@) <= MAX_LOCALS,
            locals@.len() == n + locals_count(groups@.take(g as int)),
            locals@.subrange(0, n as int) == args@,
        decreases groups@.len() - g,
    {
        assert(groups@.take(g + 1).drop_last() =~= groups@.take(g as int));
        proof {
            lemma_locals_count_prefix(groups@, g + 1);
        }
        let z = groups[g].valtype.zero();
        let count = groups[g].count;
        let mut k: u32 = 0;
        while k < count
            invariant
                k <= count,
                n == args@.len(),
                n + locals_count(groups@.take(g + 1)) <= MAX_LOCALS,
                count == groups@[g as int].count,
                locals_count(groups@.take(g + 1)) == locals_count(groups@.take(g as int)) + count,
                locals@.len() == n + locals_count(groups@.take(g as int)) + k,
                locals@.subrange(0, n as int) == args@,
            decreases count - k,
        {
            let ghost before = locals@;
            locals.push(z);
            assert(locals@.subrange(0, n as int) =~= before.subrange(0, n as int));
            k = k + 1;
        }
        g = g + 1;
    }
    assert(groups@.take(g as int) =~= groups@);
    locals
}

impl ModuleInstance {
    fn callee(&self, f: u32) -> (r: Result<usize, Error>)
        ensures
            match spec_callee(self.module@, f) {
                Ok((func, ty)) => r is Ok && r->Ok_0 == func.signature_idx && (f as int)
                    < self.module.functions@.len() && r->Ok_0 < self.module.types@.len(),
                Err(e) => r == Err::<usize, Error>(e),
            },
    {
        if f as usize >= self.module.functions.len() {
            return Err(Error::UndefinedFunction);
        }
        let sig = self.module.functions[f as usize].signature_idx as usize;
        if sig >= self.module.types.len() {
            return Err(Error::UndefinedFunction);
        }
        Ok(sig)
    }

    /// Calls function `func_idx` with `args`. Runs until the function
    /// returns, traps, or reaches a floating-point instruction, whose result
    /// the caller supplies through `resume`. Globals, memories and data
    /// segments are left as they are.
    pub fn invoke(&mut self, func_idx: u32, args: &Vec<Value>) -> (r: Result<Completion, Error>)
        requires
            old(self).wf(),
        ensures
            final(self).wf(),
            completes_as(
                r,
                spec_invoke(old(self).module@, func_idx, args@, old(self).call_stack.frames@.len()),
            ),
            final(self).module == old(self).module,
            final(self).globals == old(self).globals,
            final(self).memories == old(self).memories,
            final(self).data == old(self).data,
            final(self).tables == old(self).tables,
            final(self).elems == old(self).elems,
            final(self).call_stack.frames@ == old(self).call_stack.frames@,
            final(self).call_stack.max_depth == old(self).call_stack.max_depth,
    {
        let sig = self.callee(func_idx)?;
        let f = &self.module.functions[func_idx as usize];
        let ty = &self.module.types[sig];
        let ghost m = self.module@;
        assert(m.functions[func_idx as int] == f@);
        assert(m.types[sig as int] == ty@);
        if !args_ok(args, &ty.params) {
            return Err(Error::TypeMismatch);
        }
        if args.len() > MAX_LOCALS {
            return Err(Error::MemoryExhaustion);
        }
        if count_locals(&f.locals, args.len()).is_none() {
            return Err(Error::MemoryExhaustion);
        }
        if self.call_stack.depth() >= self.call_stack.max_depth {
            return Err(Error::StackOverflow);
        }
        let locals = build_locals(args, &f.locals);
        let frame = Frame { func_idx, locals, return_pc: 0, height: 0 };
        let _ = self.call_stack.push(frame);
        let mut pc: usize = 0;
        let mut st: Vec<Value> = Vec::new();
        let h = execute(&f.parsed_body.instrs, &mut pc, &mut st);
        let _ = self.call_stack.pop();
        finish(func_idx, h, pc, st, &ty.results)
    }

    /// Continues a suspended call: `result` replaces the operands of the
    /// pending floating-point instruction, and execution goes on after it.
    pub fn resume(&mut self, act: Activation, result: Value) -> (r: Result<Completion, Error>)
        ensures
            completes_as(r, spec_resume(old(self).module@, act.func_idx, act.pc as int, act.stack@, result)),
            *final(self) == *old(self),
    {
        let sig = self.callee(act.func_idx)?;
        let f = &self.module.functions[act.func_idx as usize];
        let ty = &self.module.types[sig];
        let ghost m = self.module@;
        assert(m.functions[act.func_idx as int] == f@);
        assert(m.types[sig as int] == ty@);
        let instrs = &f.parsed_body.instrs;
        if act.pc >= instrs.len() {
            return Err(Error::TypeMismatch);
        }
        let mut st = act.stack;
        complete_float(&mut st, instrs[act.pc], result)?;
        let mut pc = act.pc + 1;
        let h = execute(instrs, &mut pc, &mut st);
        finish(act.func_idx, h, pc, st, &ty.results)
    }

    /// Invokes the start function, if the module declares one, without
    /// arguments; returns no values otherwise.
    pub fn run_start(&mut self) -> (r: Result<Completion, Error>)
        requires
            old(self).wf(),
        ensures
            final(self).wf(),
            match old(self).module.start_func {
                Some(s) => completes_as(r, spec_invoke(old(self).module@, s, Seq::empty(), old(self).call_stack.frames@.len())),
                None => completes_as(r, Ok(CompletionModel::Returned(Seq::empty()))),
            },
            final(self).globals == old(self).globals,
            final(self).memories == old(self).memories,
    {
        match self.module.start_func {
            Some(s) => {
                let args: Vec<Value> = Vec::new();
                self.invoke(s, &args)
            },
            None => Ok(Completion::Returned(Vec::new())),
        }
    }
}

} // verus!
