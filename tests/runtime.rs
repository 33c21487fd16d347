use wagyu_runtime::executor::Error;
use wagyu_runtime::global::{Global, SetError};
use wagyu_runtime::instance::{Completion, ImportEntry, InstantiationError, ModuleInstance};
use wagyu_runtime::memory::{Memory32, PAGE_SIZE};
use wagyu_runtime::module::{Data, DataMode, ElemMode, Element, TableType};
use wagyu_runtime::table::Table;
use wagyu_runtime::stack::{CallStack, ControlStack, Frame, Label, OperandStack};
use wagyu_runtime::value::{GlobalMut, Limit, RefType, ValType, Value};
use wagyu_runtime::{compile, instantiate};

const HEADER: [u8; 8] = [0x00, 0x61, 0x73, 0x6D, 0x01, 0x00, 0x00, 0x00];

fn with_sections(sections: &[&[u8]]) -> Vec<u8> {
    let mut v = HEADER.to_vec();
    for s in sections {
        v.extend_from_slice(s);
    }
    v
}

/// A module with one function of type `() -> results` and the given body
/// (without locals, with its final `end`).
fn one_function(results: &[u8], body: &[u8]) -> Vec<u8> {
    let mut ty = vec![0x01, (4 + results.len()) as u8, 0x01, 0x60, 0x00, results.len() as u8];
    ty.extend_from_slice(results);
    let mut code = vec![0x0A, (body.len() + 3) as u8, 0x01, (body.len() + 1) as u8, 0x00];
    code.extend_from_slice(body);
    with_sections(&[&ty, &[0x03, 0x02, 0x01, 0x00], &code])
}

fn instance_of(bytes: &[u8]) -> ModuleInstance {
    instantiate(bytes, &Vec::new()).unwrap()
}

#[test]
fn minimal_function_runs_without_results() {
    let bytes = one_function(&[], &[0x0B]);
    let m = compile(&bytes).unwrap();
    assert_eq!(m.types.len(), 1);
    assert_eq!(m.functions.len(), 1);
    let mut inst = instance_of(&bytes);
    match inst.invoke(0, &Vec::new()) {
        Ok(Completion::Returned(v)) => assert!(v.is_empty()),
        other => panic!("unexpected {:?}", other),
    }
}

#[test]
fn division_by_zero_traps_and_instance_stays_usable() {
    let bytes = one_function(&[0x7F], &[0x41, 0x01, 0x41, 0x00, 0x6D, 0x0B]);
    let mut inst = instance_of(&bytes);
    assert!(matches!(inst.invoke(0, &Vec::new()), Err(Error::DivideByZero)));
    assert!(matches!(inst.invoke(0, &Vec::new()), Err(Error::DivideByZero)));
    assert_eq!(inst.call_stack.depth(), 0);
}

#[test]
fn integer_arithmetic() {
    // 7 - 10 wraps; then (7 - 10) * 3
    let bytes = one_function(&[0x7F], &[0x41, 0x07, 0x41, 0x0A, 0x6B, 0x41, 0x03, 0x6C, 0x0B]);
    let mut inst = instance_of(&bytes);
    match inst.invoke(0, &Vec::new()) {
        Ok(Completion::Returned(v)) => assert_eq!(v, vec![Value::I32(-9)]),
        other => panic!("unexpected {:?}", other),
    }
    // i32.const MIN, i32.const -1, i32.div_s
    let bytes = one_function(&[0x7F], &[0x41, 0x80, 0x80, 0x80, 0x80, 0x78, 0x41, 0x7F, 0x6D, 0x0B]);
    let mut inst = instance_of(&bytes);
    assert!(matches!(inst.invoke(0, &Vec::new()), Err(Error::IntegerOverflow)));
    // i64.const 1, i64.const 63, i64.shl, i64.popcnt
    let bytes = one_function(&[0x7E], &[0x42, 0x01, 0x42, 0x3F, 0x86, 0x7B, 0x0B]);
    let mut inst = instance_of(&bytes);
    match inst.invoke(0, &Vec::new()) {
        Ok(Completion::Returned(v)) => assert_eq!(v, vec![Value::I64(1)]),
        other => panic!("unexpected {:?}", other),
    }
    // i32.const 1, i32.clz ; i32.const 0x80000000 rotl 1 ; i32.add  => 31 + 1
    let bytes = one_function(
        &[0x7F],
        &[0x41, 0x01, 0x67, 0x41, 0x80, 0x80, 0x80, 0x80, 0x78, 0x41, 0x01, 0x77, 0x6A, 0x0B],
    );
    let mut inst = instance_of(&bytes);
    match inst.invoke(0, &Vec::new()) {
        Ok(Completion::Returned(v)) => assert_eq!(v, vec![Value::I32(32)]),
        other => panic!("unexpected {:?}", other),
    }
}

#[test]
fn comparisons_select_and_control() {
    // i32.const -1, i32.const 1, i32.lt_u  => 0 ; select between 5 and 6 on it
    let bytes = one_function(
        &[0x7F],
        &[0x41, 0x05, 0x41, 0x06, 0x41, 0x7F, 0x41, 0x01, 0x49, 0x1B, 0x0B],
    );
    let mut inst = instance_of(&bytes);
    match inst.invoke(0, &Vec::new()) {
        Ok(Completion::Returned(v)) => assert_eq!(v, vec![Value::I32(6)]),
        other => panic!("unexpected {:?}", other),
    }
    // unreachable traps; return ends early; drop on empty stack underflows
    let mut inst = instance_of(&one_function(&[], &[0x00, 0x0B]));
    assert!(matches!(inst.invoke(0, &Vec::new()), Err(Error::Unreachable)));
    let mut inst = instance_of(&one_function(&[0x7F], &[0x41, 0x02, 0x0F, 0x00, 0x0B]));
    match inst.invoke(0, &Vec::new()) {
        Ok(Completion::Returned(v)) => assert_eq!(v, vec![Value::I32(2)]),
        other => panic!("unexpected {:?}", other),
    }
    let mut inst = instance_of(&one_function(&[], &[0x1A, 0x0B]));
    assert!(matches!(inst.invoke(0, &Vec::new()), Err(Error::StackUnderflow)));
    // i32.const 1, i64.const 1, i32.add: operand types differ
    let mut inst = instance_of(&one_function(&[0x7F], &[0x41, 0x01, 0x42, 0x01, 0x6A, 0x0B]));
    assert!(matches!(inst.invoke(0, &Vec::new()), Err(Error::TypeMismatch)));
    // a missing result
    let mut inst = instance_of(&one_function(&[0x7F], &[0x0B]));
    assert!(matches!(inst.invoke(0, &Vec::new()), Err(Error::StackUnderflow)));
    // no such function
    assert!(matches!(inst.invoke(3, &Vec::new()), Err(Error::UndefinedFunction)));
    assert!(matches!(inst.invoke(0, &vec![Value::I32(1)]), Err(Error::TypeMismatch)));
}

#[test]
fn float_instruction_suspends_and_resumes() {
    // f32.const 1.5, f32.const 2.25, f32.add, end
    let a = 1.5f32.to_le_bytes();
    let b = 2.25f32.to_le_bytes();
    let body = [0x43, a[0], a[1], a[2], a[3], 0x43, b[0], b[1], b[2], b[3], 0x92, 0x0B];
    let mut inst = instance_of(&one_function(&[0x7D], &body));
    let act = match inst.invoke(0, &Vec::new()) {
        Ok(Completion::Suspended(act)) => act,
        other => panic!("unexpected {:?}", other),
    };
    assert_eq!(act.pc, 2);
    assert_eq!(act.stack, vec![Value::F32(1.5f32.to_bits()), Value::F32(2.25f32.to_bits())]);
    let sum = Value::F32((1.5f32 + 2.25f32).to_bits());
    match inst.resume(act, sum) {
        Ok(Completion::Returned(v)) => assert_eq!(v, vec![Value::F32(3.75f32.to_bits())]),
        other => panic!("unexpected {:?}", other),
    }
}

#[test]
fn run_start_without_start_function() {
    let mut inst = instance_of(&one_function(&[], &[0x0B]));
    match inst.run_start() {
        Ok(Completion::Returned(v)) => assert!(v.is_empty()),
        other => panic!("unexpected {:?}", other),
    }
}

#[test]
fn instantiation_binds_globals_memory_and_data() {
    let import: &[u8] = &[0x02, 0x0A, 0x01, 0x03, b'e', b'n', b'v', 0x01, b'g', 0x03, 0x7F, 0x00];
    let memory: &[u8] = &[0x05, 0x04, 0x01, 0x01, 0x01, 0x02];
    // a global initialized from the imported one
    let global: &[u8] = &[0x06, 0x06, 0x01, 0x7F, 0x01, 0x23, 0x00, 0x0B];
    let data: &[u8] = &[0x0B, 0x0B, 0x02, 0x00, 0x41, 0x04, 0x0B, 0x02, 0x2A, 0x2B, 0x01, 0x01, 0x07];
    let bytes = with_sections(&[import, memory, global, data]);
    let imports = vec![ImportEntry { module_name: "env".to_string(), field_name: "g".to_string(), value: Value::I32(9) }];
    let inst = instantiate(&bytes, &imports).unwrap();
    assert_eq!(inst.globals.len(), 2);
    assert_eq!(inst.globals[1].value, Some(Value::I32(9)));
    assert_eq!(inst.memories[0].size(), 1);
    assert_eq!(inst.memories[0].read(3, 4).unwrap(), vec![0x00, 0x2A, 0x2B, 0x00]);
    assert!(inst.data[0].dropped);
    assert_eq!(inst.data[1].data, vec![0x07]);
    assert!(matches!(inst.data[1].mode, DataMode::Passive));

    let wrong = vec![ImportEntry { module_name: "env".to_string(), field_name: "g".to_string(), value: Value::I64(9) }];
    assert!(matches!(
        instantiate(&bytes, &wrong),
        Err(wagyu_runtime::Error::Instantiation(InstantiationError::IncompatibleImport(0)))
    ));
    assert!(matches!(
        instantiate(&bytes, &Vec::new()),
        Err(wagyu_runtime::Error::Instantiation(InstantiationError::UnresolvedImport(0)))
    ));
    assert!(matches!(instantiate(&bytes[..5], &Vec::new()), Err(wagyu_runtime::Error::Decode(_))));
}

#[test]
fn data_segment_past_memory_end() {
    let memory: &[u8] = &[0x05, 0x03, 0x01, 0x00, 0x01];
    // offset 65535, two bytes
    let data: &[u8] = &[0x0B, 0x0A, 0x01, 0x00, 0x41, 0xFF, 0xFF, 0x03, 0x0B, 0x02, 0x01, 0x02];
    let bytes = with_sections(&[memory, data]);
    assert!(matches!(
        instantiate(&bytes, &Vec::new()),
        Err(wagyu_runtime::Error::Instantiation(InstantiationError::DataOutOfBounds(0)))
    ));
    let mut m = compile(&bytes).unwrap();
    m.memories[0].min = 70_000;
    assert!(matches!(ModuleInstance::new(m, &Vec::new()), Err(InstantiationError::InvalidMemory(0))));
}

#[test]
fn memory_grow_past_max_changes_nothing() {
    let mut m = Memory32::allocate(Limit { min: 1, max: Some(2) }).unwrap();
    assert_eq!(m.size(), 1);
    assert_eq!(m.grow(2), -1);
    assert_eq!(m.size(), 1);
    assert_eq!(m.grow(1), 1);
    assert_eq!(m.size(), 2);
    assert_eq!(m.read(2 * PAGE_SIZE as u32 - 1, 1).unwrap(), vec![0]);
    assert_eq!(m.grow(0), 2);
    assert_eq!(m.grow(1), -1);
    assert_eq!(m.size(), 2);
    assert!(Memory32::allocate(Limit { min: 3, max: Some(2) }).is_err());
}

#[test]
fn fill_at_the_boundary() {
    let mut m = Memory32::allocate(Limit { min: 1, max: None }).unwrap();
    let len = PAGE_SIZE as u32;
    assert!(m.fill(len - 4, 7, 4).is_ok());
    assert_eq!(m.read(len - 5, 5).unwrap(), vec![0, 7, 7, 7, 7]);
    assert!(matches!(m.fill(len - 3, 9, 4), Err(Error::OutOfBoundMemoryAccess)));
    assert_eq!(m.read(len - 3, 3).unwrap(), vec![7, 7, 7]);
    assert!(m.fill(len, 1, 0).is_ok());
}

#[test]
fn copy_handles_overlap() {
    let mut m = Memory32::allocate(Limit { min: 1, max: None }).unwrap();
    m.write(0, &[1, 2, 3, 4, 5]).unwrap();
    m.copy(1, 0, 4).unwrap();
    assert_eq!(m.read(0, 5).unwrap(), vec![1, 1, 2, 3, 4]);
    m.copy(0, 1, 4).unwrap();
    assert_eq!(m.read(0, 5).unwrap(), vec![1, 2, 3, 4, 4]);
    assert!(matches!(m.copy(0, PAGE_SIZE as u32 - 1, 2), Err(Error::OutOfBoundMemoryAccess)));
    assert!(matches!(m.write(PAGE_SIZE as u32 - 1, &[1, 2]), Err(Error::OutOfBoundMemoryAccess)));
}

#[test]
fn init_from_data_and_after_drop() {
    let mut m = Memory32::allocate(Limit { min: 1, max: None }).unwrap();
    let mut d = Data { mode: DataMode::Passive, data: vec![10, 11, 12, 13], dropped: false };
    m.init(&d, 100, 1, 2).unwrap();
    assert_eq!(m.read(99, 4).unwrap(), vec![0, 11, 12, 0]);
    assert!(matches!(m.init(&d, 0, 3, 2), Err(Error::OutOfBoundMemoryAccess)));
    d.drop();
    assert!(d.data.is_empty());
    assert!(matches!(m.init(&d, 0, 0, 0), Err(Error::OutOfBoundMemoryAccess)));
}

#[test]
fn global_mutability() {
    let mut c = Global { kind: GlobalMut::Const, valtype: ValType::I32, value: Some(Value::I32(1)) };
    assert_eq!(c.set(Value::I32(2)), Err(SetError::Const));
    assert_eq!(c.set(Value::I64(2)), Err(SetError::Const));
    assert_eq!(c.get(), Value::I32(1));
    let mut v = Global { kind: GlobalMut::Var, valtype: ValType::I32, value: Some(Value::I32(1)) };
    assert_eq!(v.set(Value::F32(0)), Err(SetError::TypeMismatch));
    assert_eq!(v.get(), Value::I32(1));
    assert_eq!(v.set(Value::I32(5)), Ok(()));
    assert_eq!(v.get(), Value::I32(5));
}

#[test]
fn stacks() {
    let mut s = OperandStack::new();
    assert!(matches!(s.pop(), Err(Error::StackUnderflow)));
    s.push(Value::I32(3));
    assert_eq!(s.len(), 1);
    assert_eq!(s.pop().unwrap(), Value::I32(3));
    let mut c = ControlStack::new();
    c.push(Label { arity: 1, height: 0 });
    assert_eq!(c.pop(), Some(Label { arity: 1, height: 0 }));
    assert_eq!(c.pop(), None);
    let mut calls = CallStack::new(1);
    assert!(calls.push(Frame { func_idx: 0, locals: vec![], return_pc: 0, height: 0 }).is_ok());
    assert!(matches!(
        calls.push(Frame { func_idx: 1, locals: vec![], return_pc: 0, height: 0 }),
        Err(Error::StackOverflow)
    ));
    assert_eq!(calls.depth(), 1);
    assert!(calls.pop().is_some());
}

#[test]
fn table_operations() {
    let ty = TableType { ref_type: RefType::FuncRef, limit: Limit { min: 2, max: Some(4) } };
    let mut t = Table::new(ty).unwrap();
    assert_eq!(t.size(), 2);
    assert_eq!(t.get(1), Ok(None));
    assert_eq!(t.get(2), Err(Error::OutOfBoundTableAccess));
    assert_eq!(t.set(0, Some(7)), Ok(()));
    assert_eq!(t.set(2, Some(7)), Err(Error::OutOfBoundTableAccess));
    assert_eq!(t.grow(3, None), -1);
    assert_eq!(t.size(), 2);
    assert_eq!(t.grow(2, Some(9)), 2);
    assert_eq!(t.elems, vec![Some(7), None, Some(9), Some(9)]);
    assert_eq!(t.fill(1, Some(3), 3), Ok(()));
    assert_eq!(t.fill(2, Some(3), 3), Err(Error::OutOfBoundTableAccess));
    assert_eq!(t.elems, vec![Some(7), Some(3), Some(3), Some(3)]);
    assert_eq!(t.copy(1, 0, 2), Ok(()));
    assert_eq!(t.elems, vec![Some(7), Some(7), Some(3), Some(3)]);
    let mut e = Element { mode: ElemMode::Passive, ref_type: RefType::FuncRef, init: vec![Some(1), Some(2)], dropped: false };
    assert_eq!(t.init(&e, 2, 0, 2), Ok(()));
    assert_eq!(t.elems, vec![Some(7), Some(7), Some(1), Some(2)]);
    assert_eq!(t.init(&e, 3, 0, 2), Err(Error::OutOfBoundTableAccess));
    e.drop();
    assert_eq!(t.init(&e, 0, 0, 0), Err(Error::OutOfBoundTableAccess));
    assert!(Table::new(TableType { ref_type: RefType::FuncRef, limit: Limit { min: 5, max: Some(4) } }).is_err());
}

#[test]
fn instantiation_fills_tables_from_active_elements() {
    let table: &[u8] = &[0x04, 0x04, 0x01, 0x70, 0x00, 0x02];
    let elems: &[u8] = &[0x09, 0x07, 0x01, 0x00, 0x41, 0x01, 0x0B, 0x01, 0x00];
    let inst = instance_of(&with_sections(&[table, elems]));
    assert_eq!(inst.tables.len(), 1);
    assert_eq!(inst.tables[0].elems, vec![None, Some(0)]);
    assert!(inst.elems[0].dropped);
    assert!(inst.elems[0].init.is_empty());
    let past_end: &[u8] = &[0x09, 0x07, 0x01, 0x00, 0x41, 0x02, 0x0B, 0x01, 0x00];
    assert!(matches!(
        instantiate(&with_sections(&[table, past_end]), &Vec::new()),
        Err(wagyu_runtime::Error::Instantiation(InstantiationError::ElementOutOfBounds(0)))
    ));
}
