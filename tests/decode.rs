use wagyu_runtime::instr::{IBinOp, Instr};
use wagyu_runtime::module::{ConstExpr, DataMode, ElemMode};
use wagyu_runtime::parse::ErrorKind;
use wagyu_runtime::value::{ExportDesc, GlobalMut, RefType, ValType, Value};
use wagyu_runtime::{compile, validate};

const HEADER: [u8; 8] = [0x00, 0x61, 0x73, 0x6D, 0x01, 0x00, 0x00, 0x00];

fn with_sections(sections: &[&[u8]]) -> Vec<u8> {
    let mut v = HEADER.to_vec();
    for s in sections {
        v.extend_from_slice(s);
    }
    v
}

const TYPE_VOID: &[u8] = &[0x01, 0x04, 0x01, 0x60, 0x00, 0x00];
const FUNC_ONE: &[u8] = &[0x03, 0x02, 0x01, 0x00];
const CODE_END: &[u8] = &[0x0A, 0x04, 0x01, 0x02, 0x00, 0x0B];

#[test]
fn minimal_module_decodes() {
    let m = compile(&with_sections(&[TYPE_VOID, FUNC_ONE, CODE_END])).unwrap();
    assert_eq!(m.types.len(), 1);
    assert_eq!(m.functions.len(), 1);
    assert!(m.types[0].params.is_empty());
    assert!(m.types[0].results.is_empty());
    assert_eq!(m.functions[0].signature_idx, 0);
    assert!(m.functions[0].parsed_body.instrs.is_empty());
}

#[test]
fn empty_module_decodes() {
    let m = compile(&HEADER).unwrap();
    assert!(m.types.is_empty() && m.functions.is_empty() && m.start_func.is_none());
    assert!(validate(&HEADER));
}

#[test]
fn bad_magic_is_rejected_whatever_follows() {
    let mut v = with_sections(&[TYPE_VOID, FUNC_ONE, CODE_END]);
    v[1] = 0x62;
    let e = compile(&v).unwrap_err();
    assert!(matches!(e.kind, ErrorKind::InvalidBinaryMagic));
    assert_eq!(e.offset, 0);
    assert!(!validate(&v));
    let e = compile(&[0x00, 0x61]).unwrap_err();
    assert!(matches!(e.kind, ErrorKind::InvalidBinaryMagic));
}

#[test]
fn bad_version_is_rejected_whatever_follows() {
    let mut v = with_sections(&[TYPE_VOID, FUNC_ONE, CODE_END]);
    v[4] = 0x02;
    let e = compile(&v).unwrap_err();
    assert!(matches!(e.kind, ErrorKind::InvalidBinaryVersion));
    assert_eq!(e.offset, 4);
    let e = compile(&HEADER[..6]).unwrap_err();
    assert!(matches!(e.kind, ErrorKind::InvalidBinaryVersion));
}

#[test]
fn unknown_section_id() {
    let e = compile(&with_sections(&[&[0x0D, 0x00]])).unwrap_err();
    assert!(matches!(e.kind, ErrorKind::InvalidSectionFormat));
    assert_eq!(e.offset, 8);
}

#[test]
fn section_size_mismatch() {
    // the type section claims five bytes but its items take four
    let e = compile(&with_sections(&[&[0x01, 0x05, 0x01, 0x60, 0x00, 0x00, 0x00]])).unwrap_err();
    assert!(matches!(e.kind, ErrorKind::InvalidSectionFormat));
    assert_eq!(e.offset, 14);
    // the type section claims more bytes than the binary has
    let e = compile(&with_sections(&[&[0x01, 0x09, 0x01, 0x60, 0x00, 0x00]])).unwrap_err();
    assert!(matches!(e.kind, ErrorKind::InvalidSectionFormat));
    assert_eq!(e.offset, 8);
}

#[test]
fn sections_out_of_order_or_repeated() {
    let e = compile(&with_sections(&[FUNC_ONE, TYPE_VOID])).unwrap_err();
    assert!(matches!(e.kind, ErrorKind::InvalidSectionFormat));
    assert_eq!(e.offset, 12);
    let e = compile(&with_sections(&[TYPE_VOID, TYPE_VOID])).unwrap_err();
    assert!(matches!(e.kind, ErrorKind::InvalidSectionFormat));
    assert_eq!(e.offset, 14);
}

#[test]
fn custom_sections_anywhere() {
    let custom: &[u8] = &[0x00, 0x04, 0x02, b'h', b'i', 0xAB];
    let m = compile(&with_sections(&[custom, TYPE_VOID, custom, FUNC_ONE, CODE_END])).unwrap();
    assert_eq!(m.custom_sections().len(), 2);
    assert_eq!(m.customs[0].name, "hi");
    assert_eq!(m.customs[0].bytes, vec![0xAB]);
}

#[test]
fn missing_code_section() {
    let v = with_sections(&[TYPE_VOID, FUNC_ONE]);
    let e = compile(&v).unwrap_err();
    assert!(matches!(e.kind, ErrorKind::MissingSection));
    assert_eq!(e.offset, v.len());
}

#[test]
fn code_count_must_match_functions() {
    let e = compile(&with_sections(&[TYPE_VOID, FUNC_ONE, &[0x0A, 0x01, 0x00]])).unwrap_err();
    assert!(matches!(e.kind, ErrorKind::InvalidSectionFormat));
    assert_eq!(e.offset, 20);
}

#[test]
fn invalid_opcode_reports_its_offset() {
    let e = compile(&with_sections(&[TYPE_VOID, FUNC_ONE, &[0x0A, 0x05, 0x01, 0x03, 0x00, 0xFF, 0x0B]])).unwrap_err();
    assert!(matches!(e.kind, ErrorKind::InvalidInstruction));
    assert_eq!(e.offset, 23);
}

#[test]
fn malformed_integer_in_section_size() {
    // eleven bytes for a size: malformed in itself
    let e = compile(&with_sections(&[&[0x01, 0x80, 0x80, 0x80, 0x80, 0x80, 0x80, 0x80, 0x80, 0x80, 0x80, 0x00]]))
        .unwrap_err();
    assert!(matches!(e.kind, ErrorKind::MalformedInteger));
    assert_eq!(e.offset, 9);
    // a size that runs into the end of the binary
    let e = compile(&with_sections(&[&[0x01, 0x80]])).unwrap_err();
    assert!(matches!(e.kind, ErrorKind::InvalidSectionFormat));
    assert_eq!(e.offset, 9);
}

#[test]
fn item_past_section_end_is_a_section_error() {
    // the function section is two bytes long but declares two indices
    let e = compile(&with_sections(&[TYPE_VOID, &[0x03, 0x02, 0x02, 0x00], &[0x0A, 0x01, 0x00]])).unwrap_err();
    assert!(matches!(e.kind, ErrorKind::InvalidSectionFormat));
    assert_eq!(e.offset, 18);
}

#[test]
fn sections_in_ascending_id_order() {
    let data_count: &[u8] = &[0x0C, 0x01, 0x00];
    let code_empty: &[u8] = &[0x0A, 0x01, 0x00];
    // code (10) then data count (12) ascends
    let m = compile(&with_sections(&[code_empty, data_count])).unwrap();
    assert_eq!(m.data_count, Some(0));
    // data count (12) then code (10) does not
    let e = compile(&with_sections(&[data_count, code_empty])).unwrap_err();
    assert!(matches!(e.kind, ErrorKind::InvalidSectionFormat));
    assert_eq!(e.offset, 11);
}

#[test]
fn invalid_value_type() {
    let e = compile(&with_sections(&[&[0x01, 0x05, 0x01, 0x60, 0x01, 0x55, 0x00]])).unwrap_err();
    assert!(matches!(e.kind, ErrorKind::InvalidValue));
    assert_eq!(e.offset, 13);
}

#[test]
fn body_decodes_to_instructions() {
    // i32.const 1, i32.const 0, i32.div_s, end, with one i64 local
    let code: &[u8] = &[0x0A, 0x0B, 0x01, 0x09, 0x01, 0x01, 0x7E, 0x41, 0x01, 0x41, 0x00, 0x6D, 0x0B];
    let m = compile(&with_sections(&[TYPE_VOID, FUNC_ONE, code])).unwrap();
    let f = &m.functions[0];
    assert_eq!(f.locals.len(), 1);
    assert_eq!(f.locals[0].count, 1);
    assert_eq!(f.locals[0].valtype, ValType::I64);
    assert_eq!(
        f.parsed_body.instrs,
        vec![Instr::I32Const(1), Instr::I32Const(0), Instr::I32Bin(IBinOp::DivS)]
    );
}

#[test]
fn float_constants_are_little_endian_bits() {
    // f32.const 1.0, drop, f64.const 2.0, drop, end
    let body: &[u8] = &[0x00, 0x43, 0x00, 0x00, 0x80, 0x3F, 0x1A, 0x44, 0, 0, 0, 0, 0, 0, 0, 0x40, 0x1A, 0x0B];
    let mut code = vec![0x0A, (body.len() + 2) as u8, 0x01, body.len() as u8];
    code.extend_from_slice(body);
    let m = compile(&with_sections(&[TYPE_VOID, FUNC_ONE, &code])).unwrap();
    assert_eq!(
        m.functions[0].parsed_body.instrs,
        vec![Instr::F32Const(1.0f32.to_bits()), Instr::Drop, Instr::F64Const(2.0f64.to_bits()), Instr::Drop]
    );
}

#[test]
fn exports_imports_globals_and_data() {
    let import: &[u8] = &[0x02, 0x0A, 0x01, 0x03, b'e', b'n', b'v', 0x01, b'g', 0x03, 0x7F, 0x00];
    let memory: &[u8] = &[0x05, 0x04, 0x01, 0x01, 0x01, 0x02];
    let global: &[u8] = &[0x06, 0x06, 0x01, 0x7E, 0x01, 0x42, 0x7F, 0x0B];
    let export: &[u8] = &[0x07, 0x05, 0x01, 0x01, b'f', 0x00, 0x00];
    let start: &[u8] = &[0x08, 0x01, 0x00];
    let data: &[u8] = &[0x0B, 0x07, 0x01, 0x00, 0x41, 0x04, 0x0B, 0x01, 0x2A];
    let m = compile(&with_sections(&[TYPE_VOID, import, FUNC_ONE, memory, global, export, start, CODE_END, data]))
        .unwrap();
    assert_eq!(m.imports().len(), 1);
    assert_eq!(m.imports[0].module_name, "env");
    assert_eq!(m.imports[0].field_name, "g");
    assert_eq!(m.memories[0].min, 1);
    assert_eq!(m.memories[0].max, Some(2));
    assert_eq!(m.globals[0].ty.valtype, ValType::I64);
    assert_eq!(m.globals[0].ty.mutability, GlobalMut::Var);
    assert_eq!(m.globals[0].init, ConstExpr::Const(Value::I64(-1)));
    assert_eq!(m.exports().len(), 1);
    assert_eq!(m.exports[0].name, "f");
    assert_eq!(m.exports[0].desc, ExportDesc::FuncIdx);
    assert_eq!(m.start_func, Some(0));
    assert_eq!(m.data[0].data, vec![0x2A]);
    assert!(matches!(m.data[0].mode, DataMode::Active { memory: 0, offset: ConstExpr::Const(Value::I32(4)) }));
}

#[test]
fn invalid_utf8_name() {
    let export: &[u8] = &[0x07, 0x05, 0x01, 0x01, 0xFF, 0x00, 0x00];
    let e = compile(&with_sections(&[TYPE_VOID, FUNC_ONE, export, CODE_END])).unwrap_err();
    assert!(matches!(e.kind, ErrorKind::InvalidUtf8));
    assert_eq!(e.offset, 22);
}

#[test]
fn element_segments() {
    let elems: &[u8] = &[
        0x09, 17, 0x02, 0x00, 0x41, 0x00, 0x0B, 0x02, 0x00, 0x01, 0x05, 0x70, 0x02, 0xD2, 0x00, 0x0B, 0xD0,
        0x70, 0x0B,
    ];
    let m = compile(&with_sections(&[elems])).unwrap();
    assert_eq!(m.elems.len(), 2);
    assert_eq!(m.elems[0].mode, ElemMode::Active { table: 0, offset: ConstExpr::Const(Value::I32(0)) });
    assert_eq!(m.elems[0].init, vec![Some(0), Some(1)]);
    assert_eq!(m.elems[1].mode, ElemMode::Passive);
    assert_eq!(m.elems[1].ref_type, RefType::FuncRef);
    assert_eq!(m.elems[1].init, vec![Some(0), None]);
    let e = compile(&with_sections(&[&[0x09, 0x02, 0x01, 0x08]])).unwrap_err();
    assert!(matches!(e.kind, ErrorKind::InvalidValue));
    assert_eq!(e.offset, 11);
}
