//! The module decoder: a spec-level decoder over byte sequences, and the
//! executable decoder proved to return exactly what it describes.
use vstd::prelude::*;
use vstd::utf8::{decode_utf8, valid_utf8};
use crate::leb128::{
    decode_sleb128, decode_uleb128, lemma_terminated_len_skip, spec_decode_sleb, spec_decode_uleb,
    terminated_len, MAX_LEB128_LEN,
};
use crate::instr::{plain_instr, spec_plain_instr, Instr};
use crate::module::{
    lemma_models_empty, lemma_models_push, models, ConstExpr, Data, DataMode, DataModel, FuncType,
    FuncTypeModel, Function, FunctionModel, GlobalDef, GlobalType, Import, ImportKind, ImportModel,
    Export, ExportModel, LocalGroup, ParsedBody, TableType, Custom, CustomModel, Module,
    ModuleModel, ElemMode, Element, ElementModel,
};
use crate::value::{ExportDesc, GlobalMut, Limit, RefType, ValType, Value};

verus! {

/// The classes of decode errors.
#[derive(Debug, Clone, Copy, PartialEq, Eq, Structural)]
pub enum ErrorKind {
    InvalidBinaryMagic,
    InvalidBinaryVersion,
    InvalidSectionFormat,
    InvalidInstruction,
    InvalidValue,
    MissingSection,
    MalformedInteger,
    InvalidUtf8,
}

/// A decode error: its class, the byte offset at which it was found, and a
/// human-readable message.
#[derive(Debug)]
pub struct Error {
    pub message: String,
    pub kind: ErrorKind,
    pub offset: usize,
}

/// A failure of the spec-level decoder: class and offset.
pub type Failure = (ErrorKind, int);

/// A spec-level decoding result: the value read and the position after it.
pub type Decoded<T> = Result<(T, int), Failure>;

/// An executable result agrees with a spec-level one.
pub open spec fn agrees<T: View>(r: Result<(T, usize), Error>, m: Decoded<T::V>) -> bool {
    match r {
        Ok((x, q)) => m == Ok::<(T::V, int), Failure>((x@, q as int)),
        Err(e) => m == Err::<(T::V, int), Failure>((e.kind, e.offset as int)),
    }
}

/// As `agrees`, for a vector read item by item.
pub open spec fn agrees_all<T: View>(r: Result<(Vec<T>, usize), Error>, m: Decoded<Seq<T::V>>) -> bool {
    match r {
        Ok((x, q)) => m == Ok::<(Seq<T::V>, int), Failure>((models(x@), q as int)),
        Err(e) => m == Err::<(Seq<T::V>, int), Failure>((e.kind, e.offset as int)),
    }
}

/// An executable result that, when it succeeds, moves forward within `s`.
pub open spec fn advances<T>(r: Result<(T, usize), Error>, p: int, len: int) -> bool {
    match r {
        Ok((_, q)) => p < q <= len,
        Err(_) => true,
    }
}

fn fail<T>(kind: ErrorKind, offset: usize, message: &str) -> (r: Result<T, Error>)
    ensures
        r matches Err(e) && e.kind == kind && e.offset == offset,
{
    Err(Error { message: message.to_owned(), kind, offset })
}

// ---------------------------------------------------------------- primitives

pub open spec fn spec_byte(s: Seq<u8>, p: int) -> Decoded<u8> {
    if 0 <= p < s.len() {
        Ok((s[p], p + 1))
    } else {
        Err((ErrorKind::InvalidSectionFormat, p))
    }
}

/// The integer encoding at `p` runs into the end of `s`: every byte left has
/// the continuation bit, and fewer bytes are left than a complete encoding
/// may take. Inside a section, that is an item running past the section's
/// declared end.
pub open spec fn runs_off(s: Seq<u8>, p: int) -> bool {
    terminated_len(s.subrange(p, s.len() as int)) is None && s.len() - p < MAX_LEB128_LEN
}

/// The failure for an integer at `p` that does not decode: a section-format
/// error when it runs into the end of `s`, a malformed integer otherwise.
pub open spec fn integer_failure(s: Seq<u8>, p: int) -> Failure {
    if runs_off(s, p) {
        (ErrorKind::InvalidSectionFormat, p)
    } else {
        (ErrorKind::MalformedInteger, p)
    }
}

pub open spec fn spec_u32(s: Seq<u8>, p: int) -> Decoded<u32> {
    if 0 <= p <= s.len() {
        match spec_decode_uleb(s.subrange(p, s.len() as int)) {
            Some((v, n)) => if v <= u32::MAX {
                Ok((v as u32, p + n))
            } else {
                Err((ErrorKind::MalformedInteger, p))
            },
            None => Err(integer_failure(s, p)),
        }
    } else {
        Err((ErrorKind::InvalidSectionFormat, p))
    }
}

pub open spec fn spec_i64(s: Seq<u8>, p: int) -> Decoded<i64> {
    if 0 <= p <= s.len() {
        match spec_decode_sleb(s.subrange(p, s.len() as int)) {
            Some((v, n)) => Ok((v, p + n)),
            None => Err(integer_failure(s, p)),
        }
    } else {
        Err((ErrorKind::InvalidSectionFormat, p))
    }
}

pub open spec fn spec_i32(s: Seq<u8>, p: int) -> Decoded<i32> {
    match spec_i64(s, p) {
        Ok((v, q)) => if i32::MIN <= v <= i32::MAX {
            Ok((v as i32, q))
        } else {
            Err((ErrorKind::MalformedInteger, p))
        },
        Err(e) => Err(e),
    }
}

/// The little-endian number in `s[p..p + n]`.
pub open spec fn le_value(s: Seq<u8>, p: int, n: nat) -> nat
    decreases n,
{
    if n == 0 {
        0
    } else {
        s[p] as nat + 256 * le_value(s, p + 1, (n - 1) as nat)
    }
}

/// A fixed-width little-endian field of `n` bytes.
pub open spec fn spec_fixed(s: Seq<u8>, p: int, n: nat) -> Decoded<nat> {
    if 0 <= p && p + n <= s.len() {
        Ok((le_value(s, p, n), p + n))
    } else {
        Err((ErrorKind::InvalidSectionFormat, p))
    }
}

pub open spec fn spec_valtype(s: Seq<u8>, p: int) -> Decoded<ValType> {
    match spec_byte(s, p) {
        Ok((b, q)) => match ValType::spec_from_byte(b) {
            Some(t) => Ok((t, q)),
            None => Err((ErrorKind::InvalidValue, p)),
        },
        Err(e) => Err(e),
    }
}

pub open spec fn spec_bytes(s: Seq<u8>, p: int, n: nat) -> Decoded<Seq<u8>> {
    if 0 <= p && p + n <= s.len() {
        Ok((s.subrange(p, p + n), p + n))
    } else {
        Err((ErrorKind::InvalidSectionFormat, p))
    }
}

/// A length-prefixed byte vector.
pub open spec fn spec_byte_vec(s: Seq<u8>, p: int) -> Decoded<Seq<u8>> {
    match spec_u32(s, p) {
        Ok((n, q)) => spec_bytes(s, q, n as nat),
        Err(e) => Err(e),
    }
}

/// A length-prefixed UTF-8 string.
pub open spec fn spec_name(s: Seq<u8>, p: int) -> Decoded<Seq<char>> {
    match spec_u32(s, p) {
        Ok((n, q)) => match spec_bytes(s, q, n as nat) {
            Ok((b, r)) => if valid_utf8(b) {
                Ok((decode_utf8(b), r))
            } else {
                Err((ErrorKind::InvalidUtf8, q))
            },
            Err(e) => Err(e),
        },
        Err(e) => Err(e),
    }
}

fn read_byte(s: &[u8], p: usize) -> (r: Result<(u8, usize), Error>)
    ensures
        agrees(r, spec_byte(s@, p as int)),
        advances(r, p as int, s@.len() as int),
{
    if p < s.len() {
        Ok((s[p], p + 1))
    } else {
        fail(ErrorKind::InvalidSectionFormat, p, "unexpected end of section")
    }
}

/// The error for an integer at `p` that does not decode.
fn integer_error<T>(s: &[u8], p: usize) -> (r: Result<T, Error>)
    requires
        p <= s@.len(),
    ensures
        r matches Err(e) && (e.kind, e.offset as int) == integer_failure(s@, p as int),
{
    let len = s.len();
    let ghost t = s@.subrange(p as int, len as int);
    let mut k: usize = p;
    while k < len
        invariant
            p <= k <= len,
            len == s@.len(),
            t == s@.subrange(p as int, len as int),
            forall|j: int| 0 <= j < k - p ==> t[j] >= 128,
        decreases len - k,
    {
        if s[k] < 128 {
            proof {
                lemma_terminated_len_skip(t, k - p);
                assert(t.subrange(k - p, t.len() as int)[0] == s@[k as int]);
            }
            return fail(ErrorKind::MalformedInteger, p, "malformed integer");
        }
        k = k + 1;
    }
    proof {
        lemma_terminated_len_skip(t, (len - p) as int);
        assert(t.subrange((len - p) as int, t.len() as int).len() == 0);
    }
    if len - p < MAX_LEB128_LEN {
        fail(ErrorKind::InvalidSectionFormat, p, "integer runs past the end of its section")
    } else {
        fail(ErrorKind::MalformedInteger, p, "malformed integer")
    }
}

fn read_u32(s: &[u8], p: usize) -> (r: Result<(u32, usize), Error>)
    ensures
        agrees(r, spec_u32(s@, p as int)),
        advances(r, p as int, s@.len() as int),
{
    if p > s.len() {
        return fail(ErrorKind::InvalidSectionFormat, p, "integer beyond the end");
    }
    match decode_uleb128(&s[p..s.len()]) {
        Some((v, n)) => {
            if v > u32::MAX as u64 {
                fail(ErrorKind::MalformedInteger, p, "integer too large")
            } else {
                Ok((v as u32, p + n))
            }
        },
        None => integer_error(s, p),
    }
}

fn read_i64(s: &[u8], p: usize) -> (r: Result<(i64, usize), Error>)
    ensures
        agrees(r, spec_i64(s@, p as int)),
        advances(r, p as int, s@.len() as int),
{
    if p > s.len() {
        return fail(ErrorKind::InvalidSectionFormat, p, "integer beyond the end");
    }
    match decode_sleb128(&s[p..s.len()]) {
        Some((v, n)) => Ok((v, p + n)),
        None => integer_error(s, p),
    }
}

fn read_i32(s: &[u8], p: usize) -> (r: Result<(i32, usize), Error>)
    ensures
        agrees(r, spec_i32(s@, p as int)),
        advances(r, p as int, s@.len() as int),
{
    let (v, q) = read_i64(s, p)?;
    if v < i32::MIN as i64 || v > i32::MAX as i64 {
        fail(ErrorKind::MalformedInteger, p, "integer too large")
    } else {
        Ok((v as i32, q))
    }
}

fn read_fixed(s: &[u8], p: usize, n: usize) -> (r: Result<(u64, usize), Error>)
    requires
        n <= 8,
    ensures
        match r {
            Ok((v, q)) => spec_fixed(s@, p as int, n as nat) == Ok::<(nat, int), Failure>((
                v as nat,
                q as int,
            )),
            Err(e) => spec_fixed(s@, p as int, n as nat) == Err::<(nat, int), Failure>((
                e.kind,
                e.offset as int,
            )),
        },
        advances(r, p as int, s@.len() as int) || n == 0,
{
    if p > s.len() || n > s.len() - p {
        return fail(ErrorKind::InvalidSectionFormat, p, "unexpected end of section");
    }
    let len = s.len();
    let mut v: u64 = 0;
    let mut k: usize = n;
    proof {
        assert(le_value(s@, p + n, 0) == 0);
        assert(pow256(8) == 0x1_0000_0000_0000_0000) by {
            reveal_with_fuel(pow256, 9);
        }
        assert(pow256(0) == 1);
    }
    while k > 0
        invariant
            k <= n <= 8,
            len == s@.len(),
            p + n <= len,
            v as nat == le_value(s@, p + k, (n - k) as nat),
            v < pow256((n - k) as nat),
            pow256(8) == 0x1_0000_0000_0000_0000,
        decreases k,
    {
        k = k - 1;
        proof {
            lemma_pow256_mono((n - k - 1) as nat, 7);
            assert(pow256(7) == 0x100_0000_0000_0000) by {
                reveal_with_fuel(pow256, 8);
            }
        }
        v = v * 256 + s[p + k] as u64;
    }
    Ok((v, p + n))
}

pub open spec fn pow256(n: nat) -> nat
    decreases n,
{
    if n == 0 {
        1
    } else {
        256 * pow256((n - 1) as nat)
    }
}

proof fn lemma_pow256_mono(a: nat, b: nat)
    requires
        a <= b,
    ensures
        1 <= pow256(a) <= pow256(b),
    decreases b,
{
    if b > 0 {
        lemma_pow256_mono(if a < b { a } else { (b - 1) as nat }, (b - 1) as nat);
    }
}

fn read_valtype(s: &[u8], p: usize) -> (r: Result<(ValType, usize), Error>)
    ensures
        agrees(r, spec_valtype(s@, p as int)),
        advances(r, p as int, s@.len() as int),
{
    let (b, q) = read_byte(s, p)?;
    match ValType::from_byte(b) {
        Some(t) => Ok((t, q)),
        None => fail(ErrorKind::InvalidValue, p, "invalid value type"),
    }
}

fn copy_bytes(s: &[u8], p: usize, n: usize) -> (r: Vec<u8>)
    requires
        p + n <= s@.len(),
    ensures
        r@ == s@.subrange(p as int, p + n),
{
    let len = s.len();
    let mut v: Vec<u8> = Vec::new();
    let mut i: usize = 0;
    while i < n
        invariant
            i <= n,
            len == s@.len(),
            p + n <= len,
            v@ == s@.subrange(p as int, p + i),
        decreases n - i,
    {
        v.push(s[p + i]);
        i = i + 1;
        assert(v@ =~= s@.subrange(p as int, p + i));
    }
    v
}

/// A copy of `s`.
pub fn copy_all(s: &[u8]) -> (r: Vec<u8>)
    ensures
        r@ == s@,
{
    let r = copy_bytes(s, 0, s.len());
    assert(s@.subrange(0, s@.len() as int) =~= s@);
    r
}

fn read_bytes(s: &[u8], p: usize, n: u32) -> (r: Result<(Vec<u8>, usize), Error>)
    ensures
        agrees(r, spec_bytes(s@, p as int, n as nat)),
        advances(r, p as int, s@.len() as int) || n == 0,
        r matches Ok((_, q)) ==> q <= s@.len(),
{
    if p > s.len() || n as usize > s.len() - p {
        return fail(ErrorKind::InvalidSectionFormat, p, "unexpected end of section");
    }
    Ok((copy_bytes(s, p, n as usize), p + n as usize))
}

fn read_byte_vec(s: &[u8], p: usize) -> (r: Result<(Vec<u8>, usize), Error>)
    ensures
        agrees(r, spec_byte_vec(s@, p as int)),
        advances(r, p as int, s@.len() as int),
{
    let (n, q) = read_u32(s, p)?;
    read_bytes(s, q, n)
}

/// Relies on `String::from_utf8`: it succeeds exactly on valid UTF-8, and the
/// string then holds the characters that the bytes encode.
#[verifier::external_body]
fn string_from_utf8(b: Vec<u8>) -> (r: Option<String>)
    ensures
        r is Some <==> valid_utf8(b@),
        r matches Some(t) ==> t@ == decode_utf8(b@),
{
    String::from_utf8(b).ok()
}

fn read_name(s: &[u8], p: usize) -> (r: Result<(String, usize), Error>)
    ensures
        agrees(r, spec_name(s@, p as int)),
        advances(r, p as int, s@.len() as int),
{
    let (n, q) = read_u32(s, p)?;
    let (b, r) = read_bytes(s, q, n)?;
    match string_from_utf8(b) {
        Some(t) => Ok((t, r)),
        None => fail(ErrorKind::InvalidUtf8, q, "invalid UTF-8 in a name"),
    }
}

// ---------------------------------------------------------------- types

pub open spec fn spec_valtypes(s: Seq<u8>, p: int, n: nat, acc: Seq<ValType>) -> Decoded<
    Seq<ValType>,
>
    decreases n,
{
    if n == 0 {
        Ok((acc, p))
    } else {
        match spec_valtype(s, p) {
            Ok((t, q)) => spec_valtypes(s, q, (n - 1) as nat, acc.push(t)),
            Err(e) => Err(e),
        }
    }
}

/// A length-prefixed vector of value types.
pub open spec fn spec_valtype_vec(s: Seq<u8>, p: int) -> Decoded<Seq<ValType>> {
    match spec_u32(s, p) {
        Ok((n, q)) => spec_valtypes(s, q, n as nat, Seq::empty()),
        Err(e) => Err(e),
    }
}

/// A function type: `0x60`, parameter types, result types.
pub open spec fn spec_functype(s: Seq<u8>, p: int) -> Decoded<FuncTypeModel> {
    match spec_byte(s, p) {
        Ok((b, q)) => if b != 0x60 {
            Err((ErrorKind::InvalidValue, p))
        } else {
            match spec_valtype_vec(s, q) {
                Ok((params, q2)) => match spec_valtype_vec(s, q2) {
                    Ok((results, q3)) => Ok((FuncTypeModel { params, results }, q3)),
                    Err(e) => Err(e),
                },
                Err(e) => Err(e),
            }
        },
        Err(e) => Err(e),
    }
}

fn read_valtype_vec(s: &[u8], p: usize) -> (r: Result<(Vec<ValType>, usize), Error>)
    ensures
        agrees(r, spec_valtype_vec(s@, p as int)),
        advances(r, p as int, s@.len() as int),
{
    let (n, mut q) = read_u32(s, p)?;
    let mut v: Vec<ValType> = Vec::new();
    let mut i: u32 = 0;
    while i < n
        invariant
            i <= n,
            p < q <= s@.len(),
            spec_valtype_vec(s@, p as int) == spec_valtypes(s@, q as int, (n - i) as nat, v@),
        decreases n - i,
    {
        let (t, q2) = read_valtype(s, q)?;
        v.push(t);
        q = q2;
        i = i + 1;
    }
    Ok((v, q))
}

fn read_functype(s: &[u8], p: usize) -> (r: Result<(FuncType, usize), Error>)
    ensures
        agrees(r, spec_functype(s@, p as int)),
        advances(r, p as int, s@.len() as int),
{
    let (b, q) = read_byte(s, p)?;
    if b != 0x60 {
        return fail(ErrorKind::InvalidValue, p, "not a function type");
    }
    let (params, q2) = read_valtype_vec(s, q)?;
    let (results, q3) = read_valtype_vec(s, q2)?;
    Ok((FuncType { params, results }, q3))
}

pub open spec fn spec_limits(s: Seq<u8>, p: int) -> Decoded<Limit> {
    match spec_byte(s, p) {
        Ok((flag, q)) => if flag == 0 {
            match spec_u32(s, q) {
                Ok((min, q2)) => Ok((Limit { min, max: None }, q2)),
                Err(e) => Err(e),
            }
        } else if flag == 1 {
            match spec_u32(s, q) {
                Ok((min, q2)) => match spec_u32(s, q2) {
                    Ok((max, q3)) => Ok((Limit { min, max: Some(max) }, q3)),
                    Err(e) => Err(e),
                },
                Err(e) => Err(e),
            }
        } else {
            Err((ErrorKind::InvalidValue, p))
        },
        Err(e) => Err(e),
    }
}

fn read_limits(s: &[u8], p: usize) -> (r: Result<(Limit, usize), Error>)
    ensures
        agrees(r, spec_limits(s@, p as int)),
        advances(r, p as int, s@.len() as int),
{
    let (flag, q) = read_byte(s, p)?;
    if flag == 0 {
        let (min, q2) = read_u32(s, q)?;
        Ok((Limit { min, max: None }, q2))
    } else if flag == 1 {
        let (min, q2) = read_u32(s, q)?;
        let (max, q3) = read_u32(s, q2)?;
        Ok((Limit { min, max: Some(max) }, q3))
    } else {
        fail(ErrorKind::InvalidValue, p, "invalid limits flag")
    }
}

pub open spec fn spec_tabletype(s: Seq<u8>, p: int) -> Decoded<TableType> {
    match spec_byte(s, p) {
        Ok((b, q)) => match RefType::spec_from_byte(b) {
            Some(ref_type) => match spec_limits(s, q) {
                Ok((limit, q2)) => Ok((TableType { ref_type, limit }, q2)),
                Err(e) => Err(e),
            },
            None => Err((ErrorKind::InvalidValue, p)),
        },
        Err(e) => Err(e),
    }
}

fn read_tabletype(s: &[u8], p: usize) -> (r: Result<(TableType, usize), Error>)
    ensures
        agrees(r, spec_tabletype(s@, p as int)),
        advances(r, p as int, s@.len() as int),
{
    let (b, q) = read_byte(s, p)?;
    match RefType::from_byte(b) {
        Some(ref_type) => {
            let (limit, q2) = read_limits(s, q)?;
            Ok((TableType { ref_type, limit }, q2))
        },
        None => fail(ErrorKind::InvalidValue, p, "invalid reference type"),
    }
}

pub open spec fn spec_globaltype(s: Seq<u8>, p: int) -> Decoded<GlobalType> {
    match spec_valtype(s, p) {
        Ok((valtype, q)) => match spec_byte(s, q) {
            Ok((b, q2)) => match GlobalMut::spec_from_byte(b) {
                Some(mutability) => Ok((GlobalType { valtype, mutability }, q2)),
                None => Err((ErrorKind::InvalidValue, q)),
            },
            Err(e) => Err(e),
        },
        Err(e) => Err(e),
    }
}

fn read_globaltype(s: &[u8], p: usize) -> (r: Result<(GlobalType, usize), Error>)
    ensures
        agrees(r, spec_globaltype(s@, p as int)),
        advances(r, p as int, s@.len() as int),
{
    let (valtype, q) = read_valtype(s, p)?;
    let (b, q2) = read_byte(s, q)?;
    match GlobalMut::from_byte(b) {
        Some(mutability) => Ok((GlobalType { valtype, mutability }, q2)),
        None => fail(ErrorKind::InvalidValue, q, "invalid global mutability"),
    }
}

/// A constant expression: one constant or `global.get`, then `end`.
pub open spec fn spec_const_expr(s: Seq<u8>, p: int) -> Decoded<ConstExpr> {
    let operand: Decoded<ConstExpr> = match spec_byte(s, p) {
        Ok((op, q)) => if op == 0x41 {
            match spec_i32(s, q) {
                Ok((v, q2)) => Ok((ConstExpr::Const(Value::I32(v)), q2)),
                Err(e) => Err(e),
            }
        } else if op == 0x42 {
            match spec_i64(s, q) {
                Ok((v, q2)) => Ok((ConstExpr::Const(Value::I64(v)), q2)),
                Err(e) => Err(e),
            }
        } else if op == 0x43 {
            match spec_fixed(s, q, 4) {
                Ok((v, q2)) => Ok((ConstExpr::Const(Value::F32(v as u32)), q2)),
                Err(e) => Err(e),
            }
        } else if op == 0x44 {
            match spec_fixed(s, q, 8) {
                Ok((v, q2)) => Ok((ConstExpr::Const(Value::F64(v as u64)), q2)),
                Err(e) => Err(e),
            }
        } else if op == 0x23 {
            match spec_u32(s, q) {
                Ok((i, q2)) => Ok((ConstExpr::GlobalGet(i), q2)),
                Err(e) => Err(e),
            }
        } else {
            Err((ErrorKind::InvalidInstruction, p))
        },
        Err(e) => Err(e),
    };
    match operand {
        Ok((c, q)) => match spec_byte(s, q) {
            Ok((b, q2)) => if b == 0x0B {
                Ok((c, q2))
            } else {
                Err((ErrorKind::InvalidInstruction, q))
            },
            Err(e) => Err(e),
        },
        Err(e) => Err(e),
    }
}

fn read_const_operand(s: &[u8], p: usize) -> (r: Result<(ConstExpr, usize), Error>)
    ensures
        agrees(
            r,
            match spec_byte(s@, p as int) {
                Ok((op, q)) => if op == 0x41 {
                    match spec_i32(s@, q) {
                        Ok((v, q2)) => Ok((ConstExpr::Const(Value::I32(v)), q2)),
                        Err(e) => Err(e),
                    }
                } else if op == 0x42 {
                    match spec_i64(s@, q) {
                        Ok((v, q2)) => Ok((ConstExpr::Const(Value::I64(v)), q2)),
                        Err(e) => Err(e),
                    }
                } else if op == 0x43 {
                    match spec_fixed(s@, q, 4) {
                        Ok((v, q2)) => Ok((ConstExpr::Const(Value::F32(v as u32)), q2)),
                        Err(e) => Err(e),
                    }
                } else if op == 0x44 {
                    match spec_fixed(s@, q, 8) {
                        Ok((v, q2)) => Ok((ConstExpr::Const(Value::F64(v as u64)), q2)),
                        Err(e) => Err(e),
                    }
                } else if op == 0x23 {
                    match spec_u32(s@, q) {
                        Ok((i, q2)) => Ok((ConstExpr::GlobalGet(i), q2)),
                        Err(e) => Err(e),
                    }
                } else {
                    Err((ErrorKind::InvalidInstruction, p as int))
                },
                Err(e) => Err(e),
            },
        ),
        advances(r, p as int, s@.len() as int),
{
    let (op, q) = read_byte(s, p)?;
    if op == 0x41 {
        let (v, q2) = read_i32(s, q)?;
        Ok((ConstExpr::Const(Value::I32(v)), q2))
    } else if op == 0x42 {
        let (v, q2) = read_i64(s, q)?;
        Ok((ConstExpr::Const(Value::I64(v)), q2))
    } else if op == 0x43 {
        let (v, q2) = read_fixed(s, q, 4)?;
        Ok((ConstExpr::Const(Value::F32(v as u32)), q2))
    } else if op == 0x44 {
        let (v, q2) = read_fixed(s, q, 8)?;
        Ok((ConstExpr::Const(Value::F64(v)), q2))
    } else if op == 0x23 {
        let (i, q2) = read_u32(s, q)?;
        Ok((ConstExpr::GlobalGet(i), q2))
    } else {
        fail(ErrorKind::InvalidInstruction, p, "not a constant instruction")
    }
}

fn read_const_expr(s: &[u8], p: usize) -> (r: Result<(ConstExpr, usize), Error>)
    ensures
        agrees(r, spec_const_expr(s@, p as int)),
        advances(r, p as int, s@.len() as int),
{
    let (c, q) = read_const_operand(s, p)?;
    let (b, q2) = read_byte(s, q)?;
    if b == 0x0B {
        Ok((c, q2))
    } else {
        fail(ErrorKind::InvalidInstruction, q, "constant expression not terminated")
    }
}

pub open spec fn spec_global(s: Seq<u8>, p: int) -> Decoded<GlobalDef> {
    match spec_globaltype(s, p) {
        Ok((ty, q)) => match spec_const_expr(s, q) {
            Ok((init, q2)) => Ok((GlobalDef { ty, init }, q2)),
            Err(e) => Err(e),
        },
        Err(e) => Err(e),
    }
}

fn read_global(s: &[u8], p: usize) -> (r: Result<(GlobalDef, usize), Error>)
    ensures
        agrees(r, spec_global(s@, p as int)),
        advances(r, p as int, s@.len() as int),
{
    let (ty, q) = read_globaltype(s, p)?;
    let (init, q2) = read_const_expr(s, q)?;
    Ok((GlobalDef { ty, init }, q2))
}

pub open spec fn spec_import(s: Seq<u8>, p: int) -> Decoded<ImportModel> {
    match spec_name(s, p) {
        Ok((module_name, q)) => match spec_name(s, q) {
            Ok((field_name, q2)) => {
                let kind: Decoded<ImportKind> = match spec_byte(s, q2) {
                    Ok((k, q3)) => if k == 0 {
                        match spec_u32(s, q3) {
                            Ok((i, q4)) => Ok((ImportKind::TypeIdx(i), q4)),
                            Err(e) => Err(e),
                        }
                    } else if k == 1 {
                        match spec_tabletype(s, q3) {
                            Ok((t, q4)) => Ok((ImportKind::TableType(t), q4)),
                            Err(e) => Err(e),
                        }
                    } else if k == 2 {
                        match spec_limits(s, q3) {
                            Ok((l, q4)) => Ok((ImportKind::MemType(l), q4)),
                            Err(e) => Err(e),
                        }
                    } else if k == 3 {
                        match spec_globaltype(s, q3) {
                            Ok((g, q4)) => Ok((ImportKind::GlobalType(g), q4)),
                            Err(e) => Err(e),
                        }
                    } else {
                        Err((ErrorKind::InvalidValue, q2))
                    },
                    Err(e) => Err(e),
                };
                match kind {
                    Ok((kind, q4)) => Ok((ImportModel { module_name, field_name, kind }, q4)),
                    Err(e) => Err(e),
                }
            },
            Err(e) => Err(e),
        },
        Err(e) => Err(e),
    }
}

fn read_import(s: &[u8], p: usize) -> (r: Result<(Import, usize), Error>)
    ensures
        agrees(r, spec_import(s@, p as int)),
        advances(r, p as int, s@.len() as int),
{
    let (module_name, q) = read_name(s, p)?;
    let (field_name, q2) = read_name(s, q)?;
    let (k, q3) = read_byte(s, q2)?;
    let (kind, q4) = if k == 0 {
        let (i, q4) = read_u32(s, q3)?;
        (ImportKind::TypeIdx(i), q4)
    } else if k == 1 {
        let (t, q4) = read_tabletype(s, q3)?;
        (ImportKind::TableType(t), q4)
    } else if k == 2 {
        let (l, q4) = read_limits(s, q3)?;
        (ImportKind::MemType(l), q4)
    } else if k == 3 {
        let (g, q4) = read_globaltype(s, q3)?;
        (ImportKind::GlobalType(g), q4)
    } else {
        return fail(ErrorKind::InvalidValue, q2, "invalid import kind");
    };
    Ok((Import { module_name, field_name, kind }, q4))
}

pub open spec fn spec_export(s: Seq<u8>, p: int) -> Decoded<ExportModel> {
    match spec_name(s, p) {
        Ok((name, q)) => match spec_byte(s, q) {
            Ok((b, q2)) => match ExportDesc::spec_from_byte(b) {
                Some(desc) => match spec_u32(s, q2) {
                    Ok((idx, q3)) => Ok((ExportModel { name, desc, idx }, q3)),
                    Err(e) => Err(e),
                },
                None => Err((ErrorKind::InvalidValue, q)),
            },
            Err(e) => Err(e),
        },
        Err(e) => Err(e),
    }
}

fn read_export(s: &[u8], p: usize) -> (r: Result<(Export, usize), Error>)
    ensures
        agrees(r, spec_export(s@, p as int)),
        advances(r, p as int, s@.len() as int),
{
    let (name, q) = read_name(s, p)?;
    let (b, q2) = read_byte(s, q)?;
    match ExportDesc::from_byte(b) {
        Some(desc) => {
            let (idx, q3) = read_u32(s, q2)?;
            Ok((Export { name, desc, idx }, q3))
        },
        None => fail(ErrorKind::InvalidValue, q, "invalid export kind"),
    }
}

// ---------------------------------------------------------------- item vectors

pub open spec fn spec_functypes(s: Seq<u8>, p: int, n: nat, acc: Seq<FuncTypeModel>) -> Decoded<Seq<FuncTypeModel>>
    decreases n,
{
    if n == 0 {
        Ok((acc, p))
    } else {
        match spec_functype(s, p) {
            Ok((x, q)) => spec_functypes(s, q, (n - 1) as nat, acc.push(x)),
            Err(e) => Err(e),
        }
    }
}

/// A length-prefixed vector.
pub open spec fn spec_functype_vec(s: Seq<u8>, p: int) -> Decoded<Seq<FuncTypeModel>> {
    match spec_u32(s, p) {
        Ok((n, q)) => spec_functypes(s, q, n as nat, Seq::empty()),
        Err(e) => Err(e),
    }
}

fn read_functype_vec(s: &[u8], p: usize) -> (r: Result<(Vec<FuncType>, usize), Error>)
    ensures
        agrees_all(r, spec_functype_vec(s@, p as int)),
        advances(r, p as int, s@.len() as int),
{
    let (n, mut q) = read_u32(s, p)?;
    let mut v: Vec<FuncType> = Vec::new();
    let mut i: u32 = 0;
    proof {
        lemma_models_empty::<FuncType>();
    }
    while i < n
        invariant
            i <= n,
            p < q <= s@.len(),
            spec_functype_vec(s@, p as int) == spec_functypes(s@, q as int, (n - i) as nat, models(v@)),
        decreases n - i,
    {
        let (x, q2) = read_functype(s, q)?;
        proof {
            lemma_models_push(v@, x);
        }
        v.push(x);
        q = q2;
        i = i + 1;
    }
    Ok((v, q))
}

pub open spec fn spec_imports(s: Seq<u8>, p: int, n: nat, acc: Seq<ImportModel>) -> Decoded<Seq<ImportModel>>
    decreases n,
{
    if n == 0 {
        Ok((acc, p))
    } else {
        match spec_import(s, p) {
            Ok((x, q)) => spec_imports(s, q, (n - 1) as nat, acc.push(x)),
            Err(e) => Err(e),
        }
    }
}

/// A length-prefixed vector.
pub open spec fn spec_import_vec(s: Seq<u8>, p: int) -> Decoded<Seq<ImportModel>> {
    match spec_u32(s, p) {
        Ok((n, q)) => spec_imports(s, q, n as nat, Seq::empty()),
        Err(e) => Err(e),
    }
}

fn read_import_vec(s: &[u8], p: usize) -> (r: Result<(Vec<Import>, usize), Error>)
    ensures
        agrees_all(r, spec_import_vec(s@, p as int)),
        advances(r, p as int, s@.len() as int),
{
    let (n, mut q) = read_u32(s, p)?;
    let mut v: Vec<Import> = Vec::new();
    let mut i: u32 = 0;
    proof {
        lemma_models_empty::<Import>();
    }
    while i < n
        invariant
            i <= n,
            p < q <= s@.len(),
            spec_import_vec(s@, p as int) == spec_imports(s@, q as int, (n - i) as nat, models(v@)),
        decreases n - i,
    {
        let (x, q2) = read_import(s, q)?;
        proof {
            lemma_models_push(v@, x);
        }
        v.push(x);
        q = q2;
        i = i + 1;
    }
    Ok((v, q))
}

pub open spec fn spec_exports(s: Seq<u8>, p: int, n: nat, acc: Seq<ExportModel>) -> Decoded<Seq<ExportModel>>
    decreases n,
{
    if n == 0 {
        Ok((acc, p))
    } else {
        match spec_export(s, p) {
            Ok((x, q)) => spec_exports(s, q, (n - 1) as nat, acc.push(x)),
            Err(e) => Err(e),
        }
    }
}

/// A length-prefixed vector.
pub open spec fn spec_export_vec(s: Seq<u8>, p: int) -> Decoded<Seq<ExportModel>> {
    match spec_u32(s, p) {
        Ok((n, q)) => spec_exports(s, q, n as nat, Seq::empty()),
        Err(e) => Err(e),
    }
}

fn read_export_vec(s: &[u8], p: usize) -> (r: Result<(Vec<Export>, usize), Error>)
    ensures
        agrees_all(r, spec_export_vec(s@, p as int)),
        advances(r, p as int, s@.len() as int),
{
    let (n, mut q) = read_u32(s, p)?;
    let mut v: Vec<Export> = Vec::new();
    let mut i: u32 = 0;
    proof {
        lemma_models_empty::<Export>();
    }
    while i < n
        invariant
            i <= n,
            p < q <= s@.len(),
            spec_export_vec(s@, p as int) == spec_exports(s@, q as int, (n - i) as nat, models(v@)),
        decreases n - i,
    {
        let (x, q2) = read_export(s, q)?;
        proof {
            lemma_models_push(v@, x);
        }
        v.push(x);
        q = q2;
        i = i + 1;
    }
    Ok((v, q))
}

pub open spec fn spec_indexs(s: Seq<u8>, p: int, n: nat, acc: Seq<u32>) -> Decoded<Seq<u32>>
    decreases n,
{
    if n == 0 {
        Ok((acc, p))
    } else {
        match spec_u32(s, p) {
            Ok((x, q)) => spec_indexs(s, q, (n - 1) as nat, acc.push(x)),
            Err(e) => Err(e),
        }
    }
}

/// A length-prefixed vector.
pub open spec fn spec_index_vec(s: Seq<u8>, p: int) -> Decoded<Seq<u32>> {
    match spec_u32(s, p) {
        Ok((n, q)) => spec_indexs(s, q, n as nat, Seq::empty()),
        Err(e) => Err(e),
    }
}

fn read_index_vec(s: &[u8], p: usize) -> (r: Result<(Vec<u32>, usize), Error>)
    ensures
        agrees(r, spec_index_vec(s@, p as int)),
        advances(r, p as int, s@.len() as int),
{
    let (n, mut q) = read_u32(s, p)?;
    let mut v: Vec<u32> = Vec::new();
    let mut i: u32 = 0;
    while i < n
        invariant
            i <= n,
            p < q <= s@.len(),
            spec_index_vec(s@, p as int) == spec_indexs(s@, q as int, (n - i) as nat, v@),
        decreases n - i,
    {
        let (x, q2) = read_u32(s, q)?;
        v.push(x);
        q = q2;
        i = i + 1;
    }
    Ok((v, q))
}

pub open spec fn spec_tables(s: Seq<u8>, p: int, n: nat, acc: Seq<TableType>) -> Decoded<Seq<TableType>>
    decreases n,
{
    if n == 0 {
        Ok((acc, p))
    } else {
        match spec_tabletype(s, p) {
            Ok((x, q)) => spec_tables(s, q, (n - 1) as nat, acc.push(x)),
            Err(e) => Err(e),
        }
    }
}

/// A length-prefixed vector.
pub open spec fn spec_table_vec(s: Seq<u8>, p: int) -> Decoded<Seq<TableType>> {
    match spec_u32(s, p) {
        Ok((n, q)) => spec_tables(s, q, n as nat, Seq::empty()),
        Err(e) => Err(e),
    }
}

fn read_table_vec(s: &[u8], p: usize) -> (r: Result<(Vec<TableType>, usize), Error>)
    ensures
        agrees(r, spec_table_vec(s@, p as int)),
        advances(r, p as int, s@.len() as int),
{
    let (n, mut q) = read_u32(s, p)?;
    let mut v: Vec<TableType> = Vec::new();
    let mut i: u32 = 0;
    while i < n
        invariant
            i <= n,
            p < q <= s@.len(),
            spec_table_vec(s@, p as int) == spec_tables(s@, q as int, (n - i) as nat, v@),
        decreases n - i,
    {
        let (x, q2) = read_tabletype(s, q)?;
        v.push(x);
        q = q2;
        i = i + 1;
    }
    Ok((v, q))
}

pub open spec fn spec_memorys(s: Seq<u8>, p: int, n: nat, acc: Seq<Limit>) -> Decoded<Seq<Limit>>
    decreases n,
{
    if n == 0 {
        Ok((acc, p))
    } else {
        match spec_limits(s, p) {
            Ok((x, q)) => spec_memorys(s, q, (n - 1) as nat, acc.push(x)),
            Err(e) => Err(e),
        }
    }
}

/// A length-prefixed vector.
pub open spec fn spec_memory_vec(s: Seq<u8>, p: int) -> Decoded<Seq<Limit>> {
    match spec_u32(s, p) {
        Ok((n, q)) => spec_memorys(s, q, n as nat, Seq::empty()),
        Err(e) => Err(e),
    }
}

fn read_memory_vec(s: &[u8], p: usize) -> (r: Result<(Vec<Limit>, usize), Error>)
    ensures
        agrees(r, spec_memory_vec(s@, p as int)),
        advances(r, p as int, s@.len() as int),
{
    let (n, mut q) = read_u32(s, p)?;
    let mut v: Vec<Limit> = Vec::new();
    let mut i: u32 = 0;
    while i < n
        invariant
            i <= n,
            p < q <= s@.len(),
            spec_memory_vec(s@, p as int) == spec_memorys(s@, q as int, (n - i) as nat, v@),
        decreases n - i,
    {
        let (x, q2) = read_limits(s, q)?;
        v.push(x);
        q = q2;
        i = i + 1;
    }
    Ok((v, q))
}

pub open spec fn spec_globals(s: Seq<u8>, p: int, n: nat, acc: Seq<GlobalDef>) -> Decoded<Seq<GlobalDef>>
    decreases n,
{
    if n == 0 {
        Ok((acc, p))
    } else {
        match spec_global(s, p) {
            Ok((x, q)) => spec_globals(s, q, (n - 1) as nat, acc.push(x)),
            Err(e) => Err(e),
        }
    }
}

/// A length-prefixed vector.
pub open spec fn spec_global_vec(s: Seq<u8>, p: int) -> Decoded<Seq<GlobalDef>> {
    match spec_u32(s, p) {
        Ok((n, q)) => spec_globals(s, q, n as nat, Seq::empty()),
        Err(e) => Err(e),
    }
}

fn read_global_vec(s: &[u8], p: usize) -> (r: Result<(Vec<GlobalDef>, usize), Error>)
    ensures
        agrees(r, spec_global_vec(s@, p as int)),
        advances(r, p as int, s@.len() as int),
{
    let (n, mut q) = read_u32(s, p)?;
    let mut v: Vec<GlobalDef> = Vec::new();
    let mut i: u32 = 0;
    while i < n
        invariant
            i <= n,
            p < q <= s@.len(),
            spec_global_vec(s@, p as int) == spec_globals(s@, q as int, (n - i) as nat, v@),
        decreases n - i,
    {
        let (x, q2) = read_global(s, q)?;
        v.push(x);
        q = q2;
        i = i + 1;
    }
    Ok((v, q))
}

// ---------------------------------------------------------------- code

/// One instruction other than `end`, with its immediates.
pub open spec fn spec_instr(s: Seq<u8>, p: int) -> Decoded<Instr> {
    match spec_byte(s, p) {
        Ok((op, q)) => if op == 0x1C {
            match spec_u32(s, q) {
                Ok((n, q2)) => if n != 1 {
                    Err((ErrorKind::InvalidInstruction, q))
                } else {
                    match spec_valtype(s, q2) {
                        Ok((t, q3)) => Ok((Instr::Select(Some(t)), q3)),
                        Err(e) => Err(e),
                    }
                },
                Err(e) => Err(e),
            }
        } else if op == 0x41 {
            match spec_i32(s, q) {
                Ok((v, q2)) => Ok((Instr::I32Const(v), q2)),
                Err(e) => Err(e),
            }
        } else if op == 0x42 {
            match spec_i64(s, q) {
                Ok((v, q2)) => Ok((Instr::I64Const(v), q2)),
                Err(e) => Err(e),
            }
        } else if op == 0x43 {
            match spec_fixed(s, q, 4) {
                Ok((v, q2)) => Ok((Instr::F32Const(v as u32), q2)),
                Err(e) => Err(e),
            }
        } else if op == 0x44 {
            match spec_fixed(s, q, 8) {
                Ok((v, q2)) => Ok((Instr::F64Const(v as u64), q2)),
                Err(e) => Err(e),
            }
        } else {
            match spec_plain_instr(op) {
                Some(instr) => Ok((instr, q)),
                None => Err((ErrorKind::InvalidInstruction, p)),
            }
        },
        Err(e) => Err(e),
    }
}

/// Instructions up to and including the `end` (`0x0B`) that closes the body.
pub open spec fn spec_instrs(s: Seq<u8>, p: int, acc: Seq<Instr>) -> Decoded<Seq<Instr>>
    decreases s.len() - p,
{
    match spec_byte(s, p) {
        Ok((b, q)) => if b == 0x0B {
            Ok((acc, q))
        } else {
            match spec_instr(s, p) {
                Ok((instr, q2)) => if p < q2 <= s.len() {
                    spec_instrs(s, q2, acc.push(instr))
                } else {
                    Err((ErrorKind::InvalidInstruction, p))
                },
                Err(e) => Err(e),
            }
        },
        Err(e) => Err(e),
    }
}

fn read_instr(s: &[u8], p: usize) -> (r: Result<(Instr, usize), Error>)
    ensures
        agrees(r, spec_instr(s@, p as int)),
        advances(r, p as int, s@.len() as int),
{
    let (op, q) = read_byte(s, p)?;
    if op == 0x1C {
        let (n, q2) = read_u32(s, q)?;
        if n != 1 {
            return fail(ErrorKind::InvalidInstruction, q, "typed select takes one type");
        }
        let (t, q3) = read_valtype(s, q2)?;
        Ok((Instr::Select(Some(t)), q3))
    } else if op == 0x41 {
        let (v, q2) = read_i32(s, q)?;
        Ok((Instr::I32Const(v), q2))
    } else if op == 0x42 {
        let (v, q2) = read_i64(s, q)?;
        Ok((Instr::I64Const(v), q2))
    } else if op == 0x43 {
        let (v, q2) = read_fixed(s, q, 4)?;
        Ok((Instr::F32Const(v as u32), q2))
    } else if op == 0x44 {
        let (v, q2) = read_fixed(s, q, 8)?;
        Ok((Instr::F64Const(v), q2))
    } else {
        match plain_instr(op) {
            Some(instr) => Ok((instr, q)),
            None => fail(ErrorKind::InvalidInstruction, p, "invalid instruction"),
        }
    }
}

/// Decodes a function body's instruction sequence, which starts at `code_ofs`
/// and ends with the first `end` opcode.
fn parse_func_body(s: &[u8], code_ofs: usize) -> (r: Result<(ParsedBody, usize), Error>)
    ensures
        match r {
            Ok((b, q)) => spec_instrs(s@, code_ofs as int, Seq::empty()) == Ok::<
                (Seq<Instr>, int),
                Failure,
            >((b.instrs@, q as int)),
            Err(e) => spec_instrs(s@, code_ofs as int, Seq::empty()) == Err::<
                (Seq<Instr>, int),
                Failure,
            >((e.kind, e.offset as int)),
        },
        advances(r, code_ofs as int, s@.len() as int),
{
    if code_ofs > s.len() {
        return fail(ErrorKind::InvalidSectionFormat, code_ofs, "unexpected end of section");
    }
    let mut instrs: Vec<Instr> = Vec::new();
    let mut p: usize = code_ofs;
    loop
        invariant
            code_ofs <= p <= s@.len(),
            spec_instrs(s@, code_ofs as int, Seq::empty()) == spec_instrs(s@, p as int, instrs@),
        decreases s@.len() - p,
    {
        let (b, q) = read_byte(s, p)?;
        if b == 0x0B {
            return Ok((ParsedBody::new(instrs), q));
        }
        let (instr, q2) = read_instr(s, p)?;
        instrs.push(instr);
        p = q2;
    }
}

pub open spec fn spec_local_group(s: Seq<u8>, p: int) -> Decoded<LocalGroup> {
    match spec_u32(s, p) {
        Ok((count, q)) => match spec_valtype(s, q) {
            Ok((valtype, q2)) => Ok((LocalGroup { count, valtype }, q2)),
            Err(e) => Err(e),
        },
        Err(e) => Err(e),
    }
}

fn read_local_group(s: &[u8], p: usize) -> (r: Result<(LocalGroup, usize), Error>)
    ensures
        agrees(r, spec_local_group(s@, p as int)),
        advances(r, p as int, s@.len() as int),
{
    let (count, q) = read_u32(s, p)?;
    let (valtype, q2) = read_valtype(s, q)?;
    Ok((LocalGroup { count, valtype }, q2))
}

pub open spec fn spec_local_groups(s: Seq<u8>, p: int, n: nat, acc: Seq<LocalGroup>) -> Decoded<Seq<LocalGroup>>
    decreases n,
{
    if n == 0 {
        Ok((acc, p))
    } else {
        match spec_local_group(s, p) {
            Ok((x, q)) => spec_local_groups(s, q, (n - 1) as nat, acc.push(x)),
            Err(e) => Err(e),
        }
    }
}

/// A length-prefixed vector.
pub open spec fn spec_local_group_vec(s: Seq<u8>, p: int) -> Decoded<Seq<LocalGroup>> {
    match spec_u32(s, p) {
        Ok((n, q)) => spec_local_groups(s, q, n as nat, Seq::empty()),
        Err(e) => Err(e),
    }
}

fn read_local_group_vec(s: &[u8], p: usize) -> (r: Result<(Vec<LocalGroup>, usize), Error>)
    ensures
        agrees(r, spec_local_group_vec(s@, p as int)),
        advances(r, p as int, s@.len() as int),
{
    let (n, mut q) = read_u32(s, p)?;
    let mut v: Vec<LocalGroup> = Vec::new();
    let mut i: u32 = 0;
    while i < n
        invariant
            i <= n,
            p < q <= s@.len(),
            spec_local_group_vec(s@, p as int) == spec_local_groups(s@, q as int, (n - i) as nat, v@),
        decreases n - i,
    {
        let (x, q2) = read_local_group(s, q)?;
        v.push(x);
        q = q2;
        i = i + 1;
    }
    Ok((v, q))
}

/// One entry of the code section: its byte size, then the local groups and
/// the instructions, which must fill exactly that many bytes.
pub open spec fn spec_code(s: Seq<u8>, p: int, signature_idx: u32) -> Decoded<FunctionModel> {
    match spec_u32(s, p) {
        Ok((size, q)) => if q + size > s.len() {
            Err((ErrorKind::InvalidSectionFormat, p))
        } else {
            let end = q + size;
            let t = s.take(end);
            match spec_local_group_vec(t, q) {
                Ok((locals, q2)) => match spec_instrs(t, q2, Seq::empty()) {
                    Ok((instrs, q3)) => if q3 != end {
                        Err((ErrorKind::InvalidSectionFormat, q3))
                    } else {
                        Ok((FunctionModel { signature_idx, locals, instrs }, end))
                    },
                    Err(e) => Err(e),
                },
                Err(e) => Err(e),
            }
        },
        Err(e) => Err(e),
    }
}

fn read_code(s: &[u8], p: usize, signature_idx: u32) -> (r: Result<(Function, usize), Error>)
    ensures
        agrees(r, spec_code(s@, p as int, signature_idx)),
        advances(r, p as int, s@.len() as int),
{
    let (size, q) = read_u32(s, p)?;
    if size as usize > s.len() - q {
        return fail(ErrorKind::InvalidSectionFormat, p, "function body beyond the section");
    }
    let end = q + size as usize;
    let t = &s[0..end];
    assert(t@ == s@.take(end as int));
    let (locals, q2) = read_local_group_vec(t, q)?;
    let (parsed_body, q3) = parse_func_body(t, q2)?;
    if q3 != end {
        return fail(ErrorKind::InvalidSectionFormat, q3, "function body size mismatch");
    }
    Ok((Function { signature_idx, locals, parsed_body }, end))
}

/// The entries of the code section, the `i`-th paired with the `i`-th
/// signature index of the function section.
pub open spec fn spec_codes(s: Seq<u8>, p: int, sigs: Seq<u32>, acc: Seq<FunctionModel>) -> Decoded<
    Seq<FunctionModel>,
>
    decreases sigs.len() - acc.len(),
{
    if acc.len() >= sigs.len() {
        Ok((acc, p))
    } else {
        match spec_code(s, p, sigs[acc.len() as int]) {
            Ok((f, q)) => spec_codes(s, q, sigs, acc.push(f)),
            Err(e) => Err(e),
        }
    }
}

fn read_codes(s: &[u8], p: usize, sigs: &Vec<u32>) -> (r: Result<(Vec<Function>, usize), Error>)
    requires
        p <= s@.len(),
    ensures
        agrees_all(r, spec_codes(s@, p as int, sigs@, Seq::empty())),
        match r {
            Ok((_, q)) => p <= q <= s@.len(),
            Err(_) => true,
        },
{
    let mut v: Vec<Function> = Vec::new();
    let mut q: usize = p;
    let mut i: usize = 0;
    proof {
        lemma_models_empty::<Function>();
    }
    while i < sigs.len()
        invariant
            i <= sigs@.len(),
            i == v@.len(),
            p <= q <= s@.len(),
            spec_codes(s@, p as int, sigs@, Seq::empty()) == spec_codes(
                s@,
                q as int,
                sigs@,
                models(v@),
            ),
        decreases sigs@.len() - i,
    {
        let (f, q2) = read_code(s, q, sigs[i])?;
        proof {
            lemma_models_push(v@, f);
        }
        v.push(f);
        q = q2;
        i = i + 1;
    }
    Ok((v, q))
}

// ---------------------------------------------------------------- data

pub open spec fn spec_data(s: Seq<u8>, p: int) -> Decoded<DataModel> {
    match spec_u32(s, p) {
        Ok((flag, q)) => if flag == 0 {
            match spec_const_expr(s, q) {
                Ok((offset, q2)) => match spec_byte_vec(s, q2) {
                    Ok((data, q3)) => Ok((
                        DataModel { mode: DataMode::Active { memory: 0, offset }, data, dropped: false },
                        q3,
                    )),
                    Err(e) => Err(e),
                },
                Err(e) => Err(e),
            }
        } else if flag == 1 {
            match spec_byte_vec(s, q) {
                Ok((data, q2)) => Ok((DataModel { mode: DataMode::Passive, data, dropped: false }, q2)),
                Err(e) => Err(e),
            }
        } else if flag == 2 {
            match spec_u32(s, q) {
                Ok((memory, q2)) => match spec_const_expr(s, q2) {
                    Ok((offset, q3)) => match spec_byte_vec(s, q3) {
                        Ok((data, q4)) => Ok((
                            DataModel { mode: DataMode::Active { memory, offset }, data, dropped: false },
                            q4,
                        )),
                        Err(e) => Err(e),
                    },
                    Err(e) => Err(e),
                },
                Err(e) => Err(e),
            }
        } else {
            Err((ErrorKind::InvalidValue, p))
        },
        Err(e) => Err(e),
    }
}

fn read_data(s: &[u8], p: usize) -> (r: Result<(Data, usize), Error>)
    ensures
        agrees(r, spec_data(s@, p as int)),
        advances(r, p as int, s@.len() as int),
{
    let (flag, q) = read_u32(s, p)?;
    if flag == 0 {
        let (offset, q2) = read_const_expr(s, q)?;
        let (data, q3) = read_byte_vec(s, q2)?;
        Ok((Data { mode: DataMode::Active { memory: 0, offset }, data, dropped: false }, q3))
    } else if flag == 1 {
        let (data, q2) = read_byte_vec(s, q)?;
        Ok((Data { mode: DataMode::Passive, data, dropped: false }, q2))
    } else if flag == 2 {
        let (memory, q2) = read_u32(s, q)?;
        let (offset, q3) = read_const_expr(s, q2)?;
        let (data, q4) = read_byte_vec(s, q3)?;
        Ok((Data { mode: DataMode::Active { memory, offset }, data, dropped: false }, q4))
    } else {
        fail(ErrorKind::InvalidValue, p, "invalid data segment flag")
    }
}

pub open spec fn spec_datas(s: Seq<u8>, p: int, n: nat, acc: Seq<DataModel>) -> Decoded<Seq<DataModel>>
    decreases n,
{
    if n == 0 {
        Ok((acc, p))
    } else {
        match spec_data(s, p) {
            Ok((x, q)) => spec_datas(s, q, (n - 1) as nat, acc.push(x)),
            Err(e) => Err(e),
        }
    }
}

/// A length-prefixed vector.
pub open spec fn spec_data_vec(s: Seq<u8>, p: int) -> Decoded<Seq<DataModel>> {
    match spec_u32(s, p) {
        Ok((n, q)) => spec_datas(s, q, n as nat, Seq::empty()),
        Err(e) => Err(e),
    }
}

fn read_data_vec(s: &[u8], p: usize) -> (r: Result<(Vec<Data>, usize), Error>)
    ensures
        agrees_all(r, spec_data_vec(s@, p as int)),
        advances(r, p as int, s@.len() as int),
{
    let (n, mut q) = read_u32(s, p)?;
    let mut v: Vec<Data> = Vec::new();
    let mut i: u32 = 0;
    proof {
        lemma_models_empty::<Data>();
        lemma_models_empty::<Element>();
    }
    while i < n
        invariant
            i <= n,
            p < q <= s@.len(),
            spec_data_vec(s@, p as int) == spec_datas(s@, q as int, (n - i) as nat, models(v@)),
        decreases n - i,
    {
        let (x, q2) = read_data(s, q)?;
        proof {
            lemma_models_push(v@, x);
        }
        v.push(x);
        q = q2;
        i = i + 1;
    }
    Ok((v, q))
}

// ---------------------------------------------------------------- elements

/// A reference expression of an element segment: `ref.func x` or
/// `ref.null t`, then `end`.
pub open spec fn spec_ref_expr(s: Seq<u8>, p: int) -> Decoded<Option<u32>> {
    let r: Decoded<Option<u32>> = match spec_byte(s, p) {
        Ok((op, q)) => if op == 0xD2 {
            match spec_u32(s, q) {
                Ok((x, q2)) => Ok((Some(x), q2)),
                Err(e) => Err(e),
            }
        } else if op == 0xD0 {
            match spec_byte(s, q) {
                Ok((t, q2)) => if RefType::spec_from_byte(t) is Some {
                    Ok((None, q2))
                } else {
                    Err((ErrorKind::InvalidValue, q))
                },
                Err(e) => Err(e),
            }
        } else {
            Err((ErrorKind::InvalidInstruction, p))
        },
        Err(e) => Err(e),
    };
    match r {
        Ok((x, q)) => match spec_byte(s, q) {
            Ok((b, q2)) => if b == 0x0B {
                Ok((x, q2))
            } else {
                Err((ErrorKind::InvalidInstruction, q))
            },
            Err(e) => Err(e),
        },
        Err(e) => Err(e),
    }
}

fn read_ref_expr(s: &[u8], p: usize) -> (r: Result<(Option<u32>, usize), Error>)
    ensures
        agrees(r, spec_ref_expr(s@, p as int)),
        advances(r, p as int, s@.len() as int),
{
    let (op, q) = read_byte(s, p)?;
    let (x, q2) = if op == 0xD2 {
        let (x, q2) = read_u32(s, q)?;
        (Some(x), q2)
    } else if op == 0xD0 {
        let (t, q2) = read_byte(s, q)?;
        if RefType::from_byte(t).is_none() {
            return fail(ErrorKind::InvalidValue, q, "invalid reference type");
        }
        (None, q2)
    } else {
        return fail(ErrorKind::InvalidInstruction, p, "not a reference expression");
    };
    let (b, q3) = read_byte(s, q2)?;
    if b != 0x0B {
        return fail(ErrorKind::InvalidInstruction, q2, "reference expression not terminated");
    }
    Ok((x, q3))
}

pub open spec fn spec_func_ref(s: Seq<u8>, p: int) -> Decoded<Option<u32>> {
    match spec_u32(s, p) {
        Ok((x, q)) => Ok((Some(x), q)),
        Err(e) => Err(e),
    }
}

fn read_func_ref(s: &[u8], p: usize) -> (r: Result<(Option<u32>, usize), Error>)
    ensures
        agrees(r, spec_func_ref(s@, p as int)),
        advances(r, p as int, s@.len() as int),
{
    let (x, q) = read_u32(s, p)?;
    Ok((Some(x), q))
}

pub open spec fn spec_func_refs(s: Seq<u8>, p: int, n: nat, acc: Seq<Option<u32>>) -> Decoded<Seq<Option<u32>>>
    decreases n,
{
    if n == 0 {
        Ok((acc, p))
    } else {
        match spec_func_ref(s, p) {
            Ok((x, q)) => spec_func_refs(s, q, (n - 1) as nat, acc.push(x)),
            Err(e) => Err(e),
        }
    }
}

/// A length-prefixed vector.
pub open spec fn spec_func_ref_vec(s: Seq<u8>, p: int) -> Decoded<Seq<Option<u32>>> {
    match spec_u32(s, p) {
        Ok((n, q)) => spec_func_refs(s, q, n as nat, Seq::empty()),
        Err(e) => Err(e),
    }
}

fn read_func_ref_vec(s: &[u8], p: usize) -> (r: Result<(Vec<Option<u32>>, usize), Error>)
    ensures
        agrees(r, spec_func_ref_vec(s@, p as int)),
        advances(r, p as int, s@.len() as int),
{
    let (n, mut q) = read_u32(s, p)?;
    let mut v: Vec<Option<u32>> = Vec::new();
    let mut i: u32 = 0;
    while i < n
        invariant
            i <= n,
            p < q <= s@.len(),
            spec_func_ref_vec(s@, p as int) == spec_func_refs(s@, q as int, (n - i) as nat, v@),
        decreases n - i,
    {
        let (x, q2) = read_func_ref(s, q)?;
        v.push(x);
        q = q2;
        i = i + 1;
    }
    Ok((v, q))
}

pub open spec fn spec_ref_exprs(s: Seq<u8>, p: int, n: nat, acc: Seq<Option<u32>>) -> Decoded<Seq<Option<u32>>>
    decreases n,
{
    if n == 0 {
        Ok((acc, p))
    } else {
        match spec_ref_expr(s, p) {
            Ok((x, q)) => spec_ref_exprs(s, q, (n - 1) as nat, acc.push(x)),
            Err(e) => Err(e),
        }
    }
}

/// A length-prefixed vector.
pub open spec fn spec_ref_expr_vec(s: Seq<u8>, p: int) -> Decoded<Seq<Option<u32>>> {
    match spec_u32(s, p) {
        Ok((n, q)) => spec_ref_exprs(s, q, n as nat, Seq::empty()),
        Err(e) => Err(e),
    }
}

fn read_ref_expr_vec(s: &[u8], p: usize) -> (r: Result<(Vec<Option<u32>>, usize), Error>)
    ensures
        agrees(r, spec_ref_expr_vec(s@, p as int)),
        advances(r, p as int, s@.len() as int),
{
    let (n, mut q) = read_u32(s, p)?;
    let mut v: Vec<Option<u32>> = Vec::new();
    let mut i: u32 = 0;
    while i < n
        invariant
            i <= n,
            p < q <= s@.len(),
            spec_ref_expr_vec(s@, p as int) == spec_ref_exprs(s@, q as int, (n - i) as nat, v@),
        decreases n - i,
    {
        let (x, q2) = read_ref_expr(s, q)?;
        v.push(x);
        q = q2;
        i = i + 1;
    }
    Ok((v, q))
}

/// The element kind byte of the function-index encodings: only `0x00`
/// (function references) exists.
pub open spec fn spec_elemkind(s: Seq<u8>, p: int) -> Decoded<RefType> {
    match spec_byte(s, p) {
        Ok((b, q)) => if b == 0x00 {
            Ok((RefType::FuncRef, q))
        } else {
            Err((ErrorKind::InvalidValue, p))
        },
        Err(e) => Err(e),
    }
}

fn read_elemkind(s: &[u8], p: usize) -> (r: Result<(RefType, usize), Error>)
    ensures
        agrees(r, spec_elemkind(s@, p as int)),
        advances(r, p as int, s@.len() as int),
{
    let (b, q) = read_byte(s, p)?;
    if b != 0x00 {
        return fail(ErrorKind::InvalidValue, p, "invalid element kind");
    }
    Ok((RefType::FuncRef, q))
}

pub open spec fn spec_reftype(s: Seq<u8>, p: int) -> Decoded<RefType> {
    match spec_byte(s, p) {
        Ok((b, q)) => match RefType::spec_from_byte(b) {
            Some(t) => Ok((t, q)),
            None => Err((ErrorKind::InvalidValue, p)),
        },
        Err(e) => Err(e),
    }
}

fn read_reftype(s: &[u8], p: usize) -> (r: Result<(RefType, usize), Error>)
    ensures
        agrees(r, spec_reftype(s@, p as int)),
        advances(r, p as int, s@.len() as int),
{
    let (b, q) = read_byte(s, p)?;
    match RefType::from_byte(b) {
        Some(t) => Ok((t, q)),
        None => fail(ErrorKind::InvalidValue, p, "invalid reference type"),
    }
}

/// The mode part of an element segment with flags `flag`: the mode and the
/// element type (read here for flags 1 to 3 and 5 to 7).
pub open spec fn spec_elem_head(s: Seq<u8>, p: int, flag: u32) -> Decoded<(ElemMode, RefType)> {
    if flag == 0 || flag == 4 {
        match spec_const_expr(s, p) {
            Ok((offset, q)) => Ok(((ElemMode::Active { table: 0, offset }, RefType::FuncRef), q)),
            Err(e) => Err(e),
        }
    } else if flag == 2 || flag == 6 {
        match spec_u32(s, p) {
            Ok((table, q)) => match spec_const_expr(s, q) {
                Ok((offset, q2)) => match if flag == 2 {
                    spec_elemkind(s, q2)
                } else {
                    spec_reftype(s, q2)
                } {
                    Ok((t, q3)) => Ok(((ElemMode::Active { table, offset }, t), q3)),
                    Err(e) => Err(e),
                },
                Err(e) => Err(e),
            },
            Err(e) => Err(e),
        }
    } else {
        let mode = if flag == 1 || flag == 5 {
            ElemMode::Passive
        } else {
            ElemMode::Declarative
        };
        match if flag < 4 {
            spec_elemkind(s, p)
        } else {
            spec_reftype(s, p)
        } {
            Ok((t, q)) => Ok(((mode, t), q)),
            Err(e) => Err(e),
        }
    }
}

/// An element segment: flags (0 to 7), mode, then function indices (flags
/// 0 to 3) or reference expressions (flags 4 to 7).
pub open spec fn spec_element(s: Seq<u8>, p: int) -> Decoded<ElementModel> {
    match spec_u32(s, p) {
        Ok((flag, q)) => if flag > 7 {
            Err((ErrorKind::InvalidValue, p))
        } else {
            match spec_elem_head(s, q, flag) {
                Ok(((mode, ref_type), q2)) => match if flag < 4 {
                    spec_func_ref_vec(s, q2)
                } else {
                    spec_ref_expr_vec(s, q2)
                } {
                    Ok((init, q3)) => Ok((ElementModel { mode, ref_type, init, dropped: false }, q3)),
                    Err(e) => Err(e),
                },
                Err(e) => Err(e),
            }
        },
        Err(e) => Err(e),
    }
}

fn read_elem_head(s: &[u8], p: usize, flag: u32) -> (r: Result<((ElemMode, RefType), usize), Error>)
    requires
        flag <= 7,
        p <= s@.len(),
    ensures
        agrees(r, spec_elem_head(s@, p as int, flag)),
        match r {
            Ok((_, q)) => p <= q <= s@.len(),
            Err(_) => true,
        },
{
    if flag == 0 || flag == 4 {
        let (offset, q) = read_const_expr(s, p)?;
        Ok(((ElemMode::Active { table: 0, offset }, RefType::FuncRef), q))
    } else if flag == 2 || flag == 6 {
        let (table, q) = read_u32(s, p)?;
        let (offset, q2) = read_const_expr(s, q)?;
        let (t, q3) = if flag == 2 {
            read_elemkind(s, q2)?
        } else {
            read_reftype(s, q2)?
        };
        Ok(((ElemMode::Active { table, offset }, t), q3))
    } else {
        let mode = if flag == 1 || flag == 5 {
            ElemMode::Passive
        } else {
            ElemMode::Declarative
        };
        let (t, q) = if flag < 4 {
            read_elemkind(s, p)?
        } else {
            read_reftype(s, p)?
        };
        Ok(((mode, t), q))
    }
}

fn read_element(s: &[u8], p: usize) -> (r: Result<(Element, usize), Error>)
    ensures
        agrees(r, spec_element(s@, p as int)),
        advances(r, p as int, s@.len() as int),
{
    let (flag, q) = read_u32(s, p)?;
    if flag > 7 {
        return fail(ErrorKind::InvalidValue, p, "invalid element segment flags");
    }
    let ((mode, ref_type), q2) = read_elem_head(s, q, flag)?;
    let (init, q3) = if flag < 4 {
        read_func_ref_vec(s, q2)?
    } else {
        read_ref_expr_vec(s, q2)?
    };
    Ok((Element { mode, ref_type, init, dropped: false }, q3))
}

pub open spec fn spec_elements(s: Seq<u8>, p: int, n: nat, acc: Seq<ElementModel>) -> Decoded<Seq<ElementModel>>
    decreases n,
{
    if n == 0 {
        Ok((acc, p))
    } else {
        match spec_element(s, p) {
            Ok((x, q)) => spec_elements(s, q, (n - 1) as nat, acc.push(x)),
            Err(e) => Err(e),
        }
    }
}

/// A length-prefixed vector.
pub open spec fn spec_element_vec(s: Seq<u8>, p: int) -> Decoded<Seq<ElementModel>> {
    match spec_u32(s, p) {
        Ok((n, q)) => spec_elements(s, q, n as nat, Seq::empty()),
        Err(e) => Err(e),
    }
}

fn read_element_vec(s: &[u8], p: usize) -> (r: Result<(Vec<Element>, usize), Error>)
    ensures
        agrees_all(r, spec_element_vec(s@, p as int)),
        advances(r, p as int, s@.len() as int),
{
    let (n, mut q) = read_u32(s, p)?;
    let mut v: Vec<Element> = Vec::new();
    let mut i: u32 = 0;
    proof {
        lemma_models_empty::<Element>();
    }
    while i < n
        invariant
            i <= n,
            p < q <= s@.len(),
            spec_element_vec(s@, p as int) == spec_elements(s@, q as int, (n - i) as nat, models(v@)),
        decreases n - i,
    {
        let (x, q2) = read_element(s, q)?;
        proof {
            lemma_models_push(v@, x);
        }
        v.push(x);
        q = q2;
        i = i + 1;
    }
    Ok((v, q))
}

// ---------------------------------------------------------------- sections

/// What the decoder has gathered so far: the module, the signature indices of
/// the function section, and the id of the last non-custom section.
pub struct DecodeState {
    pub module: ModuleModel,
    pub func_sigs: Seq<u32>,
    pub last: int,
}

/// The payload of a non-custom section with id `id` in `1..=12`, read from `q`.
#[verifier::opaque]
pub open spec fn spec_section_body(t: Seq<u8>, q: int, id: u8, m: ModuleModel, sigs: Seq<u32>) -> Result<
    (ModuleModel, Seq<u32>, int),
    Failure,
> {
    if id == 1 {
        match spec_functype_vec(t, q) {
            Ok((x, q2)) => Ok((ModuleModel { types: x, ..m }, sigs, q2)),
            Err(e) => Err(e),
        }
    } else if id == 2 {
        match spec_import_vec(t, q) {
            Ok((x, q2)) => Ok((ModuleModel { imports: x, ..m }, sigs, q2)),
            Err(e) => Err(e),
        }
    } else if id == 3 {
        match spec_index_vec(t, q) {
            Ok((x, q2)) => Ok((m, x, q2)),
            Err(e) => Err(e),
        }
    } else if id == 4 {
        match spec_table_vec(t, q) {
            Ok((x, q2)) => Ok((ModuleModel { tables: x, ..m }, sigs, q2)),
            Err(e) => Err(e),
        }
    } else if id == 5 {
        match spec_memory_vec(t, q) {
            Ok((x, q2)) => Ok((ModuleModel { memories: x, ..m }, sigs, q2)),
            Err(e) => Err(e),
        }
    } else if id == 6 {
        match spec_global_vec(t, q) {
            Ok((x, q2)) => Ok((ModuleModel { globals: x, ..m }, sigs, q2)),
            Err(e) => Err(e),
        }
    } else if id == 7 {
        match spec_export_vec(t, q) {
            Ok((x, q2)) => Ok((ModuleModel { exports: x, ..m }, sigs, q2)),
            Err(e) => Err(e),
        }
    } else if id == 8 {
        match spec_u32(t, q) {
            Ok((x, q2)) => Ok((ModuleModel { start_func: Some(x), ..m }, sigs, q2)),
            Err(e) => Err(e),
        }
    } else if id == 9 {
        match spec_element_vec(t, q) {
            Ok((x, q2)) => Ok((ModuleModel { elems: x, ..m }, sigs, q2)),
            Err(e) => Err(e),
        }
    } else if id == 10 {
        match spec_u32(t, q) {
            Ok((n, q2)) => if n != sigs.len() {
                Err((ErrorKind::InvalidSectionFormat, q))
            } else {
                match spec_codes(t, q2, sigs, Seq::empty()) {
                    Ok((x, q3)) => Ok((ModuleModel { functions: x, ..m }, sigs, q3)),
                    Err(e) => Err(e),
                }
            },
            Err(e) => Err(e),
        }
    } else if id == 11 {
        match spec_data_vec(t, q) {
            Ok((x, q2)) => Ok((ModuleModel { data: x, ..m }, sigs, q2)),
            Err(e) => Err(e),
        }
    } else {
        match spec_u32(t, q) {
            Ok((x, q2)) => Ok((ModuleModel { data_count: Some(x), ..m }, sigs, q2)),
            Err(e) => Err(e),
        }
    }
}

/// One section starting at `p`: id byte, byte size, payload. The payload must
/// lie within `s` and be consumed exactly; a non-custom section must have a
/// greater id than every non-custom section before it.
#[verifier::opaque]
pub open spec fn spec_section(s: Seq<u8>, p: int, st: DecodeState) -> Result<
    (DecodeState, int),
    Failure,
> {
    let id = s[p];
    if id > 12 {
        Err((ErrorKind::InvalidSectionFormat, p))
    } else {
        match spec_u32(s, p + 1) {
            Ok((size, q)) => if q + size > s.len() {
                Err((ErrorKind::InvalidSectionFormat, p))
            } else {
                let end = q + size;
                let t = s.take(end);
                if id == 0 {
                    match spec_name(t, q) {
                        Ok((name, q2)) => Ok((
                            DecodeState {
                                module: ModuleModel {
                                    customs: st.module.customs.push(
                                        CustomModel { name, bytes: t.subrange(q2, end) },
                                    ),
                                    ..st.module
                                },
                                ..st
                            },
                            end,
                        )),
                        Err(e) => Err(e),
                    }
                } else if id <= st.last {
                    Err((ErrorKind::InvalidSectionFormat, p))
                } else {
                    match spec_section_body(t, q, id, st.module, st.func_sigs) {
                        Ok((m2, sigs2, q2)) => if q2 != end {
                            Err((ErrorKind::InvalidSectionFormat, q2))
                        } else {
                            Ok((DecodeState { module: m2, func_sigs: sigs2, last: id as int }, end))
                        },
                        Err(e) => Err(e),
                    }
                }
            },
            Err(e) => Err(e),
        }
    }
}

/// The sections from `p` to the end of `s`.
pub open spec fn spec_sections(s: Seq<u8>, p: int, st: DecodeState) -> Result<DecodeState, Failure>
    decreases s.len() - p,
{
    if p < 0 || p >= s.len() {
        Ok(st)
    } else {
        match spec_section(s, p, st) {
            Ok((st2, q)) => if p < q <= s.len() {
                spec_sections(s, q, st2)
            } else {
                Err((ErrorKind::InvalidSectionFormat, p))
            },
            Err(e) => Err(e),
        }
    }
}

/// The first four bytes are the magic `\0asm`.
pub open spec fn has_magic(s: Seq<u8>) -> bool {
    s.len() >= 4 && s[0] == 0x00 && s[1] == 0x61 && s[2] == 0x73 && s[3] == 0x6D
}

/// Bytes four to seven are the version `1, 0, 0, 0`.
pub open spec fn has_version(s: Seq<u8>) -> bool {
    s.len() >= 8 && s[4] == 0x01 && s[5] == 0x00 && s[6] == 0x00 && s[7] == 0x00
}

pub open spec fn empty_module() -> ModuleModel {
    ModuleModel {
        customs: Seq::empty(),
        types: Seq::empty(),
        imports: Seq::empty(),
        functions: Seq::empty(),
        tables: Seq::empty(),
        memories: Seq::empty(),
        globals: Seq::empty(),
        exports: Seq::empty(),
        start_func: None,
        elems: Seq::empty(),
        data: Seq::empty(),
        data_count: None,
    }
}

/// The module that a binary decodes to, or the first error in it.
pub open spec fn spec_parse(s: Seq<u8>) -> Result<ModuleModel, Failure> {
    if !has_magic(s) {
        Err((ErrorKind::InvalidBinaryMagic, 0))
    } else if !has_version(s) {
        Err((ErrorKind::InvalidBinaryVersion, 4))
    } else {
        match spec_sections(s, 8, DecodeState { module: empty_module(), func_sigs: Seq::empty(), last: 0 }) {
            Ok(st) => if st.module.functions.len() != st.func_sigs.len() {
                Err((ErrorKind::MissingSection, s.len() as int))
            } else {
                Ok(st.module)
            },
            Err(e) => Err(e),
        }
    }
}

/// An executable decoding result agrees with a spec-level one.
pub open spec fn decodes_as(r: Result<Module, Error>, m: Result<ModuleModel, Failure>) -> bool {
    match r {
        Ok(x) => m == Ok::<ModuleModel, Failure>(x@),
        Err(e) => m == Err::<ModuleModel, Failure>((e.kind, e.offset as int)),
    }
}

pub open spec fn state_of(m: Module, sigs: Seq<u32>, last: u8) -> DecodeState {
    DecodeState { module: m@, func_sigs: sigs, last: last as int }
}

fn read_section_body(t: &[u8], q: usize, id: u8, m: &mut Module, sigs: &mut Vec<u32>) -> (r: Result<
    usize,
    Error,
>)
    requires
        1 <= id <= 12,
        q <= t@.len(),
    ensures
        match r {
            Ok(q2) => spec_section_body(t@, q as int, id, old(m)@, old(sigs)@) == Ok::<
                (ModuleModel, Seq<u32>, int),
                Failure,
            >((final(m)@, final(sigs)@, q2 as int)) && q2 <= t@.len(),
            Err(e) => spec_section_body(t@, q as int, id, old(m)@, old(sigs)@) == Err::<
                (ModuleModel, Seq<u32>, int),
                Failure,
            >((e.kind, e.offset as int)),
        },
{
    reveal(spec_section_body);
    if id == 1 {
        let (x, q2) = read_functype_vec(t, q)?;
        m.types = x;
        Ok(q2)
    } else if id == 2 {
        let (x, q2) = read_import_vec(t, q)?;
        m.imports = x;
        Ok(q2)
    } else if id == 3 {
        let (x, q2) = read_index_vec(t, q)?;
        *sigs = x;
        Ok(q2)
    } else if id == 4 {
        let (x, q2) = read_table_vec(t, q)?;
        m.tables = x;
        Ok(q2)
    } else if id == 5 {
        let (x, q2) = read_memory_vec(t, q)?;
        m.memories = x;
        Ok(q2)
    } else if id == 6 {
        let (x, q2) = read_global_vec(t, q)?;
        m.globals = x;
        Ok(q2)
    } else if id == 7 {
        let (x, q2) = read_export_vec(t, q)?;
        m.exports = x;
        Ok(q2)
    } else if id == 8 {
        let (x, q2) = read_u32(t, q)?;
        m.start_func = Some(x);
        Ok(q2)
    } else if id == 9 {
        let (x, q2) = read_element_vec(t, q)?;
        m.elems = x;
        Ok(q2)
    } else if id == 10 {
        let (n, q2) = read_u32(t, q)?;
        if n as usize != sigs.len() {
            return fail(ErrorKind::InvalidSectionFormat, q, "function and code counts differ");
        }
        let (x, q3) = read_codes(t, q2, sigs)?;
        m.functions = x;
        Ok(q3)
    } else if id == 11 {
        let (x, q2) = read_data_vec(t, q)?;
        m.data = x;
        Ok(q2)
    } else {
        let (x, q2) = read_u32(t, q)?;
        m.data_count = Some(x);
        Ok(q2)
    }
}

fn read_section(s: &[u8], p: usize, m: &mut Module, sigs: &mut Vec<u32>, last: &mut u8) -> (r: Result<
    usize,
    Error,
>)
    requires
        p < s@.len(),
    ensures
        match r {
            Ok(q) => spec_section(s@, p as int, state_of(*old(m), old(sigs)@, *old(last))) == Ok::<
                (DecodeState, int),
                Failure,
            >((state_of(*final(m), final(sigs)@, *final(last)), q as int)) && p < q <= s@.len(),
            Err(e) => spec_section(s@, p as int, state_of(*old(m), old(sigs)@, *old(last)))
                == Err::<(DecodeState, int), Failure>((e.kind, e.offset as int)),
        },
{
    reveal(spec_section);
    let id = s[p];
    if id > 12 {
        return fail(ErrorKind::InvalidSectionFormat, p, "invalid section id");
    }
    let (size, q) = read_u32(s, p + 1)?;
    if size as usize > s.len() - q {
        return fail(ErrorKind::InvalidSectionFormat, p, "section beyond the end of the binary");
    }
    let end = q + size as usize;
    let t = &s[0..end];
    assert(t@ == s@.take(end as int));
    if id == 0 {
        let (name, q2) = read_name(t, q)?;
        let bytes = copy_bytes(t, q2, end - q2);
        proof {
            lemma_models_push(m.customs@, Custom { name, bytes });
        }
        m.customs.push(Custom { name, bytes });
        return Ok(end);
    }
    if id <= *last {
        return fail(ErrorKind::InvalidSectionFormat, p, "section out of order or repeated");
    }
    let q2 = read_section_body(t, q, id, m, sigs)?;
    if q2 != end {
        return fail(ErrorKind::InvalidSectionFormat, q2, "section size mismatch");
    }
    *last = id;
    Ok(end)
}

/// Decodes a binary module.
pub fn parse(s: &[u8]) -> (r: Result<Module, Error>)
    ensures
        decodes_as(r, spec_parse(s@)),
{
    if s.len() < 4 || s[0] != 0x00 || s[1] != 0x61 || s[2] != 0x73 || s[3] != 0x6D {
        return fail(ErrorKind::InvalidBinaryMagic, 0, "invalid binary magic");
    }
    if s.len() < 8 || s[4] != 0x01 || s[5] != 0x00 || s[6] != 0x00 || s[7] != 0x00 {
        return fail(ErrorKind::InvalidBinaryVersion, 4, "invalid binary version");
    }
    let mut m = Module {
        customs: Vec::new(),
        types: Vec::new(),
        imports: Vec::new(),
        functions: Vec::new(),
        tables: Vec::new(),
        memories: Vec::new(),
        globals: Vec::new(),
        exports: Vec::new(),
        start_func: None,
        elems: Vec::new(),
        data: Vec::new(),
        data_count: None,
    };
    let mut sigs: Vec<u32> = Vec::new();
    let mut last: u8 = 0;
    let mut p: usize = 8;
    proof {
        lemma_models_empty::<Custom>();
        lemma_models_empty::<FuncType>();
        lemma_models_empty::<Import>();
        lemma_models_empty::<Function>();
        lemma_models_empty::<Export>();
        lemma_models_empty::<Data>();
        lemma_models_empty::<Element>();
        assert(m@ == empty_module());
    }
    while p < s.len()
        invariant
            8 <= p <= s@.len(),
            has_magic(s@),
            has_version(s@),
            spec_sections(s@, 8, DecodeState { module: empty_module(), func_sigs: Seq::empty(), last: 0 })
                == spec_sections(s@, p as int, state_of(m, sigs@, last)),
        decreases s@.len() - p,
    {
        p = read_section(s, p, &mut m, &mut sigs, &mut last)?;
    }
    if m.functions.len() != sigs.len() {
        return fail(ErrorKind::MissingSection, s.len(), "code section missing");
    }
    Ok(m)
}

} // verus!
