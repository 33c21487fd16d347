//! The instruction set: one table of opcodes shared by the decoder and the
//! interpreter.
use vstd::prelude::*;
use crate::value::ValType;

verus! {

/// Integer unary operators.
#[derive(Debug, Clone, Copy, PartialEq, Eq, Structural)]
pub enum IUnOp {
    Clz,
    Ctz,
    Popcnt,
}

/// Integer binary operators.
#[derive(Debug, Clone, Copy, PartialEq, Eq, Structural)]
pub enum IBinOp {
    Add,
    Sub,
    Mul,
    DivS,
    DivU,
    RemS,
    RemU,
    And,
    Or,
    Xor,
    Shl,
    ShrS,
    ShrU,
    Rotl,
    Rotr,
}

/// Integer comparisons.
#[derive(Debug, Clone, Copy, PartialEq, Eq, Structural)]
pub enum IRelOp {
    Eq,
    Ne,
    LtS,
    LtU,
    GtS,
    GtU,
    LeS,
    LeU,
    GeS,
    GeU,
}

/// Floating-point unary operators.
#[derive(Debug, Clone, Copy, PartialEq, Eq, Structural)]
pub enum FUnOp {
    Abs,
    Neg,
    Ceil,
    Floor,
    Trunc,
    Nearest,
    Sqrt,
}

/// Floating-point binary operators.
#[derive(Debug, Clone, Copy, PartialEq, Eq, Structural)]
pub enum FBinOp {
    Add,
    Sub,
    Mul,
    Div,
    Min,
    Max,
    Copysign,
}

/// Floating-point comparisons.
#[derive(Debug, Clone, Copy, PartialEq, Eq, Structural)]
pub enum FRelOp {
    Eq,
    Ne,
    Lt,
    Gt,
    Le,
    Ge,
}

/// A decoded instruction: the opcode with its resolved immediates.
/// Float constants hold their bit patterns.
#[derive(Debug, Clone, Copy, PartialEq, Eq, Structural)]
pub enum Instr {
    Unreachable,
    Nop,
    Return,
    Drop,
    Select(Option<ValType>),
    I32Const(i32),
    I64Const(i64),
    F32Const(u32),
    F64Const(u64),
    I32Eqz,
    I64Eqz,
    I32Rel(IRelOp),
    I64Rel(IRelOp),
    F32Rel(FRelOp),
    F64Rel(FRelOp),
    I32Un(IUnOp),
    I64Un(IUnOp),
    I32Bin(IBinOp),
    I64Bin(IBinOp),
    F32Un(FUnOp),
    F64Un(FUnOp),
    F32Bin(FBinOp),
    F64Bin(FBinOp),
}

impl View for Instr {
    type V = Instr;

    open spec fn view(&self) -> Instr {
        *self
    }
}

pub open spec fn spec_iunop(k: u8) -> IUnOp {
    if k == 0 {
        IUnOp::Clz
    } else if k == 1 {
        IUnOp::Ctz
    } else {
        IUnOp::Popcnt
    }
}

pub open spec fn spec_ibinop(k: u8) -> IBinOp {
    if k == 0 {
        IBinOp::Add
    } else if k == 1 {
        IBinOp::Sub
    } else if k == 2 {
        IBinOp::Mul
    } else if k == 3 {
        IBinOp::DivS
    } else if k == 4 {
        IBinOp::DivU
    } else if k == 5 {
        IBinOp::RemS
    } else if k == 6 {
        IBinOp::RemU
    } else if k == 7 {
        IBinOp::And
    } else if k == 8 {
        IBinOp::Or
    } else if k == 9 {
        IBinOp::Xor
    } else if k == 10 {
        IBinOp::Shl
    } else if k == 11 {
        IBinOp::ShrS
    } else if k == 12 {
        IBinOp::ShrU
    } else if k == 13 {
        IBinOp::Rotl
    } else {
        IBinOp::Rotr
    }
}

pub open spec fn spec_irelop(k: u8) -> IRelOp {
    if k == 0 {
        IRelOp::Eq
    } else if k == 1 {
        IRelOp::Ne
    } else if k == 2 {
        IRelOp::LtS
    } else if k == 3 {
        IRelOp::LtU
    } else if k == 4 {
        IRelOp::GtS
    } else if k == 5 {
        IRelOp::GtU
    } else if k == 6 {
        IRelOp::LeS
    } else if k == 7 {
        IRelOp::LeU
    } else if k == 8 {
        IRelOp::GeS
    } else {
        IRelOp::GeU
    }
}

pub open spec fn spec_funop(k: u8) -> FUnOp {
    if k == 0 {
        FUnOp::Abs
    } else if k == 1 {
        FUnOp::Neg
    } else if k == 2 {
        FUnOp::Ceil
    } else if k == 3 {
        FUnOp::Floor
    } else if k == 4 {
        FUnOp::Trunc
    } else if k == 5 {
        FUnOp::Nearest
    } else {
        FUnOp::Sqrt
    }
}

pub open spec fn spec_fbinop(k: u8) -> FBinOp {
    if k == 0 {
        FBinOp::Add
    } else if k == 1 {
        FBinOp::Sub
    } else if k == 2 {
        FBinOp::Mul
    } else if k == 3 {
        FBinOp::Div
    } else if k == 4 {
        FBinOp::Min
    } else if k == 5 {
        FBinOp::Max
    } else {
        FBinOp::Copysign
    }
}

pub open spec fn spec_frelop(k: u8) -> FRelOp {
    if k == 0 {
        FRelOp::Eq
    } else if k == 1 {
        FRelOp::Ne
    } else if k == 2 {
        FRelOp::Lt
    } else if k == 3 {
        FRelOp::Gt
    } else if k == 4 {
        FRelOp::Le
    } else {
        FRelOp::Ge
    }
}

/// The opcode table for instructions without immediates.
pub open spec fn spec_plain_instr(b: u8) -> Option<Instr> {
    if b == 0x00 {
        Some(Instr::Unreachable)
    } else if b == 0x01 {
        Some(Instr::Nop)
    } else if b == 0x0F {
        Some(Instr::Return)
    } else if b == 0x1A {
        Some(Instr::Drop)
    } else if b == 0x1B {
        Some(Instr::Select(None))
    } else if b == 0x45 {
        Some(Instr::I32Eqz)
    } else if 0x46 <= b <= 0x4F {
        Some(Instr::I32Rel(spec_irelop((b - 0x46) as u8)))
    } else if b == 0x50 {
        Some(Instr::I64Eqz)
    } else if 0x51 <= b <= 0x5A {
        Some(Instr::I64Rel(spec_irelop((b - 0x51) as u8)))
    } else if 0x5B <= b <= 0x60 {
        Some(Instr::F32Rel(spec_frelop((b - 0x5B) as u8)))
    } else if 0x61 <= b <= 0x66 {
        Some(Instr::F64Rel(spec_frelop((b - 0x61) as u8)))
    } else if 0x67 <= b <= 0x69 {
        Some(Instr::I32Un(spec_iunop((b - 0x67) as u8)))
    } else if 0x6A <= b <= 0x78 {
        Some(Instr::I32Bin(spec_ibinop((b - 0x6A) as u8)))
    } else if 0x79 <= b <= 0x7B {
        Some(Instr::I64Un(spec_iunop((b - 0x79) as u8)))
    } else if 0x7C <= b <= 0x8A {
        Some(Instr::I64Bin(spec_ibinop((b - 0x7C) as u8)))
    } else if 0x8B <= b <= 0x91 {
        Some(Instr::F32Un(spec_funop((b - 0x8B) as u8)))
    } else if 0x92 <= b <= 0x98 {
        Some(Instr::F32Bin(spec_fbinop((b - 0x92) as u8)))
    } else if 0x99 <= b <= 0x9F {
        Some(Instr::F64Un(spec_funop((b - 0x99) as u8)))
    } else if 0xA0 <= b <= 0xA6 {
        Some(Instr::F64Bin(spec_fbinop((b - 0xA0) as u8)))
    } else {
        None
    }
}

fn iunop(k: u8) -> (r: IUnOp)
    ensures
        r == spec_iunop(k),
{
    match k {
        0 => IUnOp::Clz,
        1 => IUnOp::Ctz,
        _ => IUnOp::Popcnt,
    }
}

fn ibinop(k: u8) -> (r: IBinOp)
    ensures
        r == spec_ibinop(k),
{
    match k {
        0 => IBinOp::Add,
        1 => IBinOp::Sub,
        2 => IBinOp::Mul,
        3 => IBinOp::DivS,
        4 => IBinOp::DivU,
        5 => IBinOp::RemS,
        6 => IBinOp::RemU,
        7 => IBinOp::And,
        8 => IBinOp::Or,
        9 => IBinOp::Xor,
        10 => IBinOp::Shl,
        11 => IBinOp::ShrS,
        12 => IBinOp::ShrU,
        13 => IBinOp::Rotl,
        _ => IBinOp::Rotr,
    }
}

fn irelop(k: u8) -> (r: IRelOp)
    ensures
        r == spec_irelop(k),
{
    match k {
        0 => IRelOp::Eq,
        1 => IRelOp::Ne,
        2 => IRelOp::LtS,
        3 => IRelOp::LtU,
        4 => IRelOp::GtS,
        5 => IRelOp::GtU,
        6 => IRelOp::LeS,
        7 => IRelOp::LeU,
        8 => IRelOp::GeS,
        _ => IRelOp::GeU,
    }
}

fn funop(k: u8) -> (r: FUnOp)
    ensures
        r == spec_funop(k),
{
    match k {
        0 => FUnOp::Abs,
        1 => FUnOp::Neg,
        2 => FUnOp::Ceil,
        3 => FUnOp::Floor,
        4 => FUnOp::Trunc,
        5 => FUnOp::Nearest,
        _ => FUnOp::Sqrt,
    }
}

fn fbinop(k: u8) -> (r: FBinOp)
    ensures
        r == spec_fbinop(k),
{
    match k {
        0 => FBinOp::Add,
        1 => FBinOp::Sub,
        2 => FBinOp::Mul,
        3 => FBinOp::Div,
        4 => FBinOp::Min,
        5 => FBinOp::Max,
        _ => FBinOp::Copysign,
    }
}

fn frelop(k: u8) -> (r: FRelOp)
    ensures
        r == spec_frelop(k),
{
    match k {
        0 => FRelOp::Eq,
        1 => FRelOp::Ne,
        2 => FRelOp::Lt,
        3 => FRelOp::Gt,
        4 => FRelOp::Le,
        _ => FRelOp::Ge,
    }
}

/// Looks up an opcode without immediates in the table.
pub fn plain_instr(b: u8) -> (r: Option<Instr>)
    ensures
        r == spec_plain_instr(b),
{
    if b == 0x00 {
        Some(Instr::Unreachable)
    } else if b == 0x01 {
        Some(Instr::Nop)
    } else if b == 0x0F {
        Some(Instr::Return)
    } else if b == 0x1A {
        Some(Instr::Drop)
    } else if b == 0x1B {
        Some(Instr::Select(None))
    } else if b == 0x45 {
        Some(Instr::I32Eqz)
    } else if 0x46 <= b && b <= 0x4F {
        Some(Instr::I32Rel(irelop(b - 0x46)))
    } else if b == 0x50 {
        Some(Instr::I64Eqz)
    } else if 0x51 <= b && b <= 0x5A {
        Some(Instr::I64Rel(irelop(b - 0x51)))
    } else if 0x5B <= b && b <= 0x60 {
        Some(Instr::F32Rel(frelop(b - 0x5B)))
    } else if 0x61 <= b && b <= 0x66 {
        Some(Instr::F64Rel(frelop(b - 0x61)))
    } else if 0x67 <= b && b <= 0x69 {
        Some(Instr::I32Un(iunop(b - 0x67)))
    } else if 0x6A <= b && b <= 0x78 {
        Some(Instr::I32Bin(ibinop(b - 0x6A)))
    } else if 0x79 <= b && b <= 0x7B {
        Some(Instr::I64Un(iunop(b - 0x79)))
    } else if 0x7C <= b && b <= 0x8A {
        Some(Instr::I64Bin(ibinop(b - 0x7C)))
    } else if 0x8B <= b && b <= 0x91 {
        Some(Instr::F32Un(funop(b - 0x8B)))
    } else if 0x92 <= b && b <= 0x98 {
        Some(Instr::F32Bin(fbinop(b - 0x92)))
    } else if 0x99 <= b && b <= 0x9F {
        Some(Instr::F64Un(funop(b - 0x99)))
    } else if 0xA0 <= b && b <= 0xA6 {
        Some(Instr::F64Bin(fbinop(b - 0xA0)))
    } else {
        None
    }
}

} // verus!
