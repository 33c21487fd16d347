//! The instruction interpreter: the semantics of each instruction as a spec
//! function over the operand stack, and a fetch-execute loop proved to follow
//! it. Floating-point arithmetic is not performed here: execution halts in
//! front of such an instruction, with its operands on the stack, and is
//! resumed once the caller has pushed the result.
use vstd::prelude::*;
use vstd::std_specs::bits::{u32_leading_zeros, u32_trailing_zeros, u64_leading_zeros, u64_trailing_zeros};
use crate::instr::{IBinOp, IRelOp, IUnOp, Instr};
use crate::value::{ValType, Value};

verus! {

/// Execution traps.
#[derive(Debug, Clone, Copy, PartialEq, Eq, Structural)]
pub enum Error {
    OutOfBoundMemoryAccess,
    OutOfBoundTableAccess,
    MemoryExhaustion,
    StackOverflow,
    /// An operand was missing: the stack held fewer values than the
    /// instruction pops.
    StackUnderflow,
    /// An operand, argument or result had another type than required.
    TypeMismatch,
    DivideByZero,
    /// Signed division of the minimum value by -1.
    IntegerOverflow,
    Unreachable,
    /// The function index or its signature index names nothing.
    UndefinedFunction,
}

// ---------------------------------------------------------------- integer semantics

/// The number of one bits among the low `bits` bits of `x`.
pub open spec fn popcount(x: nat, bits: nat) -> nat
    decreases bits,
{
    if bits == 0 {
        0
    } else {
        x % 2 + popcount(x / 2, (bits - 1) as nat)
    }
}

pub open spec fn rotl32(x: u32, k: u32) -> u32 {
    let k = k % 32;
    if k == 0 {
        x
    } else {
        (x << k) | (x >> ((32 - k) as u32))
    }
}

pub open spec fn rotl64(x: u64, k: u64) -> u64 {
    let k = k % 64;
    if k == 0 {
        x
    } else {
        (x << k) | (x >> ((64 - k) as u64))
    }
}

pub open spec fn bool_i32(b: bool) -> i32 {
    if b {
        1
    } else {
        0
    }
}

pub open spec fn i32_unop(op: IUnOp, a: i32) -> i32 {
    match op {
        IUnOp::Clz => u32_leading_zeros(a as u32) as i32,
        IUnOp::Ctz => u32_trailing_zeros(a as u32) as i32,
        IUnOp::Popcnt => popcount((a as u32) as nat, 32) as i32,
    }
}

pub open spec fn i64_unop(op: IUnOp, a: i64) -> i64 {
    match op {
        IUnOp::Clz => u64_leading_zeros(a as u64) as i64,
        IUnOp::Ctz => u64_trailing_zeros(a as u64) as i64,
        IUnOp::Popcnt => popcount((a as u64) as nat, 64) as i64,
    }
}

pub open spec fn i32_relop(op: IRelOp, a: i32, b: i32) -> bool {
    let (ua, ub) = (a as u32, b as u32);
    match op {
        IRelOp::Eq => a == b,
        IRelOp::Ne => a != b,
        IRelOp::LtS => a < b,
        IRelOp::LtU => ua < ub,
        IRelOp::GtS => a > b,
        IRelOp::GtU => ua > ub,
        IRelOp::LeS => a <= b,
        IRelOp::LeU => ua <= ub,
        IRelOp::GeS => a >= b,
        IRelOp::GeU => ua >= ub,
    }
}

pub open spec fn i64_relop(op: IRelOp, a: i64, b: i64) -> bool {
    let (ua, ub) = (a as u64, b as u64);
    match op {
        IRelOp::Eq => a == b,
        IRelOp::Ne => a != b,
        IRelOp::LtS => a < b,
        IRelOp::LtU => ua < ub,
        IRelOp::GtS => a > b,
        IRelOp::GtU => ua > ub,
        IRelOp::LeS => a <= b,
        IRelOp::LeU => ua <= ub,
        IRelOp::GeS => a >= b,
        IRelOp::GeU => ua >= ub,
    }
}

/// 32-bit integer arithmetic: wrapping add/sub/mul, trapping division.
pub open spec fn i32_binop(op: IBinOp, a: i32, b: i32) -> Result<i32, Error> {
    let (ua, ub) = (a as u32, b as u32);
    match op {
        IBinOp::Add => Ok(a.wrapping_add(b)),
        IBinOp::Sub => Ok(a.wrapping_sub(b)),
        IBinOp::Mul => Ok(a.wrapping_mul(b)),
        IBinOp::DivS => if b == 0 {
            Err(Error::DivideByZero)
        } else {
            match a.checked_div(b) {
                Some(q) => Ok(q),
                None => Err(Error::IntegerOverflow),
            }
        },
        IBinOp::DivU => if ub == 0 {
            Err(Error::DivideByZero)
        } else {
            Ok((ua / ub) as i32)
        },
        IBinOp::RemS => if b == 0 {
            Err(Error::DivideByZero)
        } else if b == -1 {
            Ok(0)
        } else {
            match a.checked_rem(b) {
                Some(q) => Ok(q),
                None => Ok(0),
            }
        },
        IBinOp::RemU => if ub == 0 {
            Err(Error::DivideByZero)
        } else {
            Ok((ua % ub) as i32)
        },
        IBinOp::And => Ok(a & b),
        IBinOp::Or => Ok(a | b),
        IBinOp::Xor => Ok(a ^ b),
        IBinOp::Shl => Ok(a.wrapping_shl(ub)),
        IBinOp::ShrS => Ok(a.wrapping_shr(ub)),
        IBinOp::ShrU => Ok(ua.wrapping_shr(ub) as i32),
        IBinOp::Rotl => Ok(rotl32(ua, ub) as i32),
        IBinOp::Rotr => Ok(rotl32(ua, (32 - ub % 32) as u32) as i32),
    }
}

/// 64-bit integer arithmetic, as for `i32_binop`.
pub open spec fn i64_binop(op: IBinOp, a: i64, b: i64) -> Result<i64, Error> {
    let (ua, ub) = (a as u64, b as u64);
    match op {
        IBinOp::Add => Ok(a.wrapping_add(b)),
        IBinOp::Sub => Ok(a.wrapping_sub(b)),
        IBinOp::Mul => Ok(a.wrapping_mul(b)),
        IBinOp::DivS => if b == 0 {
            Err(Error::DivideByZero)
        } else {
            match a.checked_div(b) {
                Some(q) => Ok(q),
                None => Err(Error::IntegerOverflow),
            }
        },
        IBinOp::DivU => if ub == 0 {
            Err(Error::DivideByZero)
        } else {
            Ok((ua / ub) as i64)
        },
        IBinOp::RemS => if b == 0 {
            Err(Error::DivideByZero)
        } else if b == -1 {
            Ok(0)
        } else {
            match a.checked_rem(b) {
                Some(q) => Ok(q),
                None => Ok(0),
            }
        },
        IBinOp::RemU => if ub == 0 {
            Err(Error::DivideByZero)
        } else {
            Ok((ua % ub) as i64)
        },
        IBinOp::And => Ok(a & b),
        IBinOp::Or => Ok(a | b),
        IBinOp::Xor => Ok(a ^ b),
        IBinOp::Shl => Ok(a.wrapping_shl((ub % 64) as u32)),
        IBinOp::ShrS => Ok(a.wrapping_shr((ub % 64) as u32)),
        IBinOp::ShrU => Ok(ua.wrapping_shr((ub % 64) as u32) as i64),
        IBinOp::Rotl => Ok(rotl64(ua, ub) as i64),
        IBinOp::Rotr => Ok(rotl64(ua, (64 - ub % 64) as u64) as i64),
    }
}

fn popcnt(x: u64, bits: u32) -> (r: u64)
    requires
        bits <= 64,
    ensures
        r as nat == popcount(x as nat, bits as nat),
{
    let mut v: u64 = x;
    let mut c: u64 = 0;
    let mut k: u32 = 0;
    while k < bits
        invariant
            k <= bits <= 64,
            c <= k,
            c + popcount(v as nat, (bits - k) as nat) == popcount(x as nat, bits as nat),
        decreases bits - k,
    {
        c = c + v % 2;
        v = v / 2;
        k = k + 1;
    }
    c
}

fn rotl_u32(x: u32, k: u32) -> (r: u32)
    ensures
        r == rotl32(x, k),
{
    let k = k % 32;
    if k == 0 {
        x
    } else {
        (x << k) | (x >> (32 - k))
    }
}

fn rotl_u64(x: u64, k: u64) -> (r: u64)
    ensures
        r == rotl64(x, k),
{
    let k = k % 64;
    if k == 0 {
        x
    } else {
        (x << k) | (x >> (64 - k))
    }
}

fn exec_i32_unop(op: IUnOp, a: i32) -> (r: i32)
    ensures
        r == i32_unop(op, a),
{
    match op {
        IUnOp::Clz => (a as u32).leading_zeros() as i32,
        IUnOp::Ctz => (a as u32).trailing_zeros() as i32,
        IUnOp::Popcnt => popcnt((a as u32) as u64, 32) as i32,
    }
}

fn exec_i64_unop(op: IUnOp, a: i64) -> (r: i64)
    ensures
        r == i64_unop(op, a),
{
    match op {
        IUnOp::Clz => (a as u64).leading_zeros() as i64,
        IUnOp::Ctz => (a as u64).trailing_zeros() as i64,
        IUnOp::Popcnt => popcnt(a as u64, 64) as i64,
    }
}

fn exec_i32_relop(op: IRelOp, a: i32, b: i32) -> (r: bool)
    ensures
        r == i32_relop(op, a, b),
{
    let (ua, ub) = (a as u32, b as u32);
    match op {
        IRelOp::Eq => a == b,
        IRelOp::Ne => a != b,
        IRelOp::LtS => a < b,
        IRelOp::LtU => ua < ub,
        IRelOp::GtS => a > b,
        IRelOp::GtU => ua > ub,
        IRelOp::LeS => a <= b,
        IRelOp::LeU => ua <= ub,
        IRelOp::GeS => a >= b,
        IRelOp::GeU => ua >= ub,
    }
}

fn exec_i64_relop(op: IRelOp, a: i64, b: i64) -> (r: bool)
    ensures
        r == i64_relop(op, a, b),
{
    let (ua, ub) = (a as u64, b as u64);
    match op {
        IRelOp::Eq => a == b,
        IRelOp::Ne => a != b,
        IRelOp::LtS => a < b,
        IRelOp::LtU => ua < ub,
        IRelOp::GtS => a > b,
        IRelOp::GtU => ua > ub,
        IRelOp::LeS => a <= b,
        IRelOp::LeU => ua <= ub,
        IRelOp::GeS => a >= b,
        IRelOp::GeU => ua >= ub,
    }
}

fn exec_i32_binop(op: IBinOp, a: i32, b: i32) -> (r: Result<i32, Error>)
    ensures
        r == i32_binop(op, a, b),
{
    let (ua, ub) = (a as u32, b as u32);
    match op {
        IBinOp::Add => Ok(a.wrapping_add(b)),
        IBinOp::Sub => Ok(a.wrapping_sub(b)),
        IBinOp::Mul => Ok(a.wrapping_mul(b)),
        IBinOp::DivS => if b == 0 {
            Err(Error::DivideByZero)
        } else {
            match a.checked_div(b) {
                Some(q) => Ok(q),
                None => Err(Error::IntegerOverflow),
            }
        },
        IBinOp::DivU => if ub == 0 {
            Err(Error::DivideByZero)
        } else {
            Ok((ua / ub) as i32)
        },
        IBinOp::RemS => if b == 0 {
            Err(Error::DivideByZero)
        } else if b == -1 {
            Ok(0)
        } else {
            match a.checked_rem(b) {
                Some(q) => Ok(q),
                None => Ok(0),
            }
        },
        IBinOp::RemU => if ub == 0 {
            Err(Error::DivideByZero)
        } else {
            Ok((ua % ub) as i32)
        },
        IBinOp::And => Ok(a & b),
        IBinOp::Or => Ok(a | b),
        IBinOp::Xor => Ok(a ^ b),
        IBinOp::Shl => Ok(a.wrapping_shl(ub)),
        IBinOp::ShrS => Ok(a.wrapping_shr(ub)),
        IBinOp::ShrU => Ok(ua.wrapping_shr(ub) as i32),
        IBinOp::Rotl => Ok(rotl_u32(ua, ub) as i32),
        IBinOp::Rotr => Ok(rotl_u32(ua, 32 - ub % 32) as i32),
    }
}

fn exec_i64_binop(op: IBinOp, a: i64, b: i64) -> (r: Result<i64, Error>)
    ensures
        r == i64_binop(op, a, b),
{
    let (ua, ub) = (a as u64, b as u64);
    match op {
        IBinOp::Add => Ok(a.wrapping_add(b)),
        IBinOp::Sub => Ok(a.wrapping_sub(b)),
        IBinOp::Mul => Ok(a.wrapping_mul(b)),
        IBinOp::DivS => if b == 0 {
            Err(Error::DivideByZero)
        } else {
            match a.checked_div(b) {
                Some(q) => Ok(q),
                None => Err(Error::IntegerOverflow),
            }
        },
        IBinOp::DivU => if ub == 0 {
            Err(Error::DivideByZero)
        } else {
            Ok((ua / ub) as i64)
        },
        IBinOp::RemS => if b == 0 {
            Err(Error::DivideByZero)
        } else if b == -1 {
            Ok(0)
        } else {
            match a.checked_rem(b) {
                Some(q) => Ok(q),
                None => Ok(0),
            }
        },
        IBinOp::RemU => if ub == 0 {
            Err(Error::DivideByZero)
        } else {
            Ok((ua % ub) as i64)
        },
        IBinOp::And => Ok(a & b),
        IBinOp::Or => Ok(a | b),
        IBinOp::Xor => Ok(a ^ b),
        IBinOp::Shl => Ok(a.wrapping_shl((ub % 64) as u32)),
        IBinOp::ShrS => Ok(a.wrapping_shr((ub % 64) as u32)),
        IBinOp::ShrU => Ok(ua.wrapping_shr((ub % 64) as u32) as i64),
        IBinOp::Rotl => Ok(rotl_u64(ua, ub) as i64),
        IBinOp::Rotr => Ok(rotl_u64(ua, 64 - ub % 64) as i64),
    }
}

// ---------------------------------------------------------------- operand shapes

/// The stack without its top value, and that value as an `i32`.
pub open spec fn pop_i32(st: Seq<Value>) -> Result<(Seq<Value>, i32), Error> {
    if st.len() < 1 {
        Err(Error::StackUnderflow)
    } else {
        match st.last() {
            Value::I32(a) => Ok((st.drop_last(), a)),
            _ => Err(Error::TypeMismatch),
        }
    }
}

pub open spec fn pop_i64(st: Seq<Value>) -> Result<(Seq<Value>, i64), Error> {
    if st.len() < 1 {
        Err(Error::StackUnderflow)
    } else {
        match st.last() {
            Value::I64(a) => Ok((st.drop_last(), a)),
            _ => Err(Error::TypeMismatch),
        }
    }
}

/// The stack without its two top values, and those values as `i32`s (the
/// deeper one first).
pub open spec fn pop2_i32(st: Seq<Value>) -> Result<(Seq<Value>, i32, i32), Error> {
    if st.len() < 2 {
        Err(Error::StackUnderflow)
    } else {
        match (st[st.len() - 2], st[st.len() - 1]) {
            (Value::I32(a), Value::I32(b)) => Ok((st.take(st.len() - 2), a, b)),
            _ => Err(Error::TypeMismatch),
        }
    }
}

pub open spec fn pop2_i64(st: Seq<Value>) -> Result<(Seq<Value>, i64, i64), Error> {
    if st.len() < 2 {
        Err(Error::StackUnderflow)
    } else {
        match (st[st.len() - 2], st[st.len() - 1]) {
            (Value::I64(a), Value::I64(b)) => Ok((st.take(st.len() - 2), a, b)),
            _ => Err(Error::TypeMismatch),
        }
    }
}

/// Whether the top `n` values are there and all of type `t`; the error if not.
pub open spec fn check_top(st: Seq<Value>, n: nat, t: ValType) -> Option<Error> {
    if st.len() < n {
        Some(Error::StackUnderflow)
    } else if exists|i: int| st.len() - n <= i < st.len() && (#[trigger] st[i]).spec_type() != t {
        Some(Error::TypeMismatch)
    } else {
        None
    }
}

/// Operand count and type of a floating-point instruction, and the type of
/// its result; `None` for any other instruction.
pub open spec fn float_shape(instr: Instr) -> Option<(nat, ValType, ValType)> {
    match instr {
        Instr::F32Un(_) => Some((1, ValType::F32, ValType::F32)),
        Instr::F64Un(_) => Some((1, ValType::F64, ValType::F64)),
        Instr::F32Bin(_) => Some((2, ValType::F32, ValType::F32)),
        Instr::F64Bin(_) => Some((2, ValType::F64, ValType::F64)),
        Instr::F32Rel(_) => Some((2, ValType::F32, ValType::I32)),
        Instr::F64Rel(_) => Some((2, ValType::F64, ValType::I32)),
        _ => None,
    }
}

// ---------------------------------------------------------------- one step

/// What one instruction does to the operand stack.
pub enum Step {
    Next(Seq<Value>),
    Return,
    Trap(Error),
    /// A floating-point instruction whose operands are in place.
    Float,
}

pub open spec fn spec_step(st: Seq<Value>, instr: Instr) -> Step {
    match instr {
        Instr::Unreachable => Step::Trap(Error::Unreachable),
        Instr::Nop => Step::Next(st),
        Instr::Return => Step::Return,
        Instr::Drop => if st.len() < 1 {
            Step::Trap(Error::StackUnderflow)
        } else {
            Step::Next(st.drop_last())
        },
        Instr::Select(t) => if st.len() < 3 {
            Step::Trap(Error::StackUnderflow)
        } else {
            let a = st[st.len() - 3];
            let b = st[st.len() - 2];
            match st[st.len() - 1] {
                Value::I32(c) => if a.spec_type() != b.spec_type() || (t is Some && t != Some(
                    a.spec_type(),
                )) {
                    Step::Trap(Error::TypeMismatch)
                } else {
                    Step::Next(st.take(st.len() - 3).push(if c != 0 { a } else { b }))
                },
                _ => Step::Trap(Error::TypeMismatch),
            }
        },
        Instr::I32Const(v) => Step::Next(st.push(Value::I32(v))),
        Instr::I64Const(v) => Step::Next(st.push(Value::I64(v))),
        Instr::F32Const(v) => Step::Next(st.push(Value::F32(v))),
        Instr::F64Const(v) => Step::Next(st.push(Value::F64(v))),
        Instr::I32Eqz => match pop_i32(st) {
            Ok((rest, a)) => Step::Next(rest.push(Value::I32(bool_i32(a == 0)))),
            Err(e) => Step::Trap(e),
        },
        Instr::I64Eqz => match pop_i64(st) {
            Ok((rest, a)) => Step::Next(rest.push(Value::I32(bool_i32(a == 0)))),
            Err(e) => Step::Trap(e),
        },
        Instr::I32Un(op) => match pop_i32(st) {
            Ok((rest, a)) => Step::Next(rest.push(Value::I32(i32_unop(op, a)))),
            Err(e) => Step::Trap(e),
        },
        Instr::I64Un(op) => match pop_i64(st) {
            Ok((rest, a)) => Step::Next(rest.push(Value::I64(i64_unop(op, a)))),
            Err(e) => Step::Trap(e),
        },
        Instr::I32Rel(op) => match pop2_i32(st) {
            Ok((rest, a, b)) => Step::Next(rest.push(Value::I32(bool_i32(i32_relop(op, a, b))))),
            Err(e) => Step::Trap(e),
        },
        Instr::I64Rel(op) => match pop2_i64(st) {
            Ok((rest, a, b)) => Step::Next(rest.push(Value::I32(bool_i32(i64_relop(op, a, b))))),
            Err(e) => Step::Trap(e),
        },
        Instr::I32Bin(op) => match pop2_i32(st) {
            Ok((rest, a, b)) => match i32_binop(op, a, b) {
                Ok(v) => Step::Next(rest.push(Value::I32(v))),
                Err(e) => Step::Trap(e),
            },
            Err(e) => Step::Trap(e),
        },
        Instr::I64Bin(op) => match pop2_i64(st) {
            Ok((rest, a, b)) => match i64_binop(op, a, b) {
                Ok(v) => Step::Next(rest.push(Value::I64(v))),
                Err(e) => Step::Trap(e),
            },
            Err(e) => Step::Trap(e),
        },
        _ => match float_shape(instr) {
            Some((n, t, _)) => match check_top(st, n, t) {
                Some(e) => Step::Trap(e),
                None => Step::Float,
            },
            None => Step::Float,
        },
    }
}

fn take_i32(stack: &mut Vec<Value>) -> (r: Result<i32, Error>)
    ensures
        match pop_i32(old(stack)@) {
            Ok((rest, a)) => r == Ok::<i32, Error>(a) && final(stack)@ == rest,
            Err(e) => r == Err::<i32, Error>(e) && final(stack)@ == old(stack)@,
        },
{
    if stack.len() < 1 {
        return Err(Error::StackUnderflow);
    }
    match stack[stack.len() - 1] {
        Value::I32(a) => {
            stack.pop();
            Ok(a)
        },
        _ => Err(Error::TypeMismatch),
    }
}

fn take_i64(stack: &mut Vec<Value>) -> (r: Result<i64, Error>)
    ensures
        match pop_i64(old(stack)@) {
            Ok((rest, a)) => r == Ok::<i64, Error>(a) && final(stack)@ == rest,
            Err(e) => r == Err::<i64, Error>(e) && final(stack)@ == old(stack)@,
        },
{
    if stack.len() < 1 {
        return Err(Error::StackUnderflow);
    }
    match stack[stack.len() - 1] {
        Value::I64(a) => {
            stack.pop();
            Ok(a)
        },
        _ => Err(Error::TypeMismatch),
    }
}

fn take2_i32(stack: &mut Vec<Value>) -> (r: Result<(i32, i32), Error>)
    ensures
        match pop2_i32(old(stack)@) {
            Ok((rest, a, b)) => r == Ok::<(i32, i32), Error>((a, b)) && final(stack)@ == rest,
            Err(e) => r == Err::<(i32, i32), Error>(e) && final(stack)@ == old(stack)@,
        },
{
    let n = stack.len();
    if n < 2 {
        return Err(Error::StackUnderflow);
    }
    match (stack[n - 2], stack[n - 1]) {
        (Value::I32(a), Value::I32(b)) => {
            stack.pop();
            stack.pop();
            assert(stack@ =~= old(stack)@.take(n - 2));
            Ok((a, b))
        },
        _ => Err(Error::TypeMismatch),
    }
}

fn take2_i64(stack: &mut Vec<Value>) -> (r: Result<(i64, i64), Error>)
    ensures
        match pop2_i64(old(stack)@) {
            Ok((rest, a, b)) => r == Ok::<(i64, i64), Error>((a, b)) && final(stack)@ == rest,
            Err(e) => r == Err::<(i64, i64), Error>(e) && final(stack)@ == old(stack)@,
        },
{
    let n = stack.len();
    if n < 2 {
        return Err(Error::StackUnderflow);
    }
    match (stack[n - 2], stack[n - 1]) {
        (Value::I64(a), Value::I64(b)) => {
            stack.pop();
            stack.pop();
            assert(stack@ =~= old(stack)@.take(n - 2));
            Ok((a, b))
        },
        _ => Err(Error::TypeMismatch),
    }
}

fn check_top_exec(stack: &Vec<Value>, n: usize, t: ValType) -> (r: Option<Error>)
    ensures
        r == check_top(stack@, n as nat, t),
{
    let len = stack.len();
    if len < n {
        return Some(Error::StackUnderflow);
    }
    let mut i: usize = len - n;
    while i < len
        invariant
            len == stack@.len(),
            n <= len,
            len - n <= i <= len,
            forall|j: int| len - n <= j < i ==> (#[trigger] stack@[j]).spec_type() == t,
        decreases len - i,
    {
        if stack[i].value_type() != t {
            assert(stack@[i as int].spec_type() != t);
            return Some(Error::TypeMismatch);
        }
        i = i + 1;
    }
    None
}

/// What one step of execution did.
#[derive(Debug, Clone, Copy, PartialEq, Eq, Structural)]
pub enum StepOutcome {
    Continue,
    Return,
    Trapped(Error),
    Float,
}

/// The executable outcome and the new stack agree with the spec-level step.
pub open spec fn step_agrees(s: Step, r: StepOutcome, before: Seq<Value>, after: Seq<Value>) -> bool {
    match s {
        Step::Next(st) => r == StepOutcome::Continue && after == st,
        Step::Return => r == StepOutcome::Return && after == before,
        Step::Trap(e) => r == StepOutcome::Trapped(e) && after == before,
        Step::Float => r == StepOutcome::Float && after == before,
    }
}

/// Executes one instruction on the operand stack.
#[verifier::rlimit(50)]
pub fn step(stack: &mut Vec<Value>, instr: Instr) -> (r: StepOutcome)
    ensures
        step_agrees(spec_step(old(stack)@, instr), r, old(stack)@, final(stack)@),
{
    match instr {
        Instr::Unreachable => StepOutcome::Trapped(Error::Unreachable),
        Instr::Nop => StepOutcome::Continue,
        Instr::Return => StepOutcome::Return,
        Instr::Drop => {
            if stack.len() < 1 {
                StepOutcome::Trapped(Error::StackUnderflow)
            } else {
                stack.pop();
                StepOutcome::Continue
            }
        },
        Instr::Select(t) => {
            let n = stack.len();
            if n < 3 {
                return StepOutcome::Trapped(Error::StackUnderflow);
            }
            let a = stack[n - 3];
            let b = stack[n - 2];
            match stack[n - 1] {
                Value::I32(c) => {
                    let ta = a.value_type();
                    let bad_annotation = match t {
                        Some(u) => u != ta,
                        None => false,
                    };
                    if ta != b.value_type() || bad_annotation {
                        StepOutcome::Trapped(Error::TypeMismatch)
                    } else {
                        stack.pop();
                        stack.pop();
                        stack.pop();
                        assert(stack@ =~= old(stack)@.take(n - 3));
                        stack.push(if c != 0 { a } else { b });
                        StepOutcome::Continue
                    }
                },
                _ => StepOutcome::Trapped(Error::TypeMismatch),
            }
        },
        Instr::I32Const(v) => {
            stack.push(Value::I32(v));
            StepOutcome::Continue
        },
        Instr::I64Const(v) => {
            stack.push(Value::I64(v));
            StepOutcome::Continue
        },
        Instr::F32Const(v) => {
            stack.push(Value::F32(v));
            StepOutcome::Continue
        },
        Instr::F64Const(v) => {
            stack.push(Value::F64(v));
            StepOutcome::Continue
        },
        Instr::I32Eqz => match take_i32(stack) {
            Ok(a) => {
                stack.push(Value::I32(if a == 0 { 1 } else { 0 }));
                StepOutcome::Continue
            },
            Err(e) => StepOutcome::Trapped(e),
        },
        Instr::I64Eqz => match take_i64(stack) {
            Ok(a) => {
                stack.push(Value::I32(if a == 0 { 1 } else { 0 }));
                StepOutcome::Continue
            },
            Err(e) => StepOutcome::Trapped(e),
        },
        Instr::I32Un(op) => match take_i32(stack) {
            Ok(a) => {
                stack.push(Value::I32(exec_i32_unop(op, a)));
                StepOutcome::Continue
            },
            Err(e) => StepOutcome::Trapped(e),
        },
        Instr::I64Un(op) => match take_i64(stack) {
            Ok(a) => {
                stack.push(Value::I64(exec_i64_unop(op, a)));
                StepOutcome::Continue
            },
            Err(e) => StepOutcome::Trapped(e),
        },
        Instr::I32Rel(op) => match take2_i32(stack) {
            Ok((a, b)) => {
                stack.push(Value::I32(if exec_i32_relop(op, a, b) { 1 } else { 0 }));
                StepOutcome::Continue
            },
            Err(e) => StepOutcome::Trapped(e),
        },
        Instr::I64Rel(op) => match take2_i64(stack) {
            Ok((a, b)) => {
                stack.push(Value::I32(if exec_i64_relop(op, a, b) { 1 } else { 0 }));
                StepOutcome::Continue
            },
            Err(e) => StepOutcome::Trapped(e),
        },
        Instr::I32Bin(op) => {
            let n = stack.len();
            if n >= 2 {
                if let (Value::I32(a), Value::I32(b)) = (stack[n - 2], stack[n - 1]) {
                    match exec_i32_binop(op, a, b) {
                        Ok(v) => {
                            stack.pop();
                            stack.pop();
                            assert(stack@ =~= old(stack)@.take(n - 2));
                            stack.push(Value::I32(v));
                            return StepOutcome::Continue;
                        },
                        Err(e) => {
                            return StepOutcome::Trapped(e);
                        },
                    }
                }
            }
            match take2_i32(stack) {
                Ok(_) => StepOutcome::Continue,
                Err(e) => StepOutcome::Trapped(e),
            }
        },
        Instr::I64Bin(op) => {
            let n = stack.len();
            if n >= 2 {
                if let (Value::I64(a), Value::I64(b)) = (stack[n - 2], stack[n - 1]) {
                    match exec_i64_binop(op, a, b) {
                        Ok(v) => {
                            stack.pop();
                            stack.pop();
                            assert(stack@ =~= old(stack)@.take(n - 2));
                            stack.push(Value::I64(v));
                            return StepOutcome::Continue;
                        },
                        Err(e) => {
                            return StepOutcome::Trapped(e);
                        },
                    }
                }
            }
            match take2_i64(stack) {
                Ok(_) => StepOutcome::Continue,
                Err(e) => StepOutcome::Trapped(e),
            }
        },
        Instr::F32Un(_) => float_step(stack, 1, ValType::F32),
        Instr::F64Un(_) => float_step(stack, 1, ValType::F64),
        Instr::F32Bin(_) => float_step(stack, 2, ValType::F32),
        Instr::F64Bin(_) => float_step(stack, 2, ValType::F64),
        Instr::F32Rel(_) => float_step(stack, 2, ValType::F32),
        Instr::F64Rel(_) => float_step(stack, 2, ValType::F64),
    }
}

fn float_step(stack: &Vec<Value>, n: usize, t: ValType) -> (r: StepOutcome)
    ensures
        r == match check_top(stack@, n as nat, t) {
            Some(e) => StepOutcome::Trapped(e),
            None => StepOutcome::Float,
        },
{
    match check_top_exec(stack, n, t) {
        Some(e) => StepOutcome::Trapped(e),
        None => StepOutcome::Float,
    }
}

// ---------------------------------------------------------------- the loop

/// Why execution of an instruction sequence stopped.
#[derive(Debug, Clone, Copy, PartialEq, Eq, Structural)]
pub enum Halt {
    /// The end of the body or a `return` was reached.
    Done,
    Trapped(Error),
    /// The instruction at the program counter is a floating-point operation
    /// whose operands are on top of the stack.
    Float,
}

/// Runs `instrs` from `pc` on the operand stack `st`: how execution stops,
/// the stack then, and the program counter then.
pub open spec fn spec_run(instrs: Seq<Instr>, pc: int, st: Seq<Value>) -> (Halt, Seq<Value>, int)
    decreases instrs.len() - pc,
{
    if pc < 0 || pc >= instrs.len() {
        (Halt::Done, st, pc)
    } else {
        match spec_step(st, instrs[pc]) {
            Step::Next(st2) => spec_run(instrs, pc + 1, st2),
            Step::Return => (Halt::Done, st, pc),
            Step::Trap(e) => (Halt::Trapped(e), st, pc),
            Step::Float => (Halt::Float, st, pc),
        }
    }
}

/// Executes `instrs` from `*pc` until the end, a `return`, a trap, or a
/// floating-point instruction.
pub fn execute(instrs: &Vec<Instr>, pc: &mut usize, stack: &mut Vec<Value>) -> (r: Halt)
    ensures
        spec_run(instrs@, *old(pc) as int, old(stack)@) == (r, final(stack)@, *final(pc) as int),
{
    let ghost start = spec_run(instrs@, *pc as int, stack@);
    while *pc < instrs.len()
        invariant
            start == spec_run(instrs@, *pc as int, stack@),
            start == spec_run(instrs@, *old(pc) as int, old(stack)@),
        decreases instrs@.len() - *pc,
    {
        match step(stack, instrs[*pc]) {
            StepOutcome::Continue => {
                *pc = *pc + 1;
            },
            StepOutcome::Return => {
                return Halt::Done;
            },
            StepOutcome::Trapped(e) => {
                return Halt::Trapped(e);
            },
            StepOutcome::Float => {
                return Halt::Float;
            },
        }
    }
    Halt::Done
}

/// Replaces the operands of the floating-point instruction `instr` on top of
/// the stack with its `result`, as computed by the caller.
pub open spec fn spec_complete_float(st: Seq<Value>, instr: Instr, result: Value) -> Result<
    Seq<Value>,
    Error,
> {
    match float_shape(instr) {
        Some((n, t, rt)) => match check_top(st, n, t) {
            Some(e) => Err(e),
            None => if result.spec_type() != rt {
                Err(Error::TypeMismatch)
            } else {
                Ok(st.take(st.len() - n).push(result))
            },
        },
        None => Err(Error::TypeMismatch),
    }
}

pub fn complete_float(stack: &mut Vec<Value>, instr: Instr, result: Value) -> (r: Result<(), Error>)
    ensures
        match spec_complete_float(old(stack)@, instr, result) {
            Ok(st) => r is Ok && final(stack)@ == st,
            Err(e) => r == Err::<(), Error>(e) && final(stack)@ == old(stack)@,
        },
{
    let (n, t, rt): (usize, ValType, ValType) = match instr {
        Instr::F32Un(_) => (1, ValType::F32, ValType::F32),
        Instr::F64Un(_) => (1, ValType::F64, ValType::F64),
        Instr::F32Bin(_) => (2, ValType::F32, ValType::F32),
        Instr::F64Bin(_) => (2, ValType::F64, ValType::F64),
        Instr::F32Rel(_) => (2, ValType::F32, ValType::I32),
        Instr::F64Rel(_) => (2, ValType::F64, ValType::I32),
        _ => {
            return Err(Error::TypeMismatch);
        },
    };
    if let Some(e) = check_top_exec(stack, n, t) {
        return Err(e);
    }
    if result.value_type() != rt {
        return Err(Error::TypeMismatch);
    }
    let len = stack.len();
    stack.truncate(len - n);
    stack.push(result);
    Ok(())
}

} // verus!
