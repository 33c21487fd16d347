//! Value types, runtime values and the small tagged kinds of the binary format.
use vstd::prelude::*;

verus! {

/// The type of a value.
#[derive(Debug, Clone, Copy, PartialEq, Eq, Structural)]
pub enum ValType {
    I32,
    I64,
    F32,
    F64,
    V128,
    FuncRef,
    ExternRef,
}

/// A runtime value. Floating-point values are held as their IEEE 754 bit
/// patterns; references as the index they refer to.
#[derive(Debug, Clone, Copy, PartialEq, Eq, Structural)]
pub enum Value {
    I32(i32),
    I64(i64),
    F32(u32),
    F64(u64),
    V128(u128),
    FuncRef(u32),
    ExternRef(u32),
}

/// Whether a global may be written after instantiation.
#[derive(Debug, Clone, Copy, PartialEq, Eq, Structural)]
pub enum GlobalMut {
    Const,
    Var,
}

/// What an export names.
#[derive(Debug, Clone, Copy, PartialEq, Eq, Structural)]
pub enum ExportDesc {
    FuncIdx,
    TableIdx,
    MemIdx,
    GlobalIdx,
}

/// The element type of a table.
#[derive(Debug, Clone, Copy, PartialEq, Eq, Structural)]
pub enum RefType {
    FuncRef,
    ExternRef,
}

/// Size bounds of a memory (in pages) or a table (in elements).
#[derive(Debug, Clone, Copy, PartialEq, Eq, Structural)]
pub struct Limit {
    pub min: u32,
    pub max: Option<u32>,
}

impl View for ValType {
    type V = ValType;

    open spec fn view(&self) -> ValType {
        *self
    }
}

impl View for RefType {
    type V = RefType;

    open spec fn view(&self) -> RefType {
        *self
    }
}

impl View for Limit {
    type V = Limit;

    open spec fn view(&self) -> Limit {
        *self
    }
}

impl ValType {
    /// The value type that a type-tag byte stands for.
    pub open spec fn spec_from_byte(b: u8) -> Option<ValType> {
        if b == 0x7F {
            Some(ValType::I32)
        } else if b == 0x7E {
            Some(ValType::I64)
        } else if b == 0x7D {
            Some(ValType::F32)
        } else if b == 0x7C {
            Some(ValType::F64)
        } else if b == 0x7B {
            Some(ValType::V128)
        } else if b == 0x70 {
            Some(ValType::FuncRef)
        } else if b == 0x6F {
            Some(ValType::ExternRef)
        } else {
            None
        }
    }

    /// Reads a type-tag byte; `None` for a byte that tags no value type.
    pub fn from_byte(b: u8) -> (r: Option<ValType>)
        ensures
            r == Self::spec_from_byte(b),
    {
        match b {
            0x7F => Some(ValType::I32),
            0x7E => Some(ValType::I64),
            0x7D => Some(ValType::F32),
            0x7C => Some(ValType::F64),
            0x7B => Some(ValType::V128),
            0x70 => Some(ValType::FuncRef),
            0x6F => Some(ValType::ExternRef),
            _ => None,
        }
    }

    /// The zero value of this type: what a declared local starts as.
    pub open spec fn spec_zero(self) -> Value {
        match self {
            ValType::I32 => Value::I32(0),
            ValType::I64 => Value::I64(0),
            ValType::F32 => Value::F32(0),
            ValType::F64 => Value::F64(0),
            ValType::V128 => Value::V128(0),
            ValType::FuncRef => Value::FuncRef(0),
            ValType::ExternRef => Value::ExternRef(0),
        }
    }

    pub fn zero(self) -> (r: Value)
        ensures
            r == self.spec_zero(),
            r.spec_type() == self,
    {
        match self {
            ValType::I32 => Value::I32(0),
            ValType::I64 => Value::I64(0),
            ValType::F32 => Value::F32(0),
            ValType::F64 => Value::F64(0),
            ValType::V128 => Value::V128(0),
            ValType::FuncRef => Value::FuncRef(0),
            ValType::ExternRef => Value::ExternRef(0),
        }
    }
}

impl Value {
    /// The type tag of a value.
    pub open spec fn spec_type(self) -> ValType {
        match self {
            Value::I32(_) => ValType::I32,
            Value::I64(_) => ValType::I64,
            Value::F32(_) => ValType::F32,
            Value::F64(_) => ValType::F64,
            Value::V128(_) => ValType::V128,
            Value::FuncRef(_) => ValType::FuncRef,
            Value::ExternRef(_) => ValType::ExternRef,
        }
    }

    pub fn value_type(&self) -> (r: ValType)
        ensures
            r == self.spec_type(),
    {
        match self {
            Value::I32(_) => ValType::I32,
            Value::I64(_) => ValType::I64,
            Value::F32(_) => ValType::F32,
            Value::F64(_) => ValType::F64,
            Value::V128(_) => ValType::V128,
            Value::FuncRef(_) => ValType::FuncRef,
            Value::ExternRef(_) => ValType::ExternRef,
        }
    }
}

impl GlobalMut {
    pub open spec fn spec_from_byte(b: u8) -> Option<GlobalMut> {
        if b == 0x00 {
            Some(GlobalMut::Const)
        } else if b == 0x01 {
            Some(GlobalMut::Var)
        } else {
            None
        }
    }

    /// Reads a mutability byte: `0x00` const, `0x01` var.
    pub fn from_byte(b: u8) -> (r: Option<GlobalMut>)
        ensures
            r == Self::spec_from_byte(b),
    {
        match b {
            0x00 => Some(GlobalMut::Const),
            0x01 => Some(GlobalMut::Var),
            _ => None,
        }
    }
}

impl ExportDesc {
    pub open spec fn spec_from_byte(b: u8) -> Option<ExportDesc> {
        if b == 0x00 {
            Some(ExportDesc::FuncIdx)
        } else if b == 0x01 {
            Some(ExportDesc::TableIdx)
        } else if b == 0x02 {
            Some(ExportDesc::MemIdx)
        } else if b == 0x03 {
            Some(ExportDesc::GlobalIdx)
        } else {
            None
        }
    }

    /// Reads an export descriptor byte: function, table, memory or global.
    pub fn from_byte(b: u8) -> (r: Option<ExportDesc>)
        ensures
            r == Self::spec_from_byte(b),
    {
        match b {
            0x00 => Some(ExportDesc::FuncIdx),
            0x01 => Some(ExportDesc::TableIdx),
            0x02 => Some(ExportDesc::MemIdx),
            0x03 => Some(ExportDesc::GlobalIdx),
            _ => None,
        }
    }
}

impl RefType {
    pub open spec fn spec_from_byte(b: u8) -> Option<RefType> {
        if b == 0x70 {
            Some(RefType::FuncRef)
        } else if b == 0x6F {
            Some(RefType::ExternRef)
        } else {
            None
        }
    }

    /// Reads a reference type byte: `0x70` funcref, `0x6F` externref.
    pub fn from_byte(b: u8) -> (r: Option<RefType>)
        ensures
            r == Self::spec_from_byte(b),
    {
        match b {
            0x70 => Some(RefType::FuncRef),
            0x6F => Some(RefType::ExternRef),
            _ => None,
        }
    }
}

} // verus!
