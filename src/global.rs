//! Globals of an instance: a typed, possibly mutable value cell.
use vstd::prelude::*;
use crate::value::{GlobalMut, ValType, Value};

verus! {

/// Why a write to a global was refused.
#[derive(Debug, Clone, Copy, PartialEq, Eq, Structural)]
pub enum SetError {
    /// The global is immutable.
    Const,
    /// The value's type is not the global's.
    TypeMismatch,
}

#[derive(Debug, Clone, Copy)]
pub struct Global {
    pub kind: GlobalMut,
    pub valtype: ValType,
    /// Absent until the initializer has been evaluated.
    pub value: Option<Value>,
}

impl Global {
    /// What `set` does: the global after the write, or why it was refused.
    pub open spec fn spec_set(self, val: Value) -> Result<Global, SetError> {
        if self.kind == GlobalMut::Const {
            Err(SetError::Const)
        } else if val.spec_type() != self.valtype {
            Err(SetError::TypeMismatch)
        } else {
            Ok(Global { value: Some(val), ..self })
        }
    }

    /// The current value of an initialized global.
    pub fn get(&self) -> (r: Value)
        requires
            self.value is Some,
        ensures
            self.value == Some(r),
    {
        match self.value {
            Some(v) => v,
            None => self.valtype.zero(),
        }
    }

    /// Writes `val`; refused, leaving the global unchanged, when the global
    /// is const or `val` has another type.
    pub fn set(&mut self, val: Value) -> (r: Result<(), SetError>)
        ensures
            match old(self).spec_set(val) {
                Ok(g) => r is Ok && *final(self) == g,
                Err(e) => r == Err::<(), SetError>(e) && *final(self) == *old(self),
            },
    {
        if self.kind == GlobalMut::Const {
            return Err(SetError::Const);
        }
        if val.value_type() != self.valtype {
            return Err(SetError::TypeMismatch);
        }
        self.value = Some(val);
        Ok(())
    }
}

/// A const global refuses every write, whatever the value; a var global
/// refuses a value of another type; a var global accepts a value of its type,
/// after which reading it returns that value.
pub proof fn lemma_set_rules(g: Global, val: Value)
    ensures
        g.kind == GlobalMut::Const ==> g.spec_set(val) == Err::<Global, SetError>(SetError::Const),
        g.kind == GlobalMut::Var && val.spec_type() != g.valtype ==> g.spec_set(val) == Err::<
            Global,
            SetError,
        >(SetError::TypeMismatch),
        g.kind == GlobalMut::Var && val.spec_type() == g.valtype ==> g.spec_set(val) is Ok
            && g.spec_set(val)->Ok_0.value == Some(val) && g.spec_set(val)->Ok_0.kind == g.kind
            && g.spec_set(val)->Ok_0.valtype == g.valtype,
{
}

} // verus!
