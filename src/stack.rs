//! The stack machine's three stacks: operands, open blocks, and call frames.
use vstd::prelude::*;
use crate::executor::Error;
use crate::value::Value;

verus! {

/// The values that instructions pop and push.
pub struct OperandStack {
    pub stack: Vec<Value>,
}

impl View for OperandStack {
    type V = Seq<Value>;

    open spec fn view(&self) -> Seq<Value> {
        self.stack@
    }
}

impl OperandStack {
    pub fn new() -> (r: OperandStack)
        ensures
            r@ == Seq::<Value>::empty(),
    {
        OperandStack { stack: Vec::new() }
    }

    pub fn push(&mut self, v: Value)
        ensures
            final(self)@ == old(self)@.push(v),
    {
        self.stack.push(v);
    }

    /// Removes the top value; fails with `StackUnderflow` on an empty stack.
    pub fn pop(&mut self) -> (r: Result<Value, Error>)
        ensures
            old(self)@.len() == 0 ==> r == Err::<Value, Error>(Error::StackUnderflow) && final(self)@
                == old(self)@,
            old(self)@.len() > 0 ==> r == Ok::<Value, Error>(old(self)@.last()) && final(self)@
                == old(self)@.drop_last(),
    {
        match self.stack.pop() {
            Some(v) => Ok(v),
            None => Err(Error::StackUnderflow),
        }
    }

    pub fn len(&self) -> (r: usize)
        ensures
            r == self@.len(),
    {
        self.stack.len()
    }
}

/// An open structured block: its result arity and the operand-stack height
/// at its entry.
#[derive(Debug, Clone, Copy, PartialEq, Eq, Structural)]
pub struct Label {
    pub arity: u32,
    pub height: usize,
}

/// One entry per open block.
pub struct ControlStack {
    pub labels: Vec<Label>,
}

impl ControlStack {
    pub fn new() -> (r: ControlStack)
        ensures
            r.labels@ == Seq::<Label>::empty(),
    {
        ControlStack { labels: Vec::new() }
    }

    pub fn push(&mut self, l: Label)
        ensures
            final(self).labels@ == old(self).labels@.push(l),
    {
        self.labels.push(l);
    }

    /// Closes the innermost block.
    pub fn pop(&mut self) -> (r: Option<Label>)
        ensures
            old(self).labels@.len() == 0 ==> r is None && final(self).labels@ == old(self).labels@,
            old(self).labels@.len() > 0 ==> r == Some(old(self).labels@.last())
                && final(self).labels@ == old(self).labels@.drop_last(),
    {
        self.labels.pop()
    }
}

/// An active call: the callee, its locals (parameters first), and where the
/// caller resumes.
pub struct Frame {
    pub func_idx: u32,
    pub locals: Vec<Value>,
    pub return_pc: usize,
    pub height: usize,
}

/// One frame per active call, at most `max_depth` of them.
pub struct CallStack {
    pub frames: Vec<Frame>,
    pub max_depth: usize,
}

impl CallStack {
    pub fn new(max_depth: usize) -> (r: CallStack)
        ensures
            r.frames@.len() == 0,
            r.max_depth == max_depth,
    {
        CallStack { frames: Vec::new(), max_depth }
    }

    pub fn depth(&self) -> (r: usize)
        ensures
            r == self.frames@.len(),
    {
        self.frames.len()
    }

    /// Enters a call; fails with `StackOverflow`, changing nothing, when
    /// `max_depth` frames are active.
    pub fn push(&mut self, f: Frame) -> (r: Result<(), Error>)
        ensures
            final(self).max_depth == old(self).max_depth,
            old(self).frames@.len() >= old(self).max_depth ==> r == Err::<(), Error>(
                Error::StackOverflow,
            ) && final(self).frames@ == old(self).frames@,
            old(self).frames@.len() < old(self).max_depth ==> r is Ok && final(self).frames@
                == old(self).frames@.push(f),
    {
        if self.frames.len() >= self.max_depth {
            return Err(Error::StackOverflow);
        }
        self.frames.push(f);
        Ok(())
    }

    /// Leaves the innermost call.
    pub fn pop(&mut self) -> (r: Option<Frame>)
        ensures
            final(self).max_depth == old(self).max_depth,
            old(self).frames@.len() == 0 ==> r is None && final(self).frames@ == old(self).frames@,
            old(self).frames@.len() > 0 ==> r == Some(old(self).frames@.last())
                && final(self).frames@ == old(self).frames@.drop_last(),
    {
        self.frames.pop()
    }
}

/// The machine state of one running invocation.
pub struct Stack {
    pub operand: OperandStack,
    pub control: ControlStack,
    pub call: CallStack,
}

} // verus!
