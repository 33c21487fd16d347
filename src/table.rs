//! Tables: growable sequences of function references, with the bounds
//! discipline of linear memory counted in elements.
use vstd::prelude::*;
use crate::executor::Error;
use crate::module::{Element, TableType};
use crate::value::RefType;

verus! {

/// The size in elements that a table with these bounds can reach.
pub open spec fn elem_limit(max: Option<u32>) -> nat {
    match max {
        Some(m) => m as nat,
        None => u32::MAX as nat,
    }
}

/// `n` copies of `r`.
pub open spec fn repeat_ref(r: Option<u32>, n: nat) -> Seq<Option<u32>> {
    Seq::new(n, |_i: int| r)
}

/// A table; `None` is the null reference.
#[derive(Debug)]
pub struct Table {
    pub elems: Vec<Option<u32>>,
    pub ref_type: RefType,
    pub initial: u32,
    pub max: Option<u32>,
}

impl Table {
    pub open spec fn wf(&self) -> bool {
        self.initial <= self.elems@.len() <= elem_limit(self.max)
    }

    /// A table of `ty.limit.min` null references; fails with
    /// `MemoryExhaustion` when the bounds admit no size.
    pub fn new(ty: TableType) -> (r: Result<Table, Error>)
        ensures
            r is Ok <==> ty.limit.min <= elem_limit(ty.limit.max),
            match r {
                Ok(t) => t.wf() && t.elems@ == repeat_ref(None, ty.limit.min as nat) && t.ref_type
                    == ty.ref_type && t.initial == ty.limit.min && t.max == ty.limit.max,
                Err(e) => e == Error::MemoryExhaustion,
            },
    {
        if let Some(m) = ty.limit.max {
            if ty.limit.min > m {
                return Err(Error::MemoryExhaustion);
            }
        }
        let mut elems: Vec<Option<u32>> = Vec::new();
        elems.resize(ty.limit.min as usize, None);
        assert(elems@ =~= repeat_ref(None, ty.limit.min as nat));
        Ok(Table { elems, ref_type: ty.ref_type, initial: ty.limit.min, max: ty.limit.max })
    }

    /// The current size in elements.
    pub fn size(&self) -> (r: u32)
        requires
            self.wf(),
        ensures
            r == self.elems@.len(),
    {
        self.elems.len() as u32
    }

    /// The element at `idx`; fails with `OutOfBoundTableAccess` past the end.
    pub fn get(&self, idx: u32) -> (r: Result<Option<u32>, Error>)
        ensures
            idx < self.elems@.len() ==> r == Ok::<Option<u32>, Error>(self.elems@[idx as int]),
            idx >= self.elems@.len() ==> r == Err::<Option<u32>, Error>(Error::OutOfBoundTableAccess),
    {
        if idx as usize >= self.elems.len() {
            return Err(Error::OutOfBoundTableAccess);
        }
        Ok(self.elems[idx as usize])
    }

    /// Stores `val` at `idx`; fails with `OutOfBoundTableAccess`, changing
    /// nothing, past the end.
    pub fn set(&mut self, idx: u32, val: Option<u32>) -> (r: Result<(), Error>)
        requires
            old(self).wf(),
        ensures
            final(self).wf(),
            final(self).initial == old(self).initial && final(self).max == old(self).max
                && final(self).ref_type == old(self).ref_type,
            idx < old(self).elems@.len() ==> r is Ok && final(self).elems@ == old(self).elems@.update(
                idx as int,
                val,
            ),
            idx >= old(self).elems@.len() ==> r == Err::<(), Error>(Error::OutOfBoundTableAccess)
                && final(self).elems@ == old(self).elems@,
    {
        if idx as usize >= self.elems.len() {
            return Err(Error::OutOfBoundTableAccess);
        }
        self.elems[idx as usize] = val;
        Ok(())
    }

    /// Grows the table by `delta` elements set to `init` and returns the
    /// previous size; returns -1 and changes nothing when the new size would
    /// exceed the table's limit.
    pub fn grow(&mut self, delta: u32, init: Option<u32>) -> (r: i64)
        requires
            old(self).wf(),
        ensures
            final(self).wf(),
            final(self).initial == old(self).initial && final(self).max == old(self).max
                && final(self).ref_type == old(self).ref_type,
            old(self).elems@.len() + delta > elem_limit(old(self).max) ==> r == -1 && final(self).elems@
                == old(self).elems@,
            old(self).elems@.len() + delta <= elem_limit(old(self).max) ==> r == old(self).elems@.len()
                && final(self).elems@ == old(self).elems@ + repeat_ref(init, delta as nat),
    {
        let size = self.elems.len() as u32;
        let cap = match self.max {
            Some(m) => m,
            None => u32::MAX,
        };
        if delta > cap - size {
            return -1;
        }
        let ghost before = self.elems@;
        self.elems.resize(size as usize + delta as usize, init);
        assert(self.elems@ =~= before + repeat_ref(init, delta as nat));
        size as i64
    }

    /// Sets `n` elements from `dst` to `val`; fails with
    /// `OutOfBoundTableAccess`, changing nothing, when `dst + n` exceeds the
    /// size.
    pub fn fill(&mut self, dst: u32, val: Option<u32>, n: u32) -> (r: Result<(), Error>)
        requires
            old(self).wf(),
        ensures
            final(self).wf(),
            final(self).initial == old(self).initial && final(self).max == old(self).max
                && final(self).ref_type == old(self).ref_type,
            r is Ok <==> dst + n <= old(self).elems@.len(),
            r is Err ==> r == Err::<(), Error>(Error::OutOfBoundTableAccess) && final(self).elems@
                == old(self).elems@,
            r is Ok ==> final(self).elems@ == old(self).elems@.subrange(0, dst as int) + repeat_ref(
                val,
                n as nat,
            ) + old(self).elems@.subrange(dst + n, old(self).elems@.len() as int),
    {
        let len = self.elems.len();
        if dst as usize > len || n as usize > len - dst as usize {
            return Err(Error::OutOfBoundTableAccess);
        }
        let src = repeat_vec(val, n);
        self.write_all(dst as usize, &src);
        Ok(())
    }

    /// Copies `n` elements from `src` to `dst` within the table, the ranges
    /// possibly overlapping; fails with `OutOfBoundTableAccess`, changing
    /// nothing, when either range exceeds the size.
    pub fn copy(&mut self, dst: u32, src: u32, n: u32) -> (r: Result<(), Error>)
        requires
            old(self).wf(),
        ensures
            final(self).wf(),
            final(self).initial == old(self).initial && final(self).max == old(self).max
                && final(self).ref_type == old(self).ref_type,
            r is Ok <==> dst + n <= old(self).elems@.len() && src + n <= old(self).elems@.len(),
            r is Err ==> r == Err::<(), Error>(Error::OutOfBoundTableAccess) && final(self).elems@
                == old(self).elems@,
            r is Ok ==> final(self).elems@ == old(self).elems@.subrange(0, dst as int)
                + old(self).elems@.subrange(src as int, src + n) + old(self).elems@.subrange(
                dst + n,
                old(self).elems@.len() as int,
            ),
    {
        let len = self.elems.len();
        if dst as usize > len || n as usize > len - dst as usize {
            return Err(Error::OutOfBoundTableAccess);
        }
        if src as usize > len || n as usize > len - src as usize {
            return Err(Error::OutOfBoundTableAccess);
        }
        let tmp = slice_copy(&self.elems, src as usize, n as usize);
        self.write_all(dst as usize, &tmp);
        Ok(())
    }

    /// Copies `n` references of the element segment, from `src` in it, to
    /// `dst`; fails with `OutOfBoundTableAccess`, changing nothing, when the
    /// segment was dropped or either range exceeds its sequence.
    pub fn init(&mut self, elem: &Element, dst: u32, src: u32, n: u32) -> (r: Result<(), Error>)
        requires
            old(self).wf(),
        ensures
            final(self).wf(),
            final(self).initial == old(self).initial && final(self).max == old(self).max
                && final(self).ref_type == old(self).ref_type,
            r is Ok <==> !elem.dropped && dst + n <= old(self).elems@.len() && src + n
                <= elem.init@.len(),
            r is Err ==> r == Err::<(), Error>(Error::OutOfBoundTableAccess) && final(self).elems@
                == old(self).elems@,
            r is Ok ==> final(self).elems@ == old(self).elems@.subrange(0, dst as int)
                + elem.init@.subrange(src as int, src + n) + old(self).elems@.subrange(
                dst + n,
                old(self).elems@.len() as int,
            ),
    {
        if elem.dropped {
            return Err(Error::OutOfBoundTableAccess);
        }
        let len = self.elems.len();
        if dst as usize > len || n as usize > len - dst as usize {
            return Err(Error::OutOfBoundTableAccess);
        }
        let elen = elem.init.len();
        if src as usize > elen || n as usize > elen - src as usize {
            return Err(Error::OutOfBoundTableAccess);
        }
        let tmp = slice_copy(&elem.init, src as usize, n as usize);
        self.write_all(dst as usize, &tmp);
        Ok(())
    }

    fn write_all(&mut self, offset: usize, refs: &Vec<Option<u32>>)
        requires
            old(self).wf(),
            offset + refs@.len() <= old(self).elems@.len(),
        ensures
            final(self).wf(),
            final(self).initial == old(self).initial && final(self).max == old(self).max
                && final(self).ref_type == old(self).ref_type,
            final(self).elems@ == old(self).elems@.subrange(0, offset as int) + refs@
                + old(self).elems@.subrange(offset + refs@.len(), old(self).elems@.len() as int),
    {
        let len = self.elems.len();
        let n = refs.len();
        let mut i: usize = 0;
        while i < n
            invariant
                i <= n == refs@.len(),
                offset + n <= len,
                len == self.elems@.len(),
                self.initial == old(self).initial,
                self.max == old(self).max,
                self.ref_type == old(self).ref_type,
                forall|j: int| 0 <= j < offset ==> self.elems@[j] == old(self).elems@[j],
                forall|j: int| offset + n <= j < len ==> self.elems@[j] == old(self).elems@[j],
                forall|j: int| 0 <= j < i ==> self.elems@[offset + j] == refs@[j],
            decreases n - i,
        {
            self.elems[offset + i] = refs[i];
            i = i + 1;
        }
        assert(self.elems@ =~= old(self).elems@.subrange(0, offset as int) + refs@
            + old(self).elems@.subrange(offset + n, len as int));
    }
}

fn repeat_vec(r: Option<u32>, n: u32) -> (v: Vec<Option<u32>>)
    ensures
        v@ == repeat_ref(r, n as nat),
{
    let mut v: Vec<Option<u32>> = Vec::new();
    v.resize(n as usize, r);
    assert(v@ =~= repeat_ref(r, n as nat));
    v
}

/// A copy of `s`.
pub fn copy_refs(s: &Vec<Option<u32>>) -> (r: Vec<Option<u32>>)
    ensures
        r@ == s@,
{
    let r = slice_copy(s, 0, s.len());
    assert(s@.subrange(0, s@.len() as int) =~= s@);
    r
}

fn slice_copy(s: &Vec<Option<u32>>, start: usize, n: usize) -> (r: Vec<Option<u32>>)
    requires
        start + n <= s@.len(),
    ensures
        r@ == s@.subrange(start as int, start + n),
{
    let len = s.len();
    let mut v: Vec<Option<u32>> = Vec::new();
    let mut i: usize = 0;
    while i < n
        invariant
            i <= n,
            len == s@.len(),
            start + n <= len,
            v@ == s@.subrange(start as int, start + i),
        decreases n - i,
    {
        v.push(s[start + i]);
        i = i + 1;
        assert(v@ =~= s@.subrange(start as int, start + i));
    }
    v
}

} // verus!
