//! Linear memory: a growable byte buffer counted in 64 KiB pages, accessed
//! only through bounds-checked operations.
use vstd::prelude::*;
use crate::executor::Error;
use crate::module::Data;
use crate::value::Limit;

verus! {

pub const PAGE_SIZE: usize = 65_536;

/// The size in pages that a memory without a declared maximum can reach.
pub const MAX_PAGES: u32 = 65_536;

#[derive(Debug)]
pub struct Memory32 {
    pub data: Vec<u8>,
    /// Current size in pages.
    pub size: u32,
    /// Size in pages that the memory never shrinks below.
    pub initial: u32,
    /// Optional bound on the size in pages.
    pub max: Option<u32>,
}

/// `n` copies of `b`.
pub open spec fn repeat(b: u8, n: nat) -> Seq<u8> {
    Seq::new(n, |_i: int| b)
}

/// The size in pages that a memory with these bounds can reach: the declared
/// maximum, or the format's cap when there is none.
pub open spec fn page_limit(max: Option<u32>) -> nat {
    match max {
        Some(m) => m as nat,
        None => MAX_PAGES as nat,
    }
}

/// A size in pages that this machine can hold: its byte length fits the
/// address space and the size itself the `i32` that `grow` returns.
pub open spec fn fits_machine(pages: nat) -> bool {
    pages <= i32::MAX && pages * PAGE_SIZE <= usize::MAX
}

impl Memory32 {
    pub open spec fn wf(&self) -> bool {
        &&& self.data@.len() == self.size * PAGE_SIZE
        &&& self.initial <= self.size <= page_limit(self.max)
        &&& fits_machine(self.size as nat)
    }

    /// The contents of the memory.
    pub open spec fn bytes(&self) -> Seq<u8> {
        self.data@
    }

    pub open spec fn spec_size(&self) -> u32 {
        self.size
    }

    pub open spec fn spec_max(&self) -> Option<u32> {
        self.max
    }

    pub open spec fn spec_initial(&self) -> u32 {
        self.initial
    }

    /// Allocates a memory of `limit.min` zeroed pages; fails with
    /// `MemoryExhaustion` when the bounds admit no size or the byte length
    /// does not fit the address space.
    pub fn allocate(limit: Limit) -> (r: Result<Memory32, Error>)
        ensures
            match r {
                Ok(m) => m.wf() && m.size == limit.min && m.initial == limit.min && m.max
                    == limit.max && m.bytes() == repeat(0, (limit.min * PAGE_SIZE) as nat),
                Err(e) => e == Error::MemoryExhaustion,
            },
            r is Ok <==> limit.min <= page_limit(limit.max) && fits_machine(limit.min as nat),
    {
        let cap = match limit.max {
            Some(m) => m,
            None => MAX_PAGES,
        };
        if limit.min > cap || limit.min > i32::MAX as u32 || limit.min as u64 > usize::MAX as u64
            / PAGE_SIZE as u64 {
            return Err(Error::MemoryExhaustion);
        }
        let len = limit.min as usize * PAGE_SIZE;
        let mut data: Vec<u8> = Vec::new();
        data.resize(len, 0u8);
        assert(data@ =~= repeat(0, len as nat));
        Ok(Memory32 { data, size: limit.min, initial: limit.min, max: limit.max })
    }

    /// The current size in pages.
    pub fn size(&self) -> (r: u32)
        ensures
            r == self.size,
    {
        self.size
    }

    /// Grows the memory by `delta` pages, which start zeroed, and returns the
    /// previous size; returns -1 and changes nothing when the new size would
    /// exceed the memory's limit, or what the machine can hold.
    pub fn grow(&mut self, delta: u32) -> (r: i32)
        requires
            old(self).wf(),
        ensures
            final(self).wf(),
            old(self).size + delta > page_limit(old(self).max) || !fits_machine(
                (old(self).size + delta) as nat,
            ) ==> r == -1 && *final(self) == *old(self),
            old(self).size + delta <= page_limit(old(self).max) && fits_machine(
                (old(self).size + delta) as nat,
            ) ==> {
                &&& r == old(self).size
                &&& final(self).size == old(self).size + delta
                &&& final(self).initial == old(self).initial
                &&& final(self).max == old(self).max
                &&& final(self).bytes() == old(self).bytes() + repeat(0, (delta * PAGE_SIZE) as nat)
            },
    {
        let cap = match self.max {
            Some(m) => m,
            None => MAX_PAGES,
        };
        if delta > cap - self.size {
            return -1;
        }
        if self.size + delta > i32::MAX as u32 || (self.size + delta) as u64 > usize::MAX as u64
            / PAGE_SIZE as u64 {
            return -1;
        }
        let old_size = self.size;
        let new_size = self.size + delta;
        let len = new_size as usize * PAGE_SIZE;
        let ghost before = self.data@;
        self.data.resize(len, 0u8);
        assert(self.data@ =~= before + repeat(0, (delta * PAGE_SIZE) as nat));
        self.size = new_size;
        old_size as i32
    }

    /// Writes `n` copies of `val` from `dst`; fails with
    /// `OutOfBoundMemoryAccess`, changing nothing, when `dst + n` exceeds the
    /// memory's byte length.
    pub fn fill(&mut self, dst: u32, val: u8, n: u32) -> (r: Result<(), Error>)
        requires
            old(self).wf(),
        ensures
            final(self).wf(),
            final(self).size == old(self).size,
            final(self).initial == old(self).initial,
            final(self).max == old(self).max,
            r is Ok <==> dst + n <= old(self).bytes().len(),
            r is Err ==> r == Err::<(), Error>(Error::OutOfBoundMemoryAccess) && final(self).bytes()
                == old(self).bytes(),
            r is Ok ==> final(self).bytes() == old(self).bytes().subrange(0, dst as int) + repeat(
                val,
                n as nat,
            ) + old(self).bytes().subrange(dst + n, old(self).bytes().len() as int),
    {
        let len = self.data.len();
        if dst as usize > len || n as usize > len - dst as usize {
            return Err(Error::OutOfBoundMemoryAccess);
        }
        let start = dst as usize;
        let end = start + n as usize;
        let mut i: usize = start;
        while i < end
            invariant
                start <= i <= end <= len,
                len == self.data@.len(),
                self.size == old(self).size,
                self.initial == old(self).initial,
                self.max == old(self).max,
                forall|j: int| 0 <= j < start ==> self.data@[j] == old(self).data@[j],
                forall|j: int| end <= j < len ==> self.data@[j] == old(self).data@[j],
                forall|j: int| start <= j < i ==> self.data@[j] == val,
            decreases end - i,
        {
            self.data[i] = val;
            i = i + 1;
        }
        assert(self.data@ =~= old(self).bytes().subrange(0, dst as int) + repeat(val, n as nat)
            + old(self).bytes().subrange(dst + n, len as int));
        Ok(())
    }

    /// Copies `n` bytes from `src` to `dst`, the ranges possibly overlapping;
    /// fails with `OutOfBoundMemoryAccess`, changing nothing, when either
    /// range exceeds the memory's byte length.
    pub fn copy(&mut self, dst: u32, src: u32, n: u32) -> (r: Result<(), Error>)
        requires
            old(self).wf(),
        ensures
            final(self).wf(),
            final(self).size == old(self).size,
            final(self).initial == old(self).initial,
            final(self).max == old(self).max,
            r is Ok <==> dst + n <= old(self).bytes().len() && src + n <= old(self).bytes().len(),
            r is Err ==> r == Err::<(), Error>(Error::OutOfBoundMemoryAccess) && final(self).bytes()
                == old(self).bytes(),
            r is Ok ==> final(self).bytes() == old(self).bytes().subrange(0, dst as int)
                + old(self).bytes().subrange(src as int, src + n) + old(self).bytes().subrange(
                dst + n,
                old(self).bytes().len() as int,
            ),
    {
        let len = self.data.len();
        if dst as usize > len || n as usize > len - dst as usize {
            return Err(Error::OutOfBoundMemoryAccess);
        }
        if src as usize > len || n as usize > len - src as usize {
            return Err(Error::OutOfBoundMemoryAccess);
        }
        let tmp = self.read(src, n).unwrap();
        self.write_all(dst as usize, &tmp);
        Ok(())
    }

    /// Copies `n` bytes of the data segment, from `src` in its payload, to
    /// `dst`; fails with `OutOfBoundMemoryAccess`, changing nothing, when the
    /// segment was dropped or either range exceeds its buffer.
    pub fn init(&mut self, data: &Data, dst: u32, src: u32, n: u32) -> (r: Result<(), Error>)
        requires
            old(self).wf(),
        ensures
            final(self).wf(),
            final(self).size == old(self).size,
            final(self).initial == old(self).initial,
            final(self).max == old(self).max,
            r is Ok <==> !data.dropped && dst + n <= old(self).bytes().len() && src + n
                <= data.data@.len(),
            r is Err ==> r == Err::<(), Error>(Error::OutOfBoundMemoryAccess) && final(self).bytes()
                == old(self).bytes(),
            r is Ok ==> final(self).bytes() == old(self).bytes().subrange(0, dst as int)
                + data.data@.subrange(src as int, src + n) + old(self).bytes().subrange(
                dst + n,
                old(self).bytes().len() as int,
            ),
    {
        if data.dropped {
            return Err(Error::OutOfBoundMemoryAccess);
        }
        let len = self.data.len();
        if dst as usize > len || n as usize > len - dst as usize {
            return Err(Error::OutOfBoundMemoryAccess);
        }
        let dlen = data.data.len();
        if src as usize > dlen || n as usize > dlen - src as usize {
            return Err(Error::OutOfBoundMemoryAccess);
        }
        let part = &data.data.as_slice()[src as usize..src as usize + n as usize];
        self.write_all(dst as usize, part);
        Ok(())
    }

    /// The `n` bytes from `offset`; fails with `OutOfBoundMemoryAccess` when
    /// they exceed the memory's byte length.
    pub fn read(&self, offset: u32, n: u32) -> (r: Result<Vec<u8>, Error>)
        ensures
            r is Ok <==> offset + n <= self.bytes().len(),
            match r {
                Ok(v) => v@ == self.bytes().subrange(offset as int, offset + n),
                Err(e) => e == Error::OutOfBoundMemoryAccess,
            },
    {
        let len = self.data.len();
        if offset as usize > len || n as usize > len - offset as usize {
            return Err(Error::OutOfBoundMemoryAccess);
        }
        let start = offset as usize;
        let mut v: Vec<u8> = Vec::new();
        let mut i: usize = 0;
        while i < n as usize
            invariant
                i <= n,
                start + n <= len,
                len == self.data@.len(),
                v@ == self.data@.subrange(start as int, start + i),
            decreases n - i,
        {
            v.push(self.data[start + i]);
            i = i + 1;
            assert(v@ =~= self.data@.subrange(start as int, start + i));
        }
        Ok(v)
    }

    /// Writes `bytes` from `offset`; fails with `OutOfBoundMemoryAccess`,
    /// changing nothing, when they exceed the memory's byte length.
    pub fn write(&mut self, offset: u32, bytes: &[u8]) -> (r: Result<(), Error>)
        requires
            old(self).wf(),
        ensures
            final(self).wf(),
            final(self).size == old(self).size,
            final(self).initial == old(self).initial,
            final(self).max == old(self).max,
            r is Ok <==> offset + bytes@.len() <= old(self).bytes().len(),
            r is Err ==> r == Err::<(), Error>(Error::OutOfBoundMemoryAccess) && final(self).bytes()
                == old(self).bytes(),
            r is Ok ==> final(self).bytes() == old(self).bytes().subrange(0, offset as int) + bytes@
                + old(self).bytes().subrange(
                offset + bytes@.len(),
                old(self).bytes().len() as int,
            ),
    {
        let len = self.data.len();
        if offset as usize > len || bytes.len() > len - offset as usize {
            return Err(Error::OutOfBoundMemoryAccess);
        }
        self.write_all(offset as usize, bytes);
        Ok(())
    }

    fn write_all(&mut self, offset: usize, bytes: &[u8])
        requires
            old(self).wf(),
            offset + bytes@.len() <= old(self).data@.len(),
        ensures
            final(self).wf(),
            final(self).size == old(self).size,
            final(self).initial == old(self).initial,
            final(self).max == old(self).max,
            final(self).bytes() == old(self).bytes().subrange(0, offset as int) + bytes@
                + old(self).bytes().subrange(
                offset + bytes@.len(),
                old(self).bytes().len() as int,
            ),
    {
        let len = self.data.len();
        let n = bytes.len();
        let mut i: usize = 0;
        while i < n
            invariant
                i <= n == bytes@.len(),
                offset + n <= len,
                len == self.data@.len(),
                self.size == old(self).size,
                self.initial == old(self).initial,
                self.max == old(self).max,
                forall|j: int| 0 <= j < offset ==> self.data@[j] == old(self).data@[j],
                forall|j: int| offset + n <= j < len ==> self.data@[j] == old(self).data@[j],
                forall|j: int| 0 <= j < i ==> self.data@[offset + j] == bytes@[j],
            decreases n - i,
        {
            self.data[offset + i] = bytes[i];
            i = i + 1;
        }
        assert(self.data@ =~= old(self).bytes().subrange(0, offset as int) + bytes@
            + old(self).bytes().subrange(offset + n, len as int));
    }
}

} // verus!
