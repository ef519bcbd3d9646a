//! The early (bump) allocator that hands out bytes and physical frames.
//!
//! It manages one memory range from both ends:
//!
//! ```text
//! [ bytes-used | avail-area | pages-used ]
//! |            | -->    <-- |            |
//! start       b_pos        p_pos       end
//! ```
//!
//! Byte allocations grow forward and are counted; when the count drops to
//! zero the whole byte area is freed. Page allocations grow backward and are
//! never freed.
use crate::addr::PAGE_SIZE_4K;
use crate::error::{AxError, AxResult};
use vstd::prelude::*;

verus! {

/// Whether `x` is a power of two.
pub open spec fn is_pow2(x: usize) -> bool {
    x != 0 && x & ((x - 1) as usize) == 0
}

/// `x` rounded up to a multiple of `a`.
pub open spec fn round_up(x: int, a: int) -> int {
    if x % a == 0 {
        x
    } else {
        x - x % a + a
    }
}

/// Early memory allocator.
#[derive(Debug)]
pub struct EarlyAllocator {
    pub start: usize,
    pub end: usize,
    pub count: usize,
    pub b_pos: usize,
    pub p_pos: usize,
}

impl EarlyAllocator {
    pub open spec fn wf(&self) -> bool {
        self.start <= self.b_pos <= self.p_pos <= self.end
    }

    /// An allocator that manages no memory yet.
    pub fn new() -> (r: EarlyAllocator)
        ensures
            r.wf(),
            r.start == 0 && r.end == 0 && r.count == 0 && r.b_pos == 0 && r.p_pos == 0,
    {
        EarlyAllocator { start: 0, end: 0, count: 0, b_pos: 0, p_pos: 0 }
    }

    /// Hands the range `[start, start + size)` to the allocator, all free.
    pub fn init(&mut self, start: usize, size: usize)
        requires
            start + size <= usize::MAX,
        ensures
            final(self).wf(),
            final(self).start == start && final(self).end == start + size,
            final(self).b_pos == start && final(self).p_pos == start + size,
            final(self).count == 0,
    {
        self.start = start;
        self.end = start + size;
        self.b_pos = start;
        self.p_pos = self.end;
        self.count = 0;
    }

    /// Allocates `size` bytes aligned to `align` at the front of the free
    /// area. `align` must be a power of two.
    pub fn alloc_bytes(&mut self, size: usize, align: usize) -> (r: AxResult<usize>)
        requires
            old(self).wf(),
        ensures
            final(self).wf(),
            !is_pow2(align) ==> r == Err::<usize, AxError>(AxError::InvalidInput),
            is_pow2(align) ==> (r is Ok <==> round_up(old(self).b_pos as int, align as int) + size
                <= old(self).p_pos && old(self).count < usize::MAX),
            r is Err ==> r == Err::<usize, AxError>(AxError::InvalidInput) || r == Err::<
                usize,
                AxError,
            >(AxError::NoMemory),
            r is Err ==> *final(self) == *old(self),
            r matches Ok(p) ==> {
                &&& p == round_up(old(self).b_pos as int, align as int)
                &&& final(self).b_pos == p + size
                &&& final(self).count == old(self).count + 1
                &&& final(self).p_pos == old(self).p_pos
                &&& final(self).start == old(self).start && final(self).end == old(self).end
            },
    {
        if align == 0 || align & (align - 1) != 0 {
            return Err(AxError::InvalidInput);
        }
        let rem = self.b_pos % align;
        let pad = if rem == 0 { 0 } else { align - rem };
        if pad > self.p_pos - self.b_pos {
            return Err(AxError::NoMemory);
        }
        let start = self.b_pos + pad;
        if size > self.p_pos - start || self.count == usize::MAX {
            return Err(AxError::NoMemory);
        }
        self.b_pos = start + size;
        self.count = self.count + 1;
        Ok(start)
    }

    /// Gives back one byte allocation; the byte area is freed as a whole
    /// once every allocation has been given back.
    pub fn dealloc_bytes(&mut self, pos: usize, size: usize)
        requires
            old(self).wf(),
        ensures
            final(self).wf(),
            final(self).count == (if old(self).count == 0 { 0 } else { old(self).count - 1 }),
            final(self).b_pos == (if final(self).count == 0 {
                old(self).start
            } else {
                old(self).b_pos
            }),
            final(self).p_pos == old(self).p_pos,
            final(self).start == old(self).start && final(self).end == old(self).end,
    {
        if self.count > 0 {
            self.count = self.count - 1;
        }
        if self.count == 0 {
            self.b_pos = self.start;
        }
    }

    /// Allocates `num_pages` contiguous pages aligned to `align_pow2` at the
    /// back of the free area. `align_pow2` must be a power of two and a
    /// multiple of the page size.
    pub fn alloc_pages(&mut self, num_pages: usize, align_pow2: usize) -> (r: AxResult<usize>)
        requires
            old(self).wf(),
        ensures
            final(self).wf(),
            (!is_pow2(align_pow2) || align_pow2 % 4096 != 0) ==> r == Err::<usize, AxError>(
                AxError::InvalidInput,
            ),
            (is_pow2(align_pow2) && align_pow2 % 4096 == 0) ==> (r is Ok <==> {
                let x = old(self).p_pos - num_pages * 4096;
                num_pages * 4096 <= old(self).p_pos - old(self).b_pos && x - x % (align_pow2 as int)
                    >= old(self).b_pos
            }),
            r is Err ==> r == Err::<usize, AxError>(AxError::InvalidInput) || r == Err::<
                usize,
                AxError,
            >(AxError::NoMemory),
            r is Err ==> *final(self) == *old(self),
            r matches Ok(p) ==> {
                let x = old(self).p_pos - num_pages * 4096;
                &&& p == x - x % (align_pow2 as int)
                &&& final(self).p_pos == p
                &&& final(self).b_pos == old(self).b_pos
                &&& final(self).count == old(self).count
                &&& final(self).start == old(self).start && final(self).end == old(self).end
            },
    {
        if align_pow2 == 0 || align_pow2 & (align_pow2 - 1) != 0 || align_pow2 % PAGE_SIZE_4K
            != 0 {
            return Err(AxError::InvalidInput);
        }
        let size = match num_pages.checked_mul(PAGE_SIZE_4K) {
            Some(s) => s,
            None => {
                return Err(AxError::NoMemory);
            },
        };
        if size > self.p_pos - self.b_pos {
            return Err(AxError::NoMemory);
        }
        let x = self.p_pos - size;
        assert(x % align_pow2 <= x) by (nonlinear_arith)
            requires
                align_pow2 > 0,
        ;
        let next = x - x % align_pow2;
        if next < self.b_pos {
            return Err(AxError::NoMemory);
        }
        self.p_pos = next;
        Ok(next)
    }

    /// Gives back pages; the page area is never freed, so nothing changes.
    pub fn dealloc_pages(&mut self, pos: usize, num_pages: usize)
        ensures
            *final(self) == *old(self),
    {
    }

    /// The number of bytes the allocator manages.
    pub fn total_bytes(&self) -> (r: usize)
        requires
            self.wf(),
        ensures
            r == self.end - self.start,
    {
        self.end - self.start
    }

    /// The number of bytes in the byte area.
    pub fn used_bytes(&self) -> (r: usize)
        requires
            self.wf(),
        ensures
            r == self.b_pos - self.start,
    {
        self.b_pos - self.start
    }

    /// The number of free bytes between the two areas.
    pub fn available_bytes(&self) -> (r: usize)
        requires
            self.wf(),
        ensures
            r == self.p_pos - self.b_pos,
    {
        self.p_pos - self.b_pos
    }

    /// The number of whole pages the allocator manages.
    pub fn total_pages(&self) -> (r: usize)
        requires
            self.wf(),
        ensures
            r == (self.end - self.start) / 4096,
    {
        (self.end - self.start) / PAGE_SIZE_4K
    }

    /// The number of whole pages in the page area.
    pub fn used_pages(&self) -> (r: usize)
        requires
            self.wf(),
        ensures
            r == (self.end - self.p_pos) / 4096,
    {
        (self.end - self.p_pos) / PAGE_SIZE_4K
    }

    /// The number of whole free pages between the two areas.
    pub fn available_pages(&self) -> (r: usize)
        requires
            self.wf(),
        ensures
            r == (self.p_pos - self.b_pos) / 4096,
    {
        (self.p_pos - self.b_pos) / PAGE_SIZE_4K
    }
}

} // verus!
