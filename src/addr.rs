//! Page-granular address arithmetic and virtual address ranges.
use vstd::prelude::*;

verus! {

/// The size of a base page.
pub const PAGE_SIZE_4K: usize = 0x1000;

/// Relies on memory_addr::is_aligned_4k: `addr & 0xfff == 0`.
pub assume_specification[ memory_addr::is_aligned_4k ](addr: usize) -> (r: bool)
    ensures
        r == (addr % 4096 == 0),
;

/// Relies on memory_addr::align_down_4k: `addr & !0xfff`.
pub assume_specification[ memory_addr::align_down_4k ](addr: usize) -> (r: usize)
    ensures
        r == addr - addr % 4096,
;

/// Relies on memory_addr::align_offset_4k: `addr & 0xfff`.
pub assume_specification[ memory_addr::align_offset_4k ](addr: usize) -> (r: usize)
    ensures
        r == addr % 4096,
;

/// Whether `x` lies on a page boundary.
pub open spec fn aligned(x: int) -> bool {
    x % 4096 == 0
}

/// The start of the page that holds `x`.
pub open spec fn page_floor(x: int) -> int {
    x - x % 4096
}

/// A half-open interval `[start, end)` of virtual addresses.
#[derive(Debug, Clone, Copy, PartialEq, Eq, Structural)]
pub struct VirtAddrRange {
    pub start: usize,
    pub end: usize,
}

impl VirtAddrRange {
    pub open spec fn wf(&self) -> bool {
        self.start <= self.end
    }

    /// Whether `va` lies in the range.
    pub open spec fn has(&self, va: int) -> bool {
        self.start <= va < self.end
    }

    /// Whether `[start, start + size)` lies inside the range.
    pub open spec fn covers(&self, start: int, size: int) -> bool {
        self.start <= start && start + size <= self.end
    }

    /// Whether the two ranges share an address.
    pub open spec fn meets(&self, o: VirtAddrRange) -> bool {
        self.start < o.end && o.start < self.end
    }

    /// The range `[start, start + size)`; `None` when it wraps past the end
    /// of the address space.
    pub fn from_start_size(start: usize, size: usize) -> (r: Option<VirtAddrRange>)
        ensures
            r is Some <==> start + size <= usize::MAX,
            r matches Some(rg) ==> rg.start == start && rg.end == start + size,
    {
        match start.checked_add(size) {
            Some(end) => Some(VirtAddrRange { start, end }),
            None => None,
        }
    }

    /// The number of bytes in the range.
    pub fn size(&self) -> (r: usize)
        requires
            self.wf(),
        ensures
            r == self.end - self.start,
    {
        self.end - self.start
    }

    /// Whether `va` lies in the range.
    pub fn contains(&self, va: usize) -> (r: bool)
        ensures
            r == self.has(va as int),
    {
        self.start <= va && va < self.end
    }

    /// Whether `[start, start + size)` lies inside the range.
    pub fn contains_range(&self, start: usize, size: usize) -> (r: bool)
        ensures
            r == self.covers(start as int, size as int),
    {
        match start.checked_add(size) {
            Some(end) => self.start <= start && end <= self.end,
            None => false,
        }
    }

    /// Whether the two ranges share an address.
    pub fn overlaps(&self, other: VirtAddrRange) -> (r: bool)
        ensures
            r == self.meets(other),
    {
        self.start < other.end && other.start < self.end
    }
}

} // verus!
