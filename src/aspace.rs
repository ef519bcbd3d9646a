//! The virtual memory address space of a guest or a user process.
use crate::addr::{VirtAddrRange, PAGE_SIZE_4K};
use crate::area::{
    area_at, covered, areas_wf, carve_areas, carved, find_area, insert_area, lemma_area_at, overlaps_any,
    Backend, Binding, MemoryArea,
};
use crate::bump::EarlyAllocator;
use crate::error::{AxError, AxResult};
use crate::flags::MappingFlags;
use crate::mem::{zero_frame, PhysMemory};
use crate::paging::{
    linear_entries, meeting, populated_entries, reflagged, translate, vpn, PageTable, PageTableEntry,
};
use memory_addr::{align_down_4k, align_offset_4k, is_aligned_4k};
use vstd::prelude::*;

verus! {

/// Whether page `n` lies wholly inside `range`.
pub open spec fn page_within(range: VirtAddrRange, n: usize) -> bool {
    range.start <= n * 4096 && n * 4096 + 4096 <= range.end
}

/// The pages that share an address with `range`.
pub open spec fn pages_meeting(range: VirtAddrRange) -> Set<usize> {
    Set::new(|n: usize| n * 4096 < range.end && range.start < n * 4096 + 4096)
}

/// The virtual memory address space.
#[derive(Debug)]
pub struct AddrSpace {
    pub va_range: VirtAddrRange,
    pub areas: Vec<MemoryArea>,
    pub pt: PageTable,
}

impl AddrSpace {
    /// The areas are well formed, sorted, disjoint and inside the range.
    pub open spec fn wf(&self) -> bool {
        &&& self.va_range.wf()
        &&& areas_wf(self.areas@)
        &&& forall|i: int|
            0 <= i < self.areas@.len() ==> self.va_range.start <= #[trigger] self.areas@[i].start
                && self.areas@[i].end <= self.va_range.end
        &&& self.pt.wf()
        &&& self.pages_in_areas()
        &&& self.pages_meeting_range_inside()
    }

    /// Every mapped page that shares an address with the range lies wholly
    /// inside it.
    pub open spec fn pages_meeting_range_inside(&self) -> bool {
        forall|n: usize|
            #[trigger] self.pt@.contains_key(n) && pages_meeting(self.va_range).contains(n)
                ==> page_within(self.va_range, n)
    }

    /// Every mapped page that lies wholly inside the range lies in an area.
    pub open spec fn pages_in_areas(&self) -> bool {
        forall|n: usize|
            #[trigger] self.pt@.contains_key(n) && page_within(self.va_range, n) ==> covered(
                self.areas@,
                n * 4096,
            )
    }

    /// Whether page `n` is mapped and lies in an allocating area.
    pub open spec fn alloc_page(&self, n: usize) -> bool {
        self.pt@.contains_key(n) && (self.binding(n * 4096) matches Some((_, None)))
    }

    /// The frames of the pages in allocating areas were handed out by the
    /// frame allocator of `mem` and not given back, and are pairwise distinct.
    pub open spec fn frames_fresh(&self, mem: PhysMemory) -> bool {
        &&& forall|n: usize|
            #[trigger] self.alloc_page(n) ==> mem.returnable(self.pt@[n].paddr)
                && !mem.released@.contains(self.pt@[n].paddr)
        &&& forall|n: usize, m: usize|
            #[trigger] self.alloc_page(n) && #[trigger] self.alloc_page(m) && n != m
                ==> self.pt@[n].paddr != self.pt@[m].paddr
    }

    /// What `va` is bound to by the areas, if any holds it.
    pub open spec fn binding(&self, va: int) -> Option<Binding> {
        area_at(self.areas@, va)
    }

    /// Whether a map request for `[start, start + size)` is out of range or
    /// misaligned.
    pub open spec fn bad_request(&self, start: int, size: int) -> bool {
        !self.va_range.covers(start, size) || start % 4096 != 0 || size % 4096 != 0
    }

    /// Whether some area meets `[start, end)`.
    pub open spec fn overlapped(&self, start: int, end: int) -> bool {
        exists|i: int|
            0 <= i < self.areas@.len() && #[trigger] self.areas@[i].start < end && start
                < self.areas@[i].end
    }

    /// Creates a new empty address space over `[base, base + size)`; the root
    /// table takes a frame of `mem`.
    pub fn new_empty(base: usize, size: usize, mem: &mut PhysMemory) -> (r: AxResult<AddrSpace>)
        requires
            old(mem).wf(),
        ensures
            final(mem).wf(),
            r is Ok <==> base + size <= usize::MAX && old(mem).free_frame_count() >= 1,
            base + size > usize::MAX ==> r == Err::<AddrSpace, AxError>(AxError::InvalidInput),
            base + size <= usize::MAX && old(mem).free_frame_count() < 1 ==> r == Err::<
                AddrSpace,
                AxError,
            >(AxError::NoMemory),
            r is Err ==> *final(mem) == *old(mem),
            r matches Ok(a) ==> {
                &&& a.wf()
                &&& a.va_range == (VirtAddrRange { start: base, end: (base + size) as usize })
                &&& a.areas@.len() == 0
                &&& a.pt@ == Map::<usize, PageTableEntry>::empty()
                &&& a.pt.root == old(mem).frames.p_pos - 4096
                &&& final(mem).frames.p_pos == a.pt.root
                &&& final(mem).free_frame_count() == old(mem).free_frame_count() - 1
                &&& a.frames_fresh(*final(mem))
                &&& final(mem).released == old(mem).released
            },
    {
        let va_range = match VirtAddrRange::from_start_size(base, size) {
            Some(r) => r,
            None => {
                return Err(AxError::InvalidInput);
            },
        };
        let root = match mem.alloc_fresh_frame() {
            Ok(pa) => pa,
            Err(_) => {
                return Err(AxError::NoMemory);
            },
        };
        Ok(AddrSpace { va_range, areas: Vec::new(), pt: PageTable::new(root) })
    }

    /// Returns the address space base.
    pub fn base(&self) -> (r: usize)
        ensures
            r == self.va_range.start,
    {
        self.va_range.start
    }

    /// Returns the address space end.
    pub fn end(&self) -> (r: usize)
        ensures
            r == self.va_range.end,
    {
        self.va_range.end
    }

    /// Returns the address space size.
    pub fn size(&self) -> (r: usize)
        requires
            self.wf(),
        ensures
            r == self.va_range.end - self.va_range.start,
    {
        self.va_range.size()
    }

    /// Returns the reference to the inner page table.
    pub fn page_table(&self) -> (r: &PageTable)
        ensures
            r == &self.pt,
    {
        &self.pt
    }

    /// Returns the root physical address of the inner page table.
    pub fn page_table_root(&self) -> (r: usize)
        ensures
            r == self.pt.root,
    {
        self.pt.root_paddr()
    }

    /// Checks if the address space contains the given address range.
    pub fn contains_range(&self, start: usize, size: usize) -> (r: bool)
        ensures
            r == self.va_range.covers(start as int, size as int),
    {
        self.va_range.contains_range(start, size)
    }

    /// Copies the page-table entries (not the areas) of `other`'s range from
    /// `other`, usually to share the kernel's mappings with a user space.
    /// Fails when the two ranges overlap.
    #[verifier::rlimit(40)]
    pub fn copy_mappings_from(&mut self, other: &AddrSpace) -> (r: AxResult)
        requires
            old(self).wf(),
            other.wf(),
        ensures
            final(self).wf(),
            r is Err <==> old(self).va_range.meets(other.va_range),
            r is Err ==> r == Err::<(), AxError>(AxError::InvalidInput) && *final(self) == *old(
                self,
            ),
            final(self).va_range == old(self).va_range,
            final(self).areas == old(self).areas,
            final(self).pt.root == old(self).pt.root,
            r is Ok ==> final(self).pt@ == old(self).pt@.remove_keys(
                pages_meeting(other.va_range).difference(pages_meeting(old(self).va_range)),
            ).union_prefer_right(
                other.pt@.restrict(
                    pages_meeting(other.va_range).difference(pages_meeting(old(self).va_range)),
                ),
            ),
            r is Ok ==> forall|n: usize|
                #[trigger] pages_meeting(old(self).va_range).contains(n) ==> (final(self).pt@.contains_key(
                    n,
                ) == old(self).pt@.contains_key(n) && (old(self).pt@.contains_key(n)
                    ==> final(self).pt@[n] == old(self).pt@[n])),
            forall|m: PhysMemory| #[trigger] old(self).frames_fresh(m) ==> final(self).frames_fresh(m),
    {
        if self.va_range.overlaps(other.va_range) {
            return Err(AxError::InvalidInput);
        }
        self.pt.copy_from(&other.pt, other.base(), other.size(), self.base(), self.size());
        let ghost pages = pages_meeting(other.va_range).difference(pages_meeting(self.va_range));
        assert(meeting(other.va_range.start as int, (other.va_range.end - other.va_range.start) as int)
            =~= pages_meeting(other.va_range));
        assert(meeting(self.va_range.start as int, (self.va_range.end - self.va_range.start) as int)
            =~= pages_meeting(self.va_range));
        proof {
            assert forall|n: usize| #[trigger] pages_meeting(old(self).va_range).contains(n) implies (
            self.pt@.contains_key(n) == old(self).pt@.contains_key(n) && (old(self).pt@.contains_key(
                n,
            ) ==> self.pt@[n] == old(self).pt@[n])) by {
                assert(!pages.contains(n));
            }
            assert forall|n: usize|
                #[trigger] self.pt@.contains_key(n) && page_within(self.va_range, n) implies covered(
                self.areas@,
                n * 4096,
            ) by {
                assert(!pages.contains(n));
                assert(old(self).pt@.contains_key(n));
            }
            assert forall|n: usize| #[trigger] self.alloc_page(n) implies old(self).alloc_page(n)
                && self.pt@[n].paddr == old(self).pt@[n].paddr by {
                assert(covered(self.areas@, n * 4096));
                let k = choose|k: int| 0 <= k < self.areas@.len() && #[trigger] self.areas@[k].has(n * 4096);
                assert(self.va_range.start <= self.areas@[k].start);
                assert(self.areas@[k].wf());
                assert(self.areas@[k].start <= n * 4096 && n * 4096 + 4096 <= self.areas@[k].end);
                assert(!pages.contains(n));
            }
            assert forall|m: PhysMemory| #[trigger] old(self).frames_fresh(m) implies self.frames_fresh(m) by {
                lemma_fresh_subset(*old(self), *self, m);
            }
        }
        Ok(())
    }

    /// Whether `[b, b + size)` starts at or after `hint`, lies in `limit` and
    /// meets no area.
    pub open spec fn fits(&self, b: int, hint: int, size: int, limit: VirtAddrRange) -> bool {
        &&& hint <= b
        &&& limit.start <= b
        &&& b + size <= limit.end
        &&& !self.overlapped(b, b + size)
    }

    /// Finds the lowest address at or after `hint` where `size` bytes fit in
    /// `limit` without meeting an area. `None` if there is none.
    pub fn find_free_area(&self, hint: usize, size: usize, limit: VirtAddrRange) -> (r: Option<
        usize,
    >)
        requires
            self.wf(),
        ensures
            r matches Some(a) ==> self.fits(a as int, hint as int, size as int, limit),
            r matches Some(a) ==> forall|b: int|
                b < a ==> !#[trigger] self.fits(b, hint as int, size as int, limit),
            r is None ==> forall|b: int| !#[trigger] self.fits(b, hint as int, size as int, limit),
    {
        let s = &self.areas;
        let mut last_end = if hint > limit.start {
            hint
        } else {
            limit.start
        };
        let mut i: usize = 0;
        while i < s.len()
            invariant
                self.wf(),
                s == &self.areas,
                i <= s@.len(),
                hint <= last_end && limit.start <= last_end,
                forall|j: int| 0 <= j < i ==> #[trigger] s@[j].end <= last_end,
                forall|b: int| b < last_end ==> !#[trigger] self.fits(b, hint as int, size as int, limit),
            decreases s@.len() - i,
        {
            let a = s[i];
            match last_end.checked_add(size) {
                Some(end) => {
                    if end <= a.start {
                        if end <= limit.end {
                            proof {
                                assert forall|j: int| 0 <= j < s@.len() implies !(
                                #[trigger] s@[j].start < end && last_end < s@[j].end) by {
                                    if j > i {
                                        assert(s@[i as int].end <= s@[j].start);
                                        assert(s@[i as int].wf());
                                    }
                                }
                            }
                            return Some(last_end);
                        }
                        assert forall|b: int| !#[trigger] self.fits(
                            b,
                            hint as int,
                            size as int,
                            limit,
                        ) by {}
                        return None;
                    }
                },
                None => {
                    assert forall|b: int| !#[trigger] self.fits(
                        b,
                        hint as int,
                        size as int,
                        limit,
                    ) by {
                        assert(limit.end <= usize::MAX);
                    }
                    return None;
                },
            }
            assert forall|b: int| b < (if a.end > last_end { a.end } else { last_end }) implies !#[trigger] self.fits(
                b,
                hint as int,
                size as int,
                limit,
            ) by {
                if b >= last_end {
                    assert(s@[i as int].start < b + size && b < s@[i as int].end);
                }
            }
            if a.end > last_end {
                last_end = a.end;
            }
            i = i + 1;
        }
        match last_end.checked_add(size) {
            Some(end) => {
                if end <= limit.end {
                    return Some(last_end);
                }
            },
            None => {},
        }
        None
    }

    /// Adds a linear mapping of `[start_vaddr, start_vaddr + size)` to
    /// `[start_paddr, start_paddr + size)`, installed at once.
    ///
    /// Fails with `InvalidInput` when the range is empty, out of the address
    /// space or not aligned, or the physical range wraps; with
    /// `AlreadyExists` when it meets an existing area.
    #[verifier::rlimit(40)]
    pub fn map_linear(
        &mut self,
        start_vaddr: usize,
        start_paddr: usize,
        size: usize,
        flags: MappingFlags,
    ) -> (r: AxResult)
        requires
            old(self).wf(),
        ensures
            final(self).wf(),
            r == (if old(self).bad_request(start_vaddr as int, size as int) || start_paddr % 4096
                != 0 || size == 0 || start_paddr + size > usize::MAX {
                Err(AxError::InvalidInput)
            } else if old(self).overlapped(start_vaddr as int, start_vaddr + size) {
                Err(AxError::AlreadyExists)
            } else {
                Ok(())
            }),
            r is Err ==> *final(self) == *old(self),
            r is Ok ==> {
                &&& final(self).va_range == old(self).va_range
                &&& final(self).pt.root == old(self).pt.root
                &&& final(self).pt@ == old(self).pt@.union_prefer_right(
                    linear_entries(start_vaddr as int, start_paddr as int, size as int, flags),
                )
                &&& exists|k: int|
                    0 <= k <= old(self).areas@.len() && final(self).areas@ == #[trigger] old(self).areas@.insert(
                        k,
                        MemoryArea {
                            start: start_vaddr,
                            end: (start_vaddr + size) as usize,
                            flags,
                            backend: Backend::Linear { start_paddr },
                        },
                    )
                &&& forall|va: int|
                    #[trigger] final(self).binding(va) == (if start_vaddr <= va < start_vaddr
                        + size {
                        Some((flags, Some(start_paddr + (va - start_vaddr))))
                    } else {
                        old(self).binding(va)
                    })
            },
            forall|m: PhysMemory| #[trigger] old(self).frames_fresh(m) ==> final(self).frames_fresh(m),
    {
        if !self.contains_range(start_vaddr, size) {
            return Err(AxError::InvalidInput);
        }
        if !is_aligned_4k(start_vaddr) || !is_aligned_4k(start_paddr) || !is_aligned_4k(size) {
            return Err(AxError::InvalidInput);
        }
        if size == 0 || size > usize::MAX - start_paddr {
            return Err(AxError::InvalidInput);
        }
        let end = start_vaddr + size;
        if overlaps_any(&self.areas, start_vaddr, end) {
            return Err(AxError::AlreadyExists);
        }
        let area = MemoryArea::new(start_vaddr, size, flags, Backend::new_linear(start_paddr));
        self.pt.map_linear_range(start_vaddr, start_paddr, size, flags);
        proof {
            assert(area.wf());
            assert forall|i: int|
                0 <= i < old(self).areas@.len() implies !(#[trigger] old(self).areas@[i].start
                < area.end && area.start < old(self).areas@[i].end) by {}
            assert(self.areas@ == old(self).areas@);
            assert(self.va_range.start <= area.start && area.end <= self.va_range.end);
        }
        insert_area(&mut self.areas, area);
        proof {
            lemma_insert_in_range(old(self).areas@, self.areas@, area, self.va_range);
        }
        proof {
            assert forall|n: usize|
                #[trigger] self.pt@.contains_key(n) && page_within(self.va_range, n) implies covered(
                self.areas@,
                n * 4096,
            ) by {
                if !(start_vaddr <= n * 4096 < start_vaddr + size) {
                    assert(old(self).pt@.contains_key(n));
                    assert(covered(old(self).areas@, n * 4096));
                }
                assert(self.binding(n * 4096) is Some);
            }
        }
        proof {
            assert forall|n: usize| #[trigger] self.alloc_page(n) implies old(self).alloc_page(n)
                && self.pt@[n].paddr == old(self).pt@[n].paddr by {
                assert(!(start_vaddr <= n * 4096 < start_vaddr + size));
            }
            assert forall|m: PhysMemory| #[trigger] old(self).frames_fresh(m) implies self.frames_fresh(m) by {
                lemma_fresh_subset(*old(self), *self, m);
            }
        }
        Ok(())
    }
}

/// Maps every page of `[start, start + size)` to a fresh zeroed frame,
/// taken from the top of the frame allocator's free area down.
fn populate_range(
    pt: &mut PageTable,
    start: usize,
    size: usize,
    flags: MappingFlags,
    mem: &mut PhysMemory,
)
    requires
        old(pt).wf(),
        old(mem).wf(),
        start % 4096 == 0,
        size % 4096 == 0,
        start + size <= usize::MAX,
        old(mem).free_frame_count() >= size / 4096,
    ensures
        final(pt).wf(),
        final(mem).wf(),
        final(pt).root == old(pt).root,
        ({
            let top = old(mem).frames.p_pos;
            &&& final(pt)@ == old(pt)@.union_prefer_right(
                populated_entries(start as int, size as int, top as int, flags),
            )
            &&& final(mem).frames == (EarlyAllocator {
                p_pos: (top - size) as usize,
                ..old(mem).frames
            })
            &&& final(mem).released == old(mem).released
            &&& final(mem)@ == Map::new(
                |p: int| true,
                |p: int|
                    if top - size <= p < top {
                        0u8
                    } else {
                        old(mem)@[p]
                    },
            )
        }),
{
    proof {
        let (p, b) = (mem.frames.p_pos as int, mem.frames.b_pos as int);
        assert(p - b >= size) by (nonlinear_arith)
            requires
                (p - b) / 4096 >= size / 4096,
                size % 4096 == 0,
                p >= b,
        ;
    }
    let ghost top = old(mem).frames.p_pos as int;
    let ghost m0 = old(mem)@;
    let mut off: usize = 0;
    while off < size
        invariant
            pt.wf(),
            mem.wf(),
            pt.root == old(pt).root,
            off <= size,
            off % 4096 == 0,
            size % 4096 == 0,
            start % 4096 == 0,
            start + size <= usize::MAX,
            top == old(mem).frames.p_pos,
            size <= top,
            m0 == old(mem)@,
            mem.frames == (EarlyAllocator { p_pos: (top - off) as usize, ..old(mem).frames }),
            mem.released == old(mem).released,
            mem.free_frame_count() >= (size - off) / 4096,
            mem@ == Map::new(
                |p: int| true,
                |p: int| if top - off <= p < top { 0u8 } else { m0[p] },
            ),
            pt@ == old(pt)@.union_prefer_right(
                populated_entries(start as int, off as int, top, flags),
            ),
        decreases size - off,
    {
        let ghost mb = mem@;
        proof {
            assert(mem.frames.p_pos == top - off);
        }
        let pa = match mem.alloc_fresh_frame() {
            Ok(pa) => pa,
            Err(_) => {
                proof {
                    assert((size - off) / 4096 >= 1);
                }
                return;
            },
        };
        pt.map_page(start + off, pa, flags);
        proof {
            assert(pa == top - off - 4096);
            assert(mem@ == zero_frame(mb, pa as int));
            let n = vpn((start + off) as int);
            assert(n * 4096 == start + off);
            assert(pt@ =~= old(pt)@.union_prefer_right(
                populated_entries(start as int, (off + 4096) as int, top, flags),
            ));
            assert(mem@ =~= Map::new(
                |p: int| true,
                |p: int| if top - (off + 4096) <= p < top { 0u8 } else { m0[p] },
            ));
        }
        off = off + PAGE_SIZE_4K;
    }
}

/// Every area of `t` lies in `range` when `t` is `s` with `a` inserted, and
/// `a` and every area of `s` lie in it.
proof fn lemma_insert_in_range(s: Seq<MemoryArea>, t: Seq<MemoryArea>, a: MemoryArea, range: VirtAddrRange)
    requires
        exists|k: int| 0 <= k <= s.len() && t == s.insert(k, a),
        range.start <= a.start && a.end <= range.end,
        forall|i: int| 0 <= i < s.len() ==> range.start <= #[trigger] s[i].start && s[i].end <= range.end,
    ensures
        forall|i: int| 0 <= i < t.len() ==> range.start <= #[trigger] t[i].start && t[i].end <= range.end,
{
    let k = choose|k: int| 0 <= k <= s.len() && t == s.insert(k, a);
    assert(t.len() == s.len() + 1);
    assert forall|i: int| 0 <= i < t.len() implies range.start <= #[trigger] t[i].start
        && t[i].end <= range.end by {
        if i < k {
            assert(t[i] == s[i]);
            assert(range.start <= s[i].start && s[i].end <= range.end);
        } else if i > k {
            assert(t[i] == s[i - 1]);
            assert(range.start <= s[i - 1].start && s[i - 1].end <= range.end);
        } else {
            assert(t[i] == a);
        }
    }
}

/// Every area of `t` lies in `range` when each lies between the first
/// area's start and the last area's end of `s`, all of which lie in `range`.
proof fn lemma_carved_in_range(s: Seq<MemoryArea>, t: Seq<MemoryArea>, range: VirtAddrRange)
    requires
        forall|i: int| 0 <= i < s.len() ==> range.start <= #[trigger] s[i].start && s[i].end <= range.end,
        forall|i: int|
            0 <= i < t.len() ==> s.len() > 0 && s[0].start <= (#[trigger] t[i]).start && t[i].end
                <= s[s.len() - 1].end,
    ensures
        forall|i: int| 0 <= i < t.len() ==> range.start <= #[trigger] t[i].start && t[i].end <= range.end,
{
    assert forall|i: int| 0 <= i < t.len() implies range.start <= #[trigger] t[i].start
        && t[i].end <= range.end by {
        assert(s.len() > 0 && s[0].start <= t[i].start && t[i].end <= s[s.len() - 1].end);
        let last = s.len() - 1;
        assert(range.start <= s[0].start);
        assert(range.start <= s[last].start && s[last].end <= range.end);
    }
}

/// Freshness carries over to a space whose allocating pages are among the
/// old ones, with the same frames.
proof fn lemma_fresh_subset(s0: AddrSpace, s1: AddrSpace, m: PhysMemory)
    requires
        s0.frames_fresh(m),
        forall|n: usize|
            #[trigger] s1.alloc_page(n) ==> s0.alloc_page(n) && s1.pt@[n].paddr == s0.pt@[n].paddr,
    ensures
        s1.frames_fresh(m),
{
    assert forall|n: usize, k: usize|
        #[trigger] s1.alloc_page(n) && #[trigger] s1.alloc_page(k) && n != k implies s1.pt@[n].paddr
        != s1.pt@[k].paddr by {
        assert(s0.alloc_page(n) && s0.alloc_page(k));
    }
}

/// Populating `[start, start + size)` with fresh frames from the top of
/// `m0`'s allocator down keeps the frames of allocating pages fresh.
proof fn lemma_populate_fresh(
    s0: AddrSpace,
    s1: AddrSpace,
    m0: PhysMemory,
    m1: PhysMemory,
    start: int,
    size: int,
    flags: MappingFlags,
)
    requires
        s0.frames_fresh(m0),
        m0.wf(),
        0 <= start,
        0 <= size,
        start % 4096 == 0,
        size % 4096 == 0,
        size <= m0.frames.p_pos,
        m1.frames == (EarlyAllocator { p_pos: (m0.frames.p_pos - size) as usize, ..m0.frames }),
        m1.released == m0.released,
        s1.pt@ == s0.pt@.union_prefer_right(
            populated_entries(start, size, m0.frames.p_pos as int, flags),
        ),
        forall|va: int|
            #[trigger] s1.binding(va) == (if start <= va < start + size {
                Some((flags, None::<int>))
            } else {
                s0.binding(va)
            }),
    ensures
        s1.frames_fresh(m1),
{
    let top = m0.frames.p_pos as int;
    let e = populated_entries(start, size, top, flags);
    assert forall|n: usize| #[trigger] s1.alloc_page(n) && e.contains_key(n) implies top - size
        <= s1.pt@[n].paddr && s1.pt@[n].paddr + 4096 <= top && s1.pt@[n].paddr % 4096 == 0
        && s1.pt@[n] == e[n] by {
        assert(n * 4096 - start + 4096 <= size);
        assert(n * 4096 - start >= 0);
        assert(s1.pt@[n] == e[n]);
        assert(e[n].paddr == top - (n * 4096 - start) - 4096);
    }
    assert forall|n: usize| #[trigger] s1.alloc_page(n) && !e.contains_key(n) implies s0.alloc_page(n)
        && s1.pt@[n] == s0.pt@[n] by {
        assert(!(start <= n * 4096 < start + size));
        assert(s1.binding(n * 4096) == s0.binding(n * 4096));
        assert(s0.pt@.contains_key(n));
        assert(s1.pt@[n] == s0.pt@[n]);
    }
    assert forall|n: usize| #[trigger] s1.alloc_page(n) implies m1.returnable(s1.pt@[n].paddr)
        && !m1.released@.contains(s1.pt@[n].paddr) by {
        let pa = s1.pt@[n].paddr;
        if e.contains_key(n) {
            if m1.released@.contains(pa) {
                let i = choose|i: int| 0 <= i < m0.released@.len() && m0.released@[i] == pa;
                assert(m0.returnable(m0.released@[i]));
            }
        } else {
            assert(s0.alloc_page(n));
        }
    }
    assert forall|n: usize, k: usize|
        #[trigger] s1.alloc_page(n) && #[trigger] s1.alloc_page(k) && n != k implies s1.pt@[n].paddr
        != s1.pt@[k].paddr by {
        if e.contains_key(n) && e.contains_key(k) {
            lemma_populated_frames_distinct(start, size, top, flags, n, k);
        } else if !e.contains_key(n) && !e.contains_key(k) {
            assert(s0.alloc_page(n) && s0.alloc_page(k));
        } else if e.contains_key(n) {
            assert(s0.alloc_page(k));
        } else {
            assert(s0.alloc_page(n));
        }
    }
}

/// The frames that unmapping `[start, end)` gives back to `m`: those of the
/// allocating pages in the range that belong to `m`'s page area.
pub open spec fn unmap_released(s: AddrSpace, m: PhysMemory, start: int, end: int) -> Set<usize> {
    Set::new(
        |pa: usize|
            m.returnable(pa) && exists|n: usize|
                #[trigger] s.alloc_page(n) && start <= n * 4096 < end && s.pt@[n].paddr == pa,
    )
}

/// Unmapping `[start, end)` keeps the frames of the remaining allocating
/// pages fresh: none of them is among the frames given back.
proof fn lemma_unmap_fresh(
    s0: AddrSpace,
    s1: AddrSpace,
    m0: PhysMemory,
    m1: PhysMemory,
    start: int,
    end: int,
)
    requires
        s0.frames_fresh(m0),
        forall|n: usize|
            #[trigger] s1.alloc_page(n) ==> s0.alloc_page(n) && !(start <= n * 4096 < end)
                && s1.pt@[n].paddr == s0.pt@[n].paddr,
        m1.frames == m0.frames,
        m1.released@.to_set() == m0.released@.to_set().union(unmap_released(s0, m0, start, end)),
    ensures
        s1.frames_fresh(m1),
{
    assert forall|n: usize| #[trigger] s1.alloc_page(n) implies m1.returnable(s1.pt@[n].paddr)
        && !m1.released@.contains(s1.pt@[n].paddr) by {
        let pa = s1.pt@[n].paddr;
        assert(s0.alloc_page(n));
        if m1.released@.contains(pa) {
            assert(m1.released@.to_set().contains(pa));
            if !m0.released@.to_set().contains(pa) {
                let k = choose|k: usize|
                    #[trigger] s0.alloc_page(k) && start <= k * 4096 < end && s0.pt@[k].paddr == pa;
                assert(k != n);
            }
        }
    }
    assert forall|n: usize, k: usize|
        #[trigger] s1.alloc_page(n) && #[trigger] s1.alloc_page(k) && n != k implies s1.pt@[n].paddr
        != s1.pt@[k].paddr by {
        assert(s0.alloc_page(n) && s0.alloc_page(k));
    }
}

/// Mapping the missing page `n0` to the frame that `m0` hands out next
/// keeps the frames of allocating pages fresh.
proof fn lemma_fault_fresh(
    s0: AddrSpace,
    s1: AddrSpace,
    m0: PhysMemory,
    m1: PhysMemory,
    n0: usize,
    e: PageTableEntry,
)
    requires
        s0.frames_fresh(m0),
        m0.wf(),
        m0.can_alloc(),
        m0.allocated(m1),
        e.paddr == m0.next_frame(),
        s1.pt@ == s0.pt@.insert(n0, e),
        s1.areas == s0.areas,
    ensures
        s1.frames_fresh(m1),
{
    let f = e.paddr;
    if m0.free_frame_count() < 1 {
        let last = m0.released@.len() - 1;
        assert(m0.released@[last] == f);
        assert(m0.returnable(m0.released@[last]));
        assert(!m1.released@.contains(f)) by {
            if m1.released@.contains(f) {
                let i = choose|i: int| 0 <= i < m1.released@.len() && m1.released@[i] == f;
                assert(m0.released@[i] == m0.released@[last]);
            }
        }
    } else {
        assert(!m1.released@.contains(f)) by {
            if m1.released@.contains(f) {
                let i = choose|i: int| 0 <= i < m0.released@.len() && m0.released@[i] == f;
                assert(m0.returnable(m0.released@[i]));
            }
        }
    }
    assert forall|n: usize| #[trigger] s1.alloc_page(n) && n != n0 implies s0.alloc_page(n)
        && s1.pt@[n] == s0.pt@[n] by {
        assert(s1.binding(n * 4096) == s0.binding(n * 4096));
    }
    assert forall|n: usize| #[trigger] s1.alloc_page(n) implies m1.returnable(s1.pt@[n].paddr)
        && !m1.released@.contains(s1.pt@[n].paddr) by {
        if n != n0 {
            let pa = s1.pt@[n].paddr;
            assert(s0.alloc_page(n));
            if m1.released@.contains(pa) {
                let i = choose|i: int| 0 <= i < m1.released@.len() && m1.released@[i] == pa;
                assert(m0.released@[i] == pa);
            }
        }
    }
    assert forall|n: usize, k: usize|
        #[trigger] s1.alloc_page(n) && #[trigger] s1.alloc_page(k) && n != k implies s1.pt@[n].paddr
        != s1.pt@[k].paddr by {
        if n != n0 && k != n0 {
            assert(s0.alloc_page(n) && s0.alloc_page(k));
        } else {
            let other = if n == n0 { k } else { n };
            assert(s0.alloc_page(other));
            if m0.free_frame_count() < 1 {
                assert(m0.released@.contains(f));
            }
        }
    }
}

/// The area that holds `va` also holds the start of its page.
proof fn lemma_page_start_in_area(s: Seq<MemoryArea>, i: int, va: int)
    requires
        areas_wf(s),
        0 <= i < s.len(),
        s[i].has(va),
    ensures
        s[i].has(va - va % 4096),
        s[i].has(vpn(va) * 4096),
        s[i].start <= vpn(va) * 4096 && vpn(va) * 4096 + 4096 <= s[i].end,
        covered(s, vpn(va) * 4096),
{
    assert(s[i].wf());
    assert(vpn(va) * 4096 == va - va % 4096);
    let p = vpn(va) * 4096;
    assert(s[i].has(p));
    assert(exists|j: int| 0 <= j < s.len() && #[trigger] s[j].has(p));
}

/// What one call of `handle_page_fault(va, access)` does, taking the address
/// space from `s0` to `s1` and physical memory from `m0` to `m1`, and
/// returning `r`. The fault is resolved (`r`) exactly when `va` lies in an
/// allocating area whose flags include `access`, and the page is present or a
/// frame is free; a missing page then gets a fresh zeroed frame. Otherwise
/// nothing changes.
pub open spec fn page_fault_effect(
    s0: AddrSpace,
    m0: PhysMemory,
    s1: AddrSpace,
    m1: PhysMemory,
    va: usize,
    access: MappingFlags,
    r: bool,
) -> bool {
    let present = s0.pt@.contains_key(vpn(va as int));
    &&& r == (s0.fault_resolvable(va as int, access) && (present || m0.can_alloc()))
    &&& (!r || present) ==> s1 == s0 && m1 == m0
    &&& (r && !present) ==> {
        &&& s1.va_range == s0.va_range
        &&& s1.areas == s0.areas
        &&& s1.pt.root == s0.pt.root
        &&& s1.pt@ == s0.pt@.insert(
            vpn(va as int),
            PageTableEntry { paddr: m0.next_frame(), flags: s0.binding(va as int).unwrap().0 },
        )
        &&& m0.allocated(m1)
    }
}

impl AddrSpace {
    /// Whether a fault at `va` with access `access` is one that lazy
    /// allocation resolves: `va` is in range, in an allocating area, and the
    /// area's flags include `access`.
    pub open spec fn fault_resolvable(&self, va: int, access: MappingFlags) -> bool {
        &&& self.va_range.has(va)
        &&& match self.binding(va) {
            Some((f, None)) => MappingFlags::includes(f@, access@),
            _ => false,
        }
    }

    /// Adds an allocating mapping of `[start, start + size)`. With
    /// `populate`, a zeroed frame is allocated and mapped for every page now;
    /// otherwise pages are allocated when first faulted on.
    ///
    /// Fails with `InvalidInput` when the range is empty, out of the address
    /// space or not aligned; with `AlreadyExists` when it meets an existing
    /// area; with `NoMemory` when populating needs more frames than are free.
    #[verifier::rlimit(40)]
    pub fn map_alloc(
        &mut self,
        start: usize,
        size: usize,
        flags: MappingFlags,
        populate: bool,
        mem: &mut PhysMemory,
    ) -> (r: AxResult)
        requires
            old(self).wf(),
            old(mem).wf(),
        ensures
            final(self).wf(),
            final(mem).wf(),
            r == (if old(self).bad_request(start as int, size as int) || size == 0 {
                Err(AxError::InvalidInput)
            } else if old(self).overlapped(start as int, start + size) {
                Err(AxError::AlreadyExists)
            } else if populate && old(mem).free_frame_count() < size / 4096 {
                Err(AxError::NoMemory)
            } else {
                Ok(())
            }),
            r is Err ==> *final(self) == *old(self) && *final(mem) == *old(mem),
            r is Ok ==> {
                &&& final(self).va_range == old(self).va_range
                &&& final(self).pt.root == old(self).pt.root
                &&& exists|k: int|
                    0 <= k <= old(self).areas@.len() && final(self).areas@ == #[trigger] old(self).areas@.insert(
                        k,
                        MemoryArea {
                            start,
                            end: (start + size) as usize,
                            flags,
                            backend: Backend::Alloc { populate },
                        },
                    )
                &&& forall|va: int|
                    #[trigger] final(self).binding(va) == (if start <= va < start + size {
                        Some((flags, None::<int>))
                    } else {
                        old(self).binding(va)
                    })
            },
            r is Ok && !populate ==> final(self).pt@ == old(self).pt@ && *final(mem) == *old(mem),
            r is Ok && populate ==> {
                let top = old(mem).frames.p_pos;
                &&& final(self).pt@ == old(self).pt@.union_prefer_right(
                    populated_entries(start as int, size as int, top as int, flags),
                )
                &&& final(mem).frames == (EarlyAllocator {
                    p_pos: (top - size) as usize,
                    ..old(mem).frames
                })
                &&& final(mem).released == old(mem).released
                &&& final(mem)@ == Map::new(
                    |p: int| true,
                    |p: int|
                        if top - size <= p < top {
                            0u8
                        } else {
                            old(mem)@[p]
                        },
                )
            },
            old(self).frames_fresh(*old(mem)) ==> final(self).frames_fresh(*final(mem)),
    {
        if !self.contains_range(start, size) {
            return Err(AxError::InvalidInput);
        }
        if !is_aligned_4k(start) || !is_aligned_4k(size) || size == 0 {
            return Err(AxError::InvalidInput);
        }
        let end = start + size;
        if overlaps_any(&self.areas, start, end) {
            return Err(AxError::AlreadyExists);
        }
        if populate && mem.free_frames() < size / PAGE_SIZE_4K {
            return Err(AxError::NoMemory);
        }
        let area = MemoryArea::new(start, size, flags, Backend::new_alloc(populate));
        if populate {
            proof {
                let (p, b) = (mem.frames.p_pos as int, mem.frames.b_pos as int);
                assert(p - b >= size) by (nonlinear_arith)
                    requires
                        (p - b) / 4096 >= size / 4096,
                        size % 4096 == 0,
                        p >= b,
                ;
            }
            populate_range(&mut self.pt, start, size, flags, mem);
        } else {
            assert(self.pt@ =~= old(self).pt@);
        }
        proof {
            assert forall|i: int|
                0 <= i < old(self).areas@.len() implies !(#[trigger] old(self).areas@[i].start
                < area.end && area.start < old(self).areas@[i].end) by {}
            assert(self.areas@ == old(self).areas@);
            assert(self.va_range.start <= area.start && area.end <= self.va_range.end);
        }
        insert_area(&mut self.areas, area);
        proof {
            lemma_insert_in_range(old(self).areas@, self.areas@, area, self.va_range);
        }
        proof {
            assert forall|n: usize|
                #[trigger] self.pt@.contains_key(n) && page_within(self.va_range, n) implies covered(
                self.areas@,
                n * 4096,
            ) by {
                if !(start <= n * 4096 < start + size) {
                    assert(old(self).pt@.contains_key(n));
                    assert(covered(old(self).areas@, n * 4096));
                }
                assert(self.binding(n * 4096) is Some);
            }
        }
        proof {
            if old(self).frames_fresh(*old(mem)) {
                if populate {
                    lemma_populate_fresh(
                        *old(self),
                        *self,
                        *old(mem),
                        *mem,
                        start as int,
                        size as int,
                        flags,
                    );
                } else {
                    assert forall|n: usize| #[trigger] self.alloc_page(n) implies old(self).alloc_page(n)
                        && self.pt@[n].paddr == old(self).pt@[n].paddr by {
                        if start <= n * 4096 < start + size {
                            assert(covered(old(self).areas@, n * 4096));
                            let k = choose|k: int|
                                0 <= k < old(self).areas@.len() && #[trigger] old(self).areas@[k].has(
                                    n * 4096,
                                );
                            assert(old(self).areas@[k].start < start + size && start < old(self).areas@[k].end);
                        }
                    }
                    lemma_fresh_subset(*old(self), *self, *old(mem));
                }
            }
        }
        Ok(())
    }

    /// Handles a page fault at `vaddr` caused by an access of kind
    /// `access_flags`. Returns `true` if the fault is resolved (not a real
    /// fault): `vaddr` lies in an allocating area whose flags include the
    /// access, and its page is present or gets a fresh zeroed frame now.
    /// A linear area never faults, so a fault in one is a real fault.
    #[verifier::rlimit(40)]
    pub fn handle_page_fault(
        &mut self,
        vaddr: usize,
        access_flags: MappingFlags,
        mem: &mut PhysMemory,
    ) -> (r: bool)
        requires
            old(self).wf(),
            old(mem).wf(),
        ensures
            final(self).wf(),
            final(mem).wf(),
            page_fault_effect(*old(self), *old(mem), *final(self), *final(mem), vaddr, access_flags, r),
            r ==> (old(self).binding(vaddr as int) matches Some((f, _)) && MappingFlags::includes(
                f@,
                access_flags@,
            )),
            old(self).frames_fresh(*old(mem)) ==> final(self).frames_fresh(*final(mem)),
    {
        if !self.va_range.contains(vaddr) {
            return false;
        }
        match find_area(&self.areas, vaddr) {
            Some(i) => {
                let area = self.areas[i];
                proof {
                    lemma_area_at(self.areas@, i as int, vaddr as int);
                }
                if !area.flags.contains(access_flags) {
                    return false;
                }
                match area.backend {
                    Backend::Linear { .. } => false,
                    Backend::Alloc { .. } => {
                        if self.pt.entry(vaddr).is_some() {
                            return true;
                        }
                        match mem.alloc_frame() {
                            Ok(pa) => {
                                self.pt.map_page(vaddr, pa, area.flags);
                                proof {
                                    if old(self).frames_fresh(*old(mem)) {
                                        lemma_fault_fresh(
                                            *old(self),
                                            *self,
                                            *old(mem),
                                            *mem,
                                            vpn(vaddr as int),
                                            PageTableEntry { paddr: pa, flags: area.flags },
                                        );
                                    }
                                    lemma_page_start_in_area(self.areas@, i as int, vaddr as int);
                                    assert forall|n: usize|
                                        #[trigger] self.pt@.contains_key(n) && page_within(
                                            self.va_range,
                                            n,
                                        ) implies covered(self.areas@, n * 4096) by {
                                        if n != vpn(vaddr as int) {
                                            assert(old(self).pt@.contains_key(n));
                                        }
                                    }
                                }
                                true
                            },
                            Err(_) => false,
                        }
                    },
                }
            },
            None => false,
        }
    }

    /// Unmaps the present pages of `[start, start + size)`, giving the
    /// frames of allocating areas back to the frame allocator.
    #[verifier::rlimit(40)]
    fn unmap_pages(&mut self, start: usize, size: usize, mem: &mut PhysMemory)
        requires
            old(self).wf(),
            start % 4096 == 0,
            size % 4096 == 0,
            start + size <= usize::MAX,
            old(mem).wf(),
        ensures
            final(self).wf(),
            final(mem).wf(),
            final(mem).frames == old(mem).frames,
            final(mem)@ == old(mem)@,
            final(mem).released@.to_set() == old(mem).released@.to_set().union(
                unmap_released(*old(self), *old(mem), start as int, start + size),
            ),
            final(self).va_range == old(self).va_range,
            final(self).areas == old(self).areas,
            final(self).pt.root == old(self).pt.root,
            final(self).pt@ == old(self).pt@.remove_keys(
                Set::new(|n: usize| start <= n * 4096 < start + size),
            ),
    {
        let mut off: usize = 0;
        while off < size
            invariant
                old(self).wf(),
                self.pt.wf(),
                mem.wf(),
                mem.frames == old(mem).frames,
                mem@ == old(mem)@,
                mem.released@.to_set() == old(mem).released@.to_set().union(
                    unmap_released(*old(self), *old(mem), start as int, start + off),
                ),
                self.pt.root == old(self).pt.root,
                self.va_range == old(self).va_range,
                self.areas == old(self).areas,
                off <= size,
                off % 4096 == 0,
                size % 4096 == 0,
                start % 4096 == 0,
                start + size <= usize::MAX,
                self.pt@ == old(self).pt@.remove_keys(
                    Set::new(|n: usize| start <= n * 4096 < start + off),
                ),
            decreases size - off,
        {
            let va = start + off;
            let ghost n = vpn(va as int);
            let ghost r0 = mem.released@;
            assert(n * 4096 == va);
            let ghost freed = old(self).alloc_page(n) && old(mem).returnable(old(self).pt@[n].paddr);
            match self.pt.entry(va) {
                Some(e) => {
                    assert(old(self).pt@.contains_key(n) && e == old(self).pt@[n]);
                    match find_area(&self.areas, va) {
                        Some(i) => {
                            proof {
                                lemma_area_at(self.areas@, i as int, va as int);
                            }
                            match self.areas[i].backend {
                                Backend::Alloc { .. } => {
                                    assert(old(self).alloc_page(n));
                                    mem.dealloc_frame(e.paddr);
                                },
                                Backend::Linear { .. } => {
                                    assert(!old(self).alloc_page(n));
                                },
                            }
                        },
                        None => {
                            assert(!old(self).alloc_page(n));
                        },
                    }
                    self.pt.unmap_page(va);
                },
                None => {
                    assert(!old(self).alloc_page(n));
                },
            }
            proof {
                let u0 = unmap_released(*old(self), *old(mem), start as int, start + off);
                let u1 = unmap_released(*old(self), *old(mem), start as int, start + off + 4096);
                assert(u1 =~= (if freed { u0.insert(old(self).pt@[n].paddr) } else { u0 })) by {
                    assert forall|pa: usize| u1.contains(pa) implies (if freed {
                        u0.insert(old(self).pt@[n].paddr)
                    } else {
                        u0
                    }).contains(pa) by {
                        let k = choose|k: usize|
                            #[trigger] old(self).alloc_page(k) && start <= k * 4096 < start + off
                                + 4096 && old(self).pt@[k].paddr == pa;
                        if k != n {
                            assert(k * 4096 < start + off);
                        }
                    }
                }
                if freed {
                    assert(mem.released@.to_set() =~= r0.to_set().insert(old(self).pt@[n].paddr)) by {
                        let pa = old(self).pt@[n].paddr;
                        if !r0.contains(pa) {
                            let t = r0.push(pa);
                            assert(mem.released@ == t);
                            assert forall|x: usize| t.contains(x) <==> (r0.contains(x) || x == pa) by {
                                if r0.contains(x) {
                                    let i = choose|i: int| 0 <= i < r0.len() && r0[i] == x;
                                    assert(t[i] == x);
                                }
                                if x == pa {
                                    assert(t[r0.len() as int] == pa);
                                }
                                if t.contains(x) {
                                    let i = choose|i: int| 0 <= i < t.len() && t[i] == x;
                                    if i < r0.len() {
                                        assert(r0[i] == x);
                                    }
                                }
                            }
                        } else {
                            assert(mem.released@ == r0);
                        }
                    }
                } else {
                    assert(mem.released@ == r0);
                }
                assert(mem.released@.to_set() =~= old(mem).released@.to_set().union(u1));
                assert(self.pt@ =~= old(self).pt@.remove_keys(
                    Set::new(|n: usize| start <= n * 4096 < start + off + 4096),
                ));
            }
            off = off + PAGE_SIZE_4K;
        }
    }

    /// Removes the mappings and the area bookkeeping of `[start, start + size)`;
    /// the frames of allocating areas in it go back to the frame allocator.
    ///
    /// Fails with `InvalidInput` when the range is out of the address space
    /// or not aligned.
    #[verifier::rlimit(40)]
    pub fn unmap(&mut self, start: usize, size: usize, mem: &mut PhysMemory) -> (r: AxResult)
        requires
            old(self).wf(),
            old(mem).wf(),
        ensures
            final(self).wf(),
            final(mem).wf(),
            final(mem).frames == old(mem).frames,
            final(mem)@ == old(mem)@,
            r == (if old(self).bad_request(start as int, size as int) {
                Err(AxError::InvalidInput)
            } else {
                Ok(())
            }),
            r is Err ==> *final(self) == *old(self) && *final(mem) == *old(mem),
            r is Ok ==> final(mem).released@.to_set() == old(mem).released@.to_set().union(
                unmap_released(*old(self), *old(mem), start as int, start + size),
            ),
            old(self).frames_fresh(*old(mem)) ==> final(self).frames_fresh(*final(mem)),
            r is Ok ==> {
                &&& final(self).va_range == old(self).va_range
                &&& final(self).pt.root == old(self).pt.root
                &&& final(self).pt@ == old(self).pt@.remove_keys(
                    Set::new(|n: usize| start <= n * 4096 < start + size),
                )
                &&& forall|va: int|
                    #[trigger] final(self).binding(va) == carved(
                        old(self).binding(va),
                        va,
                        start as int,
                        start + size,
                        None,
                    )
            },
            forall|m: PhysMemory| #[trigger] old(self).frames_fresh(m) ==> final(self).frames_fresh(m),
    {
        if !self.contains_range(start, size) {
            return Err(AxError::InvalidInput);
        }
        if !is_aligned_4k(start) || !is_aligned_4k(size) {
            return Err(AxError::InvalidInput);
        }
        self.unmap_pages(start, size, mem);
        self.areas = carve_areas(&self.areas, start, start + size, None);
        proof {
            lemma_carved_in_range(old(self).areas@, self.areas@, self.va_range);
        }
        proof {
            assert forall|n: usize|
                #[trigger] self.pt@.contains_key(n) && page_within(self.va_range, n) implies covered(
                self.areas@,
                n * 4096,
            ) by {
                assert(old(self).pt@.contains_key(n));
                assert(covered(old(self).areas@, n * 4096));
                assert(self.binding(n * 4096) is Some);
            }
        }
        proof {
            assert forall|n: usize| #[trigger] self.alloc_page(n) implies old(self).alloc_page(n)
                && self.pt@[n].paddr == old(self).pt@[n].paddr by {
                assert(!(start <= n * 4096 < start + size));
            }
            assert forall|m: PhysMemory| #[trigger] old(self).frames_fresh(m) implies self.frames_fresh(m) by {
                lemma_fresh_subset(*old(self), *self, m);
            }
            if old(self).frames_fresh(*old(mem)) {
                lemma_unmap_fresh(*old(self), *self, *old(mem), *mem, start as int, start + size);
            }
        }
        Ok(())
    }

    /// Updates the flags of `[start, start + size)`: of its present pages and
    /// of the areas in it, which keep their backing.
    ///
    /// Fails with `InvalidInput` when the range is out of the address space
    /// or not aligned.
    #[verifier::rlimit(40)]
    pub fn protect(&mut self, start: usize, size: usize, flags: MappingFlags) -> (r: AxResult)
        requires
            old(self).wf(),
        ensures
            final(self).wf(),
            r == (if old(self).bad_request(start as int, size as int) {
                Err(AxError::InvalidInput)
            } else {
                Ok(())
            }),
            r is Err ==> *final(self) == *old(self),
            r is Ok ==> {
                &&& final(self).va_range == old(self).va_range
                &&& final(self).pt.root == old(self).pt.root
                &&& final(self).pt@ == reflagged(old(self).pt@, start as int, start + size, flags)
                &&& forall|va: int|
                    #[trigger] final(self).binding(va) == carved(
                        old(self).binding(va),
                        va,
                        start as int,
                        start + size,
                        Some(flags),
                    )
            },
            forall|m: PhysMemory| #[trigger] old(self).frames_fresh(m) ==> final(self).frames_fresh(m),
    {
        if !self.contains_range(start, size) {
            return Err(AxError::InvalidInput);
        }
        if !is_aligned_4k(start) || !is_aligned_4k(size) {
            return Err(AxError::InvalidInput);
        }
        self.pt.reflag_range(start, size, flags);
        self.areas = carve_areas(&self.areas, start, start + size, Some(flags));
        proof {
            lemma_carved_in_range(old(self).areas@, self.areas@, self.va_range);
        }
        proof {
            assert forall|n: usize|
                #[trigger] self.pt@.contains_key(n) && page_within(self.va_range, n) implies covered(
                self.areas@,
                n * 4096,
            ) by {
                assert(old(self).pt@.contains_key(n));
                assert(covered(old(self).areas@, n * 4096));
                assert(self.binding(n * 4096) is Some);
            }
        }
        proof {
            assert forall|n: usize| #[trigger] self.alloc_page(n) implies old(self).alloc_page(n)
                && self.pt@[n].paddr == old(self).pt@[n].paddr by {
                assert(self.pt@.contains_key(n));
            }
            assert forall|m: PhysMemory| #[trigger] old(self).frames_fresh(m) implies self.frames_fresh(m) by {
                lemma_fresh_subset(*old(self), *self, m);
            }
        }
        Ok(())
    }
}

/// Whether every byte of `[va, va + len)` lies in a mapped page.
pub open spec fn all_mapped(pt: Map<usize, PageTableEntry>, va: int, len: int) -> bool {
    forall|i: int| 0 <= i < len ==> #[trigger] pt.contains_key(vpn(va + i))
}

/// The bytes of `[va, va + len)` as read through `pt` from memory `m`.
pub open spec fn read_spec(m: Map<int, u8>, pt: Map<usize, PageTableEntry>, va: int, len: nat) -> Seq<
    u8,
> {
    Seq::new(len, |i: int| m[translate(pt, va + i)])
}

/// Memory `m` after `d` is written byte by byte from `va` through `pt`.
pub open spec fn write_spec(
    m: Map<int, u8>,
    pt: Map<usize, PageTableEntry>,
    va: int,
    d: Seq<u8>,
) -> Map<int, u8>
    decreases d.len(),
{
    if d.len() == 0 {
        m
    } else {
        write_spec(m, pt, va, d.drop_last()).insert(translate(pt, va + d.len() - 1), d.last())
    }
}

/// The physical pieces of `[va, end)`: one per page, each the physical
/// address of its first byte and its length.
pub open spec fn segments(pt: Map<usize, PageTableEntry>, va: int, end: int) -> Seq<(usize, usize)>
    decreases end - va,
{
    if va >= end {
        Seq::empty()
    } else {
        let next = if va - va % 4096 + 4096 < end {
            va - va % 4096 + 4096
        } else {
            end
        };
        seq![(translate(pt, va) as usize, (next - va) as usize)] + segments(pt, next, end)
    }
}

/// Whether the area that holds `va` also holds `[va, va + len)`.
pub open spec fn one_area_covers(s: Seq<MemoryArea>, va: int, len: int) -> bool {
    exists|i: int| 0 <= i < s.len() && #[trigger] s[i].has(va) && va + len <= s[i].end
}

impl AddrSpace {
    /// Whether every byte of `[start, start + size)` lies in a mapped page;
    /// the page table is queried once per page.
    fn check_mapped(&self, start: usize, size: usize) -> (r: bool)
        requires
            self.pt.wf(),
            start + size <= usize::MAX,
        ensures
            r == all_mapped(self.pt@, start as int, size as int),
    {
        let mut i: usize = 0;
        while i < size
            invariant
                i <= size,
                start + size <= usize::MAX,
                forall|j: int| 0 <= j < i ==> #[trigger] self.pt@.contains_key(vpn(start + j)),
                0 < i < size && (start + i) % 4096 != 0 ==> self.pt@.contains_key(
                    vpn(start + i),
                ),
            decreases size - i,
        {
            let va = start + i;
            if i == 0 || align_offset_4k(va) == 0 {
                if self.pt.entry(va).is_none() {
                    return false;
                }
            }
            assert(self.pt@.contains_key(vpn(start + i)));
            proof {
                if (start + i + 1) % 4096 != 0 {
                    assert(vpn(start + i + 1) == vpn(start + i));
                }
            }
            i = i + 1;
        }
        true
    }

    /// Reads `buf.len()` bytes from `start` on into `buf`, crossing page
    /// boundaries as the page table maps them.
    ///
    /// Fails with `InvalidInput` when the range is out of the address space,
    /// and with `BadAddress` when a page in it is unmapped; `buf` is then
    /// left as it was.
    pub fn read(&self, mem: &PhysMemory, start: usize, buf: &mut [u8]) -> (r: AxResult)
        requires
            self.wf(),
        ensures
            r == (if !self.va_range.covers(start as int, old(buf)@.len() as int) {
                Err(AxError::InvalidInput)
            } else if !all_mapped(self.pt@, start as int, old(buf)@.len() as int) {
                Err(AxError::BadAddress)
            } else {
                Ok(())
            }),
            r is Err ==> final(buf)@ == old(buf)@,
            r is Ok ==> final(buf)@ == read_spec(mem@, self.pt@, start as int, old(buf)@.len()),
    {
        let size = buf.len();
        if !self.contains_range(start, size) {
            return Err(AxError::InvalidInput);
        }
        if !self.check_mapped(start, size) {
            return Err(AxError::BadAddress);
        }
        let mut frame: usize = 0;
        let mut i: usize = 0;
        while i < size
            invariant
                self.wf(),
                i <= size,
                size == buf@.len(),
                start + size <= usize::MAX,
                all_mapped(self.pt@, start as int, size as int),
                0 < i < size && (start + i) % 4096 != 0 ==> frame == self.pt@[vpn(
                    start + i,
                )].paddr,
                forall|j: int| 0 <= j < i ==> #[trigger] buf@[j] == mem@[translate(self.pt@, start + j)],
            decreases size - i,
        {
            let va = start + i;
            assert(self.pt@.contains_key(vpn(start + i)));
            if i == 0 || align_offset_4k(va) == 0 {
                frame = match self.pt.entry(va) {
                    Some(e) => e.paddr,
                    None => 0,
                };
            }
            assert(self.pt@[vpn(va as int)].wf());
            let v = mem.read_byte(frame + align_offset_4k(va));
            buf[i] = v;
            proof {
                if (start + i + 1) % 4096 != 0 {
                    assert(vpn(start + i + 1) == vpn(start + i));
                }
            }
            i = i + 1;
        }
        assert(buf@ =~= read_spec(mem@, self.pt@, start as int, size as nat));
        Ok(())
    }

    /// Writes `buf` from `start` on, crossing page boundaries as the page
    /// table maps them.
    ///
    /// Fails with `InvalidInput` when the range is out of the address space,
    /// and with `BadAddress` when a page in it is unmapped; memory is then
    /// left as it was.
    pub fn write(&self, mem: &mut PhysMemory, start: usize, buf: &[u8]) -> (r: AxResult)
        requires
            self.wf(),
        ensures
            r == (if !self.va_range.covers(start as int, buf@.len() as int) {
                Err(AxError::InvalidInput)
            } else if !all_mapped(self.pt@, start as int, buf@.len() as int) {
                Err(AxError::BadAddress)
            } else {
                Ok(())
            }),
            final(mem).frames == old(mem).frames,
            r is Err ==> final(mem)@ == old(mem)@,
            r is Ok ==> final(mem)@ == write_spec(old(mem)@, self.pt@, start as int, buf@),
    {
        let size = buf.len();
        if !self.contains_range(start, size) {
            return Err(AxError::InvalidInput);
        }
        if !self.check_mapped(start, size) {
            return Err(AxError::BadAddress);
        }
        let mut frame: usize = 0;
        let mut i: usize = 0;
        while i < size
            invariant
                self.wf(),
                i <= size,
                size == buf@.len(),
                start + size <= usize::MAX,
                all_mapped(self.pt@, start as int, size as int),
                0 < i < size && (start + i) % 4096 != 0 ==> frame == self.pt@[vpn(
                    start + i,
                )].paddr,
                mem.frames == old(mem).frames,
                mem@ == write_spec(old(mem)@, self.pt@, start as int, buf@.take(i as int)),
            decreases size - i,
        {
            let va = start + i;
            assert(self.pt@.contains_key(vpn(start + i)));
            if i == 0 || align_offset_4k(va) == 0 {
                frame = match self.pt.entry(va) {
                    Some(e) => e.paddr,
                    None => 0,
                };
            }
            assert(self.pt@[vpn(va as int)].wf());
            mem.write_byte(frame + align_offset_4k(va), buf[i]);
            proof {
                let d = buf@.take(i + 1);
                assert(d.drop_last() =~= buf@.take(i as int));
                assert(d.last() == buf@[i as int]);
                if (start + i + 1) % 4096 != 0 {
                    assert(vpn(start + i + 1) == vpn(start + i));
                }
            }
            i = i + 1;
        }
        assert(buf@.take(size as int) =~= buf@);
        Ok(())
    }

    /// The physical pieces of `[vaddr, vaddr + len)`, one per page, for a
    /// caller that streams data straight into the guest's memory. `None`
    /// when `vaddr` is outside the space or in no area, when its area does
    /// not hold the whole range, or when a page in it is unmapped.
    pub fn translated_byte_buffer(&self, vaddr: usize, len: usize) -> (r: Option<
        Vec<(usize, usize)>,
    >)
        requires
            self.wf(),
        ensures
            r is Some <==> self.va_range.has(vaddr as int) && one_area_covers(
                self.areas@,
                vaddr as int,
                len as int,
            ) && all_mapped(self.pt@, vaddr as int, len as int),
            r matches Some(v) ==> v@ == segments(self.pt@, vaddr as int, vaddr + len),
    {
        if !self.va_range.contains(vaddr) {
            return None;
        }
        let i = match find_area(&self.areas, vaddr) {
            Some(i) => i,
            None => {
                return None;
            },
        };
        if len > self.areas[i].end - vaddr {
            proof {
                if one_area_covers(self.areas@, vaddr as int, len as int) {
                    let k = choose|k: int|
                        0 <= k < self.areas@.len() && #[trigger] self.areas@[k].has(vaddr as int)
                            && vaddr + len <= self.areas@[k].end;
                    if k < i {
                        assert(self.areas@[k].end <= self.areas@[i as int].start);
                    } else if k > i {
                        assert(self.areas@[i as int].end <= self.areas@[k].start);
                    }
                }
            }
            return None;
        }
        let end = vaddr + len;
        if !self.check_mapped(vaddr, len) {
            return None;
        }
        let mut v: Vec<(usize, usize)> = Vec::new();
        let mut cur = vaddr;
        while cur < end
            invariant
                self.wf(),
                vaddr <= cur <= end,
                end == vaddr + len,
                all_mapped(self.pt@, vaddr as int, len as int),
                v@ + segments(self.pt@, cur as int, end as int) == segments(
                    self.pt@,
                    vaddr as int,
                    end as int,
                ),
            decreases end - cur,
        {
            assert(self.pt@.contains_key(vpn(vaddr + (cur - vaddr))));
            let pa = match self.pt.query(cur) {
                Some((pa, _)) => pa,
                None => 0,
            };
            let floor = align_down_4k(cur);
            let next = if end - floor > PAGE_SIZE_4K {
                floor + PAGE_SIZE_4K
            } else {
                end
            };
            let ghost rest = segments(self.pt@, next as int, end as int);
            assert(segments(self.pt@, cur as int, end as int) == seq![(pa, (next - cur) as usize)] + rest);
            let ghost v0 = v@;
            v.push((pa, next - cur));
            assert(v@ + rest =~= v0 + (seq![(pa, (next - cur) as usize)] + rest));
            cur = next;
        }
        Some(v)
    }
}

/// Disjointness: in every well-formed address space (which `new_empty`
/// establishes and every operation keeps), no two areas overlap.
pub proof fn lemma_areas_never_overlap(s: AddrSpace)
    requires
        s.wf(),
    ensures
        forall|i: int, j: int|
            0 <= i < s.areas@.len() && 0 <= j < s.areas@.len() && i != j ==> !(
            #[trigger] s.areas@[i].start < #[trigger] s.areas@[j].end && s.areas@[j].start
                < s.areas@[i].end),
{
    assert forall|i: int, j: int|
        0 <= i < s.areas@.len() && 0 <= j < s.areas@.len() && i != j implies !(
        #[trigger] s.areas@[i].start < #[trigger] s.areas@[j].end && s.areas@[j].start
            < s.areas@[i].end) by {
        assert(s.areas@[i].wf() && s.areas@[j].wf());
        if i < j {
            assert(s.areas@[i].end <= s.areas@[j].start);
        } else {
            assert(s.areas@[j].end <= s.areas@[i].start);
        }
    }
}

/// Lazy-fault idempotence: once a fault at `va` was resolved, faulting at
/// `va` again resolves it too without allocating anything or changing the
/// address space or memory.
pub proof fn lemma_fault_idempotent(
    s0: AddrSpace,
    m0: PhysMemory,
    s1: AddrSpace,
    m1: PhysMemory,
    s2: AddrSpace,
    m2: PhysMemory,
    va: usize,
    access: MappingFlags,
    r2: bool,
)
    requires
        page_fault_effect(s0, m0, s1, m1, va, access, true),
        page_fault_effect(s1, m1, s2, m2, va, access, r2),
    ensures
        r2,
        s2 == s1,
        m2 == m1,
{
    if !s0.pt@.contains_key(vpn(va as int)) {
        assert(s1.pt@.contains_key(vpn(va as int)));
        assert(s1.binding(va as int) == s0.binding(va as int));
    }
}

/// What a write leaves at the physical address of its `i`-th byte, when no
/// two bytes of the range translate to the same physical address.
pub proof fn lemma_write_spec_at(
    m: Map<int, u8>,
    pt: Map<usize, PageTableEntry>,
    va: int,
    d: Seq<u8>,
    i: int,
)
    requires
        0 <= i < d.len(),
        forall|p: int, q: int|
            0 <= p < q < d.len() ==> #[trigger] translate(pt, va + p) != #[trigger] translate(pt, va + q),
    ensures
        write_spec(m, pt, va, d)[translate(pt, va + i)] == d[i],
    decreases d.len(),
{
    let n = d.len() - 1;
    if i < n {
        assert(translate(pt, va + i) != translate(pt, va + n));
        lemma_write_spec_at(m, pt, va, d.drop_last(), i);
    }
}

/// Round trip: reading back a range just written yields the written bytes,
/// whenever no two bytes of the range translate to the same physical
/// address (as for the distinct frames of an allocating area).
pub proof fn lemma_write_read_round_trip(
    m: Map<int, u8>,
    pt: Map<usize, PageTableEntry>,
    va: int,
    d: Seq<u8>,
)
    requires
        forall|p: int, q: int|
            0 <= p < q < d.len() ==> #[trigger] translate(pt, va + p) != #[trigger] translate(pt, va + q),
    ensures
        read_spec(write_spec(m, pt, va, d), pt, va, d.len()) == d,
{
    assert forall|i: int| 0 <= i < d.len() implies read_spec(
        write_spec(m, pt, va, d),
        pt,
        va,
        d.len(),
    )[i] == d[i] by {
        lemma_write_spec_at(m, pt, va, d, i);
    }
    assert(read_spec(write_spec(m, pt, va, d), pt, va, d.len()) =~= d);
}

/// Freshness survives what other spaces' faults do to the shared memory:
/// they only lower the allocator's top, or take given-back frames again.
pub proof fn lemma_frames_fresh_lower(s: AddrSpace, m1: PhysMemory, m2: PhysMemory)
    requires
        s.frames_fresh(m1),
        m2.frames.p_pos <= m1.frames.p_pos,
        m2.frames.end == m1.frames.end,
        forall|pa: usize| #[trigger] m2.released@.contains(pa) ==> m1.released@.contains(pa),
    ensures
        s.frames_fresh(m2),
{
}

/// Round trip over allocating memory: in a well-formed space whose
/// allocating pages have fresh frames (which `new_empty` establishes and every
/// operation keeps), reading back a range of allocating pages just written
/// yields the written bytes, whatever its alignment.
pub proof fn lemma_alloc_span_round_trip(
    s: AddrSpace,
    mem: PhysMemory,
    m: Map<int, u8>,
    va: int,
    d: Seq<u8>,
)
    requires
        s.wf(),
        s.frames_fresh(mem),
        0 <= va,
        va + d.len() <= usize::MAX,
        forall|i: int| 0 <= i < d.len() ==> #[trigger] s.alloc_page(vpn(va + i)),
    ensures
        read_spec(write_spec(m, s.pt@, va, d), s.pt@, va, d.len()) == d,
{
    assert forall|p: int, q: int| 0 <= p < q < d.len() implies #[trigger] translate(s.pt@, va + p)
        != #[trigger] translate(s.pt@, va + q) by {
        let (np, nq) = (vpn(va + p), vpn(va + q));
        assert(s.alloc_page(np) && s.alloc_page(nq));
        assert(s.pt@[np].wf() && s.pt@[nq].wf());
        let (x, y) = (va + p, va + q);
        if np == nq {
            assert(x % 4096 != y % 4096) by (nonlinear_arith)
                requires
                    0 <= x < y,
                    x / 4096 == y / 4096,
            ;
        } else {
            let (a, b) = (s.pt@[np].paddr as int, s.pt@[nq].paddr as int);
            assert(a != b);
            assert(a + x % 4096 != b + y % 4096) by (nonlinear_arith)
                requires
                    a != b,
                    a % 4096 == 0,
                    b % 4096 == 0,
                    0 <= x,
                    0 <= y,
            ;
        }
    }
    lemma_write_read_round_trip(m, s.pt@, va, d);
}

/// The frames that populating an allocating area installs are pairwise
/// distinct, so its bytes translate to distinct physical addresses.
pub proof fn lemma_populated_frames_distinct(
    va: int,
    size: int,
    top: int,
    flags: MappingFlags,
    p: usize,
    q: usize,
)
    requires
        va % 4096 == 0,
        size % 4096 == 0,
        size <= top <= usize::MAX,
        populated_entries(va, size, top, flags).contains_key(p),
        populated_entries(va, size, top, flags).contains_key(q),
        p != q,
    ensures
        populated_entries(va, size, top, flags)[p].paddr != populated_entries(
            va,
            size,
            top,
            flags,
        )[q].paddr,
{
    assert(p * 4096 - va + 4096 <= size);
    assert(q * 4096 - va + 4096 <= size);
}

} // verus!
