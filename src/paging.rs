//! The page table: one entry per mapped virtual page.
use crate::addr::PAGE_SIZE_4K;
use crate::flags::MappingFlags;
use std::collections::HashMap;
use vstd::prelude::*;

verus! {

broadcast use vstd::std_specs::hash::group_hash_axioms;

/// What a mapped page points at: the frame's physical address and the flags.
#[derive(Debug, Clone, Copy, PartialEq, Eq, Structural)]
pub struct PageTableEntry {
    pub paddr: usize,
    pub flags: MappingFlags,
}

impl PageTableEntry {
    /// A page-aligned frame that ends within the physical address space.
    pub open spec fn wf(self) -> bool {
        self.paddr % 4096 == 0 && self.paddr + 4096 <= usize::MAX
    }
}

/// The page number of `va`.
pub open spec fn vpn(va: int) -> usize {
    (va / 4096) as usize
}

/// The physical address that `va` translates to under `m`.
pub open spec fn translate(m: Map<usize, PageTableEntry>, va: int) -> int {
    m[vpn(va)].paddr + va % 4096
}

/// The page-table entries that a linear mapping of `[va, va + size)` to
/// `[pa, pa + size)` installs.
pub open spec fn linear_entries(va: int, pa: int, size: int, flags: MappingFlags) -> Map<
    usize,
    PageTableEntry,
> {
    Map::new(
        |n: usize| va <= n * 4096 < va + size,
        |n: usize| PageTableEntry { paddr: (pa + (n * 4096 - va)) as usize, flags },
    )
}

/// `m` with the flags of every page in `[start, end)` replaced by `flags`.
pub open spec fn reflagged(m: Map<usize, PageTableEntry>, start: int, end: int, flags: MappingFlags) -> Map<
    usize,
    PageTableEntry,
> {
    Map::new(
        |n: usize| m.contains_key(n),
        |n: usize|
            if start <= n * 4096 < end {
                PageTableEntry { paddr: m[n].paddr, flags }
            } else {
                m[n]
            },
    )
}

/// The page-table entries that populating `[va, va + size)` installs, when
/// the frame allocator's page area began at `top`: frames are taken from the
/// top down, one per page in order.
pub open spec fn populated_entries(va: int, size: int, top: int, flags: MappingFlags) -> Map<
    usize,
    PageTableEntry,
> {
    Map::new(
        |n: usize| va <= n * 4096 < va + size,
        |n: usize| PageTableEntry { paddr: (top - (n * 4096 - va) - 4096) as usize, flags },
    )
}

/// A page table, keyed by virtual page number.
#[derive(Debug)]
pub struct PageTable {
    /// The physical address of the frame reserved for the root table; it
    /// names this table as the translation root given to the vCPU.
    pub root: usize,
    pub entries: HashMap<usize, PageTableEntry>,
    /// Every page number that was ever mapped, so that the table can be walked.
    pub touched: Vec<usize>,
}

impl PageTable {
    pub open spec fn view(&self) -> Map<usize, PageTableEntry> {
        self.entries@
    }

    pub open spec fn wf(&self) -> bool {
        &&& forall|n: usize| #[trigger] self@.contains_key(n) ==> self@[n].wf()
        &&& forall|n: usize| #[trigger] self@.contains_key(n) ==> self.touched@.contains(n)
    }

    /// An empty table whose root lies at `root`.
    pub fn new(root: usize) -> (r: PageTable)
        ensures
            r.wf(),
            r@ == Map::<usize, PageTableEntry>::empty(),
            r.root == root,
    {
        let r = PageTable { root, entries: HashMap::new(), touched: Vec::new() };
        assert(r@ =~= Map::<usize, PageTableEntry>::empty());
        r
    }

    /// The physical address of the root table.
    pub fn root_paddr(&self) -> (r: usize)
        ensures
            r == self.root,
    {
        self.root
    }

    /// The physical address that `va` translates to, and the page's flags.
    pub fn query(&self, va: usize) -> (r: Option<(usize, MappingFlags)>)
        requires
            self.wf(),
        ensures
            r is Some <==> self@.contains_key(vpn(va as int)),
            r matches Some((pa, f)) ==> pa == translate(self@, va as int) && f == self@[vpn(
                va as int,
            )].flags,
    {
        match self.entries.get(&(va / PAGE_SIZE_4K)) {
            Some(e) => {
                assert(self@.contains_key(vpn(va as int)));
                Some((e.paddr + va % PAGE_SIZE_4K, e.flags))
            },
            None => None,
        }
    }

    /// The entry of the page that holds `va`.
    pub fn entry(&self, va: usize) -> (r: Option<PageTableEntry>)
        ensures
            r == (if self@.contains_key(vpn(va as int)) {
                Some(self@[vpn(va as int)])
            } else {
                None
            }),
    {
        match self.entries.get(&(va / PAGE_SIZE_4K)) {
            Some(e) => Some(*e),
            None => None,
        }
    }

    /// Maps the page that holds `va` to the frame at `paddr`.
    pub fn map_page(&mut self, va: usize, paddr: usize, flags: MappingFlags)
        requires
            old(self).wf(),
            paddr % 4096 == 0,
            paddr + 4096 <= usize::MAX,
        ensures
            final(self).wf(),
            final(self).root == old(self).root,
            final(self)@ == old(self)@.insert(
                vpn(va as int),
                PageTableEntry { paddr, flags },
            ),
    {
        self.entries.insert(va / PAGE_SIZE_4K, PageTableEntry { paddr, flags });
        self.touched.push(va / PAGE_SIZE_4K);
        assert(self@ == old(self)@.insert(vpn(va as int), PageTableEntry { paddr, flags }));
        assert forall|n: usize| #[trigger] self@.contains_key(n) implies self@[n].wf()
            && self.touched@.contains(n) by {
            if n != vpn(va as int) {
                assert(old(self)@.contains_key(n));
                assert(old(self).touched@.contains(n));
                let k = choose|k: int| 0 <= k < old(self).touched@.len() && old(self).touched@[k] == n;
                assert(self.touched@[k] == n);
            } else {
                assert(self.touched@[self.touched@.len() - 1] == n);
            }
        }
    }

    /// Unmaps the page that holds `va`.
    pub fn unmap_page(&mut self, va: usize)
        requires
            old(self).wf(),
        ensures
            final(self).wf(),
            final(self).root == old(self).root,
            final(self)@ == old(self)@.remove(vpn(va as int)),
            final(self).touched == old(self).touched,
    {
        self.entries.remove(&(va / PAGE_SIZE_4K));
        assert forall|n: usize| #[trigger] self@.contains_key(n) implies self@[n].wf()
            && self.touched@.contains(n) by {
            assert(old(self)@.contains_key(n));
        }
    }
}

impl PageTable {
    /// Makes the pages that share an address with `[start, start + size)`,
    /// but none with `[keep, keep + keep_size)`, map as in `other`: the
    /// entries of `self` there are dropped, and those of `other` copied.
    pub fn copy_from(
        &mut self,
        other: &PageTable,
        start: usize,
        size: usize,
        keep: usize,
        keep_size: usize,
    )
        requires
            old(self).wf(),
            other.wf(),
            start + size <= usize::MAX,
            keep + keep_size <= usize::MAX,
        ensures
            final(self).wf(),
            final(self).root == old(self).root,
            ({
                let pages = meeting(start as int, size as int).difference(
                    meeting(keep as int, keep_size as int),
                );
                final(self)@ == old(self)@.remove_keys(pages).union_prefer_right(
                    other@.restrict(pages),
                )
            }),
    {
        let ghost pages = meeting(start as int, size as int).difference(
            meeting(keep as int, keep_size as int),
        );
        let mut i: usize = 0;
        while i < self.touched.len()
            invariant
                self.wf(),
                self.root == old(self).root,
                self.touched == old(self).touched,
                i <= self.touched@.len(),
                start + size <= usize::MAX,
                keep + keep_size <= usize::MAX,
                pages == meeting(start as int, size as int).difference(
                    meeting(keep as int, keep_size as int),
                ),
                self@ == old(self)@.remove_keys(
                    Set::new(
                        |n: usize|
                            pages.contains(n) && exists|k: int|
                                0 <= k < i && old(self).touched@[k] == n,
                    ),
                ),
            decreases self.touched@.len() - i,
        {
            let n = self.touched[i];
            let ghost before = self@;
            let inside = page_meets(n, start, size) && !page_meets(n, keep, keep_size);
            if inside {
                self.unmap_page(n * PAGE_SIZE_4K);
                assert(vpn((n * 4096) as int) == n);
            }
            let ghost s0 = Set::new(
                |m: usize| pages.contains(m) && exists|k: int| 0 <= k < i && old(self).touched@[k] == m,
            );
            let ghost s1 = Set::new(
                |m: usize|
                    pages.contains(m) && exists|k: int| 0 <= k < i + 1 && old(self).touched@[k] == m,
            );
            assert(s1 =~= (if pages.contains(n) { s0.insert(n) } else { s0 })) by {
                assert(old(self).touched@[i as int] == n);
            }
            assert(self@ =~= old(self)@.remove_keys(s1));
            i = i + 1;
        }
        assert(self@ =~= old(self)@.remove_keys(pages)) by {
            assert forall|m: usize| old(self)@.contains_key(m) implies old(self).touched@.contains(m) by {}
        }
        let ghost removed = self@;
        let mut i: usize = 0;
        while i < other.touched.len()
            invariant
                self.wf(),
                other.wf(),
                self.root == old(self).root,
                i <= other.touched@.len(),
                start + size <= usize::MAX,
                keep + keep_size <= usize::MAX,
                pages == meeting(start as int, size as int).difference(
                    meeting(keep as int, keep_size as int),
                ),
                self@ == removed.union_prefer_right(
                    other@.restrict(
                        Set::new(
                            |n: usize|
                                pages.contains(n) && exists|k: int|
                                    0 <= k < i && other.touched@[k] == n,
                        ),
                    ),
                ),
            decreases other.touched@.len() - i,
        {
            let n = other.touched[i];
            let ghost before = self@;
            if page_meets(n, start, size) && !page_meets(n, keep, keep_size) {
                match other.entries.get(&n) {
                    Some(e) => {
                        assert(other@.contains_key(n));
                        assert(other@[n].wf());
                        self.map_page(n * PAGE_SIZE_4K, e.paddr, e.flags);
                        assert(vpn((n * 4096) as int) == n);
                        assert(self@ == before.insert(n, other@[n]));
                    },
                    None => {},
                }
            }
            let ghost s0 = Set::new(
                |m: usize| pages.contains(m) && exists|k: int| 0 <= k < i && other.touched@[k] == m,
            );
            let ghost s1 = Set::new(
                |m: usize| pages.contains(m) && exists|k: int| 0 <= k < i + 1 && other.touched@[k] == m,
            );
            assert(s1 =~= (if pages.contains(n) { s0.insert(n) } else { s0 })) by {
                assert(other.touched@[i as int] == n);
            }
            assert(self@ == (if pages.contains(n) && other@.contains_key(n) {
                before.insert(n, other@[n])
            } else {
                before
            }));
            assert(self@ =~= removed.union_prefer_right(other@.restrict(s1)));
            i = i + 1;
        }
        assert(self@ =~= removed.union_prefer_right(other@.restrict(pages))) by {
            assert forall|m: usize| other@.contains_key(m) implies other.touched@.contains(m) by {}
        }
    }
}

/// The pages that share an address with `[start, start + size)`.
pub open spec fn meeting(start: int, size: int) -> Set<usize> {
    Set::new(|n: usize| n * 4096 < start + size && start < n * 4096 + 4096)
}

/// Whether page `n` shares an address with `[start, start + size)`.
fn page_meets(n: usize, start: usize, size: usize) -> (r: bool)
    requires
        start + size <= usize::MAX,
    ensures
        r == meeting(start as int, size as int).contains(n),
{
    if n > usize::MAX / PAGE_SIZE_4K {
        assert(n * 4096 > usize::MAX) by (nonlinear_arith)
            requires
                n > usize::MAX / 4096,
        ;
        return false;
    }
    let p = n * PAGE_SIZE_4K;
    p < start + size && (p >= start || start - p < PAGE_SIZE_4K)
}

impl PageTable {
    /// Maps `[va, va + size)` page by page onto `[pa, pa + size)`.
    pub fn map_linear_range(&mut self, va: usize, pa: usize, size: usize, flags: MappingFlags)
        requires
            old(self).wf(),
            va % 4096 == 0,
            pa % 4096 == 0,
            size % 4096 == 0,
            va + size <= usize::MAX,
            pa + size <= usize::MAX,
        ensures
            final(self).wf(),
            final(self).root == old(self).root,
            final(self)@ == old(self)@.union_prefer_right(
                linear_entries(va as int, pa as int, size as int, flags),
            ),
    {
        let mut off: usize = 0;
        while off < size
            invariant
                self.wf(),
                self.root == old(self).root,
                off <= size,
                off % 4096 == 0,
                size % 4096 == 0,
                va % 4096 == 0,
                pa % 4096 == 0,
                pa + size <= usize::MAX,
                va + size <= usize::MAX,
                self@ == old(self)@.union_prefer_right(
                    linear_entries(va as int, pa as int, off as int, flags),
                ),
            decreases size - off,
        {
            self.map_page(va + off, pa + off, flags);
            proof {
                let n = vpn((va + off) as int);
                assert(n * 4096 == va + off);
                assert(self@ =~= old(self)@.union_prefer_right(
                    linear_entries(va as int, pa as int, (off + 4096) as int, flags),
                ));
            }
            off = off + PAGE_SIZE_4K;
        }
    }

    /// Replaces the flags of the present pages of `[start, start + size)`.
    pub fn reflag_range(&mut self, start: usize, size: usize, flags: MappingFlags)
        requires
            old(self).wf(),
            start % 4096 == 0,
            size % 4096 == 0,
            start + size <= usize::MAX,
        ensures
            final(self).wf(),
            final(self).root == old(self).root,
            final(self)@ == reflagged(old(self)@, start as int, start + size, flags),
    {
        let mut off: usize = 0;
        while off < size
            invariant
                self.wf(),
                self.root == old(self).root,
                off <= size,
                off % 4096 == 0,
                size % 4096 == 0,
                start % 4096 == 0,
                start + size <= usize::MAX,
                self@ == reflagged(old(self)@, start as int, start + off, flags),
            decreases size - off,
        {
            let va = start + off;
            let ghost before = self@;
            let ghost n = vpn(va as int);
            assert(n * 4096 == va);
            match self.entry(va) {
                Some(e) => {
                    assert(self@[n].wf());
                    self.map_page(va, e.paddr, flags);
                    assert(self@ == before.insert(
                        n,
                        PageTableEntry { paddr: old(self)@[n].paddr, flags },
                    ));
                },
                None => {},
            }
            assert(self@ =~= reflagged(old(self)@, start as int, start + off + 4096, flags));
            off = off + PAGE_SIZE_4K;
        }
    }
}

} // verus!
