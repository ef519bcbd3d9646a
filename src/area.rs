//! Memory areas and the ordered, disjoint set of them that an address space
//! keeps.
use crate::flags::MappingFlags;
use vstd::prelude::*;

verus! {

/// How an area obtains its physical frames.
#[derive(Debug, Clone, Copy, PartialEq, Eq, Structural)]
pub enum Backend {
    /// A fixed offset: the area's first byte lies at `start_paddr`, and the
    /// frames are mapped when the area is. Nothing is allocated or freed.
    Linear { start_paddr: usize },
    /// Frames are allocated when the area is created (`populate`) or one at a
    /// time when a page is first faulted on.
    Alloc { populate: bool },
}

impl Backend {
    /// A linear backend whose area starts at physical address `start_paddr`.
    pub fn new_linear(start_paddr: usize) -> (r: Backend)
        ensures
            r == (Backend::Linear { start_paddr }),
    {
        Backend::Linear { start_paddr }
    }

    /// An allocating backend.
    pub fn new_alloc(populate: bool) -> (r: Backend)
        ensures
            r == (Backend::Alloc { populate }),
    {
        Backend::Alloc { populate }
    }
}

/// A region `[start, end)` of virtual addresses with its flags and backend.
#[derive(Debug, Clone, Copy, PartialEq, Eq, Structural)]
pub struct MemoryArea {
    pub start: usize,
    pub end: usize,
    pub flags: MappingFlags,
    pub backend: Backend,
}

/// What an address inside an area is bound to: the area's flags, and for a
/// linear area the physical address it maps to.
pub type Binding = (MappingFlags, Option<int>);

impl MemoryArea {
    /// Non-empty, page-aligned, and a linear area's frames end within the
    /// physical address space.
    pub open spec fn wf(self) -> bool {
        &&& self.start < self.end
        &&& self.start % 4096 == 0
        &&& self.end % 4096 == 0
        &&& match self.backend {
            Backend::Linear { start_paddr } => start_paddr % 4096 == 0 && start_paddr + (self.end
                - self.start) <= usize::MAX,
            Backend::Alloc { .. } => true,
        }
    }

    /// Whether `va` lies in the area.
    pub open spec fn has(self, va: int) -> bool {
        self.start <= va < self.end
    }

    /// What `va` is bound to by this area.
    pub open spec fn binding(self, va: int) -> Binding {
        match self.backend {
            Backend::Linear { start_paddr } => (self.flags, Some(start_paddr + (va - self.start))),
            Backend::Alloc { .. } => (self.flags, None),
        }
    }

    /// A new area.
    pub fn new(start: usize, size: usize, flags: MappingFlags, backend: Backend) -> (r:
        MemoryArea)
        requires
            start + size <= usize::MAX,
        ensures
            r == (MemoryArea { start, end: (start + size) as usize, flags, backend }),
    {
        MemoryArea { start, end: start + size, flags, backend }
    }

    /// The number of bytes in the area.
    pub fn size(&self) -> (r: usize)
        requires
            self.wf(),
        ensures
            r == self.end - self.start,
    {
        self.end - self.start
    }

    /// The part `[lo, hi)` of the area, with flags `flags`; every address in
    /// it keeps its physical binding.
    pub fn piece(&self, lo: usize, hi: usize, flags: MappingFlags) -> (r: MemoryArea)
        requires
            self.wf(),
            self.start <= lo < hi <= self.end,
            lo % 4096 == 0,
            hi % 4096 == 0,
        ensures
            r.wf(),
            r.start == lo && r.end == hi,
            r.flags == flags,
            r.backend is Alloc <==> self.backend is Alloc,
            forall|va: int| lo <= va < hi ==> #[trigger] r.binding(va) == (flags, self.binding(va).1),
    {
        let backend = match self.backend {
            Backend::Linear { start_paddr } => Backend::Linear {
                start_paddr: start_paddr + (lo - self.start),
            },
            Backend::Alloc { populate } => Backend::Alloc { populate },
        };
        MemoryArea { start: lo, end: hi, flags, backend }
    }
}

/// Every area is well formed, and the areas are sorted and pairwise disjoint.
pub open spec fn areas_wf(s: Seq<MemoryArea>) -> bool {
    &&& forall|i: int| 0 <= i < s.len() ==> #[trigger] s[i].wf()
    &&& forall|i: int, j: int| 0 <= i < j < s.len() ==> #[trigger] s[i].end <= #[trigger] s[j].start
}

/// Whether some area holds `va`.
pub open spec fn covered(s: Seq<MemoryArea>, va: int) -> bool {
    exists|i: int| 0 <= i < s.len() && #[trigger] s[i].has(va)
}

/// What `va` is bound to by the areas `s`, if any area holds it.
pub open spec fn area_at(s: Seq<MemoryArea>, va: int) -> Option<Binding> {
    if covered(s, va) {
        let i = choose|i: int| 0 <= i < s.len() && #[trigger] s[i].has(va);
        Some(s[i].binding(va))
    } else {
        None
    }
}

/// The area that holds `va` decides what it is bound to.
pub proof fn lemma_area_at(s: Seq<MemoryArea>, i: int, va: int)
    requires
        areas_wf(s),
        0 <= i < s.len(),
        s[i].has(va),
    ensures
        area_at(s, va) == Some(s[i].binding(va)),
{
    let j = choose|j: int| 0 <= j < s.len() && #[trigger] s[j].has(va);
    if j < i {
        assert(s[j].end <= s[i].start);
    } else if i < j {
        assert(s[i].end <= s[j].start);
    }
}

/// Adding an area binds its own addresses and leaves every other address as
/// it was.
pub proof fn lemma_area_at_insert(s: Seq<MemoryArea>, k: int, a: MemoryArea, va: int)
    requires
        0 <= k <= s.len(),
        areas_wf(s.insert(k, a)),
    ensures
        area_at(s.insert(k, a), va) == (if a.has(va) {
            Some(a.binding(va))
        } else {
            area_at(s, va)
        }),
{
    let t = s.insert(k, a);
    assert(t[k] == a);
    if a.has(va) {
        lemma_area_at(t, k, va);
    } else if covered(s, va) {
        let i = choose|i: int| 0 <= i < s.len() && #[trigger] s[i].has(va);
        let ti = if i < k { i } else { i + 1 };
        assert(t[ti] == s[i]);
        assert(areas_wf(s)) by {
            assert forall|p: int, q: int| 0 <= p < q < s.len() implies #[trigger] s[p].end
                <= #[trigger] s[q].start by {
                let tp = if p < k { p } else { p + 1 };
                let tq = if q < k { q } else { q + 1 };
                assert(t[tp] == s[p] && t[tq] == s[q]);
            }
            assert forall|p: int| 0 <= p < s.len() implies #[trigger] s[p].wf() by {
                let tp = if p < k { p } else { p + 1 };
                assert(t[tp] == s[p]);
            }
        }
        lemma_area_at(t, ti, va);
        lemma_area_at(s, i, va);
    } else {
        assert forall|j: int| 0 <= j < t.len() implies !#[trigger] t[j].has(va) by {
            if j < k {
                assert(t[j] == s[j]);
            } else if j > k {
                assert(t[j] == s[j - 1]);
            }
        }
    }
}

/// The index of the area that holds `va`.
pub fn find_area(areas: &Vec<MemoryArea>, va: usize) -> (r: Option<usize>)
    ensures
        r matches Some(i) ==> i < areas@.len() && areas@[i as int].has(va as int),
        r is None ==> !covered(areas@, va as int),
{
    let mut i: usize = 0;
    while i < areas.len()
        invariant
            i <= areas@.len(),
            forall|j: int| 0 <= j < i ==> !#[trigger] areas@[j].has(va as int),
        decreases areas@.len() - i,
    {
        if areas[i].start <= va && va < areas[i].end {
            return Some(i);
        }
        i = i + 1;
    }
    None
}

/// Whether some area meets `[start, end)`.
pub fn overlaps_any(areas: &Vec<MemoryArea>, start: usize, end: usize) -> (r: bool)
    ensures
        r == exists|i: int|
            0 <= i < areas@.len() && #[trigger] areas@[i].start < end && start < areas@[i].end,
{
    let mut i: usize = 0;
    while i < areas.len()
        invariant
            i <= areas@.len(),
            forall|j: int| 0 <= j < i ==> !(#[trigger] areas@[j].start < end && start < areas@[j].end),
        decreases areas@.len() - i,
    {
        if areas[i].start < end && start < areas[i].end {
            return true;
        }
        i = i + 1;
    }
    false
}

/// Inserts `a`, which meets no area, where it keeps the areas sorted.
pub fn insert_area(areas: &mut Vec<MemoryArea>, a: MemoryArea)
    requires
        areas_wf(old(areas)@),
        a.wf(),
        forall|i: int|
            0 <= i < old(areas)@.len() ==> !(#[trigger] old(areas)@[i].start < a.end && a.start
                < old(areas)@[i].end),
    ensures
        areas_wf(final(areas)@),
        exists|k: int| 0 <= k <= old(areas)@.len() && final(areas)@ == old(areas)@.insert(k, a),
        forall|va: int|
            #[trigger] area_at(final(areas)@, va) == (if a.has(va) {
                Some(a.binding(va))
            } else {
                area_at(old(areas)@, va)
            }),
{
    let mut k: usize = 0;
    while k < areas.len() && areas[k].end <= a.start
        invariant
            k <= areas@.len(),
            areas@ == old(areas)@,
            forall|j: int| 0 <= j < k ==> #[trigger] areas@[j].end <= a.start,
        decreases areas@.len() - k,
    {
        k = k + 1;
    }
    let ghost s = areas@;
    assert forall|j: int| k <= j < s.len() implies a.end <= #[trigger] s[j].start by {
        assert(s[k as int].end > a.start);
        assert(s[j].wf());
        if j > k {
            assert(s[k as int].end <= s[j].start);
        }
        assert(!(old(areas)@[j].start < a.end && a.start < old(areas)@[j].end));
    }
    areas.insert(k, a);
    let ghost t = areas@;
    assert(t == s.insert(k as int, a));
    assert forall|i: int, j: int| 0 <= i < j < t.len() implies #[trigger] t[i].end
        <= #[trigger] t[j].start by {
        if j < k {
        } else if j == k {
            assert(t[i] == s[i]);
        } else if i == k {
            assert(t[j] == s[j - 1]);
        } else if i < k {
            assert(t[i] == s[i] && t[j] == s[j - 1]);
        } else {
            assert(t[i] == s[i - 1] && t[j] == s[j - 1]);
        }
    }
    assert forall|i: int| 0 <= i < t.len() implies #[trigger] t[i].wf() by {
        if i < k {
            assert(t[i] == s[i]);
        } else if i > k {
            assert(t[i] == s[i - 1]);
        }
    }
    assert forall|va: int|
        #[trigger] area_at(t, va) == (if a.has(va) {
            Some(a.binding(va))
        } else {
            area_at(s, va)
        }) by {
        lemma_area_at_insert(s, k as int, a, va);
    }
}

/// What `va` is bound to once `[start, end)` is carved out of the areas:
/// unbound when `flags` is `None`, rebound with the new flags otherwise.
pub open spec fn carved(
    old: Option<Binding>,
    va: int,
    start: int,
    end: int,
    flags: Option<MappingFlags>,
) -> Option<Binding> {
    if start <= va < end {
        match (old, flags) {
            (Some(b), Some(f)) => Some((f, b.1)),
            _ => None,
        }
    } else {
        old
    }
}

/// Appends `p`, which lies after every area.
fn push_area(res: &mut Vec<MemoryArea>, p: MemoryArea)
    requires
        areas_wf(old(res)@),
        p.wf(),
        forall|j: int| 0 <= j < old(res)@.len() ==> #[trigger] old(res)@[j].end <= p.start,
    ensures
        areas_wf(final(res)@),
        final(res)@ == old(res)@.push(p),
        forall|va: int|
            #[trigger] area_at(final(res)@, va) == (if p.has(va) {
                Some(p.binding(va))
            } else {
                area_at(old(res)@, va)
            }),
{
    let ghost s = res@;
    res.push(p);
    assert(res@ == s.insert(s.len() as int, p));
    assert forall|va: int|
        #[trigger] area_at(res@, va) == (if p.has(va) {
            Some(p.binding(va))
        } else {
            area_at(s, va)
        }) by {
        lemma_area_at_insert(s, s.len() as int, p, va);
    }
}

/// Appends what is left of `x` once `[start, end)` is carved out of it.
fn carve_one(
    res: &mut Vec<MemoryArea>,
    x: MemoryArea,
    start: usize,
    end: usize,
    flags: Option<MappingFlags>,
)
    requires
        areas_wf(old(res)@),
        x.wf(),
        start <= end,
        start % 4096 == 0,
        end % 4096 == 0,
        forall|j: int| 0 <= j < old(res)@.len() ==> #[trigger] old(res)@[j].end <= x.start,
    ensures
        areas_wf(final(res)@),
        final(res)@.len() >= old(res)@.len(),
        final(res)@.subrange(0, old(res)@.len() as int) == old(res)@,
        forall|j: int| 0 <= j < final(res)@.len() ==> #[trigger] final(res)@[j].end <= x.end,
        forall|j: int|
            old(res)@.len() <= j < final(res)@.len() ==> x.start <= (#[trigger] final(res)@[j]).start
                && (final(res)@[j].backend is Alloc <==> x.backend is Alloc),
        forall|va: int|
            #[trigger] area_at(final(res)@, va) == (if x.has(va) {
                carved(Some(x.binding(va)), va, start as int, end as int, flags)
            } else {
                area_at(old(res)@, va)
            }),
{
    let ghost r0 = res@;
    assert forall|va: int| x.has(va) implies area_at(r0, va) is None by {
        if covered(r0, va) {
            let q = choose|q: int| 0 <= q < r0.len() && #[trigger] r0[q].has(va);
            assert(r0[q].end <= x.start);
        }
    }
    if x.end <= start || end <= x.start || start == end {
        push_area(res, x);
        assert(res@.subrange(0, r0.len() as int) =~= r0);
    } else {
        if x.start < start {
            let p = x.piece(x.start, start, x.flags);
            push_area(res, p);
        }
        let ghost r1 = res@;
        match flags {
            Some(f) => {
                let lo = if x.start < start { start } else { x.start };
                let hi = if end < x.end { end } else { x.end };
                let p = x.piece(lo, hi, f);
                push_area(res, p);
            },
            None => {},
        }
        let ghost r2 = res@;
        if end < x.end {
            let p = x.piece(end, x.end, x.flags);
            push_area(res, p);
        }
        assert(res@.subrange(0, r0.len() as int) =~= r0);
        assert forall|va: int|
            #[trigger] area_at(res@, va) == (if x.has(va) {
                carved(Some(x.binding(va)), va, start as int, end as int, flags)
            } else {
                area_at(r0, va)
            }) by {
            assert(area_at(r1, va) == (if x.start <= va < start {
                Some(x.binding(va))
            } else {
                area_at(r0, va)
            }));
        }
    }
}

/// The areas with `[start, end)` carved out: every area that meets the range
/// is split, and the part inside the range is dropped (`flags` is `None`) or
/// kept with the new flags.
pub fn carve_areas(
    areas: &Vec<MemoryArea>,
    start: usize,
    end: usize,
    flags: Option<MappingFlags>,
) -> (r: Vec<MemoryArea>)
    requires
        areas_wf(areas@),
        start <= end,
        start % 4096 == 0,
        end % 4096 == 0,
    ensures
        areas_wf(r@),
        forall|va: int|
            #[trigger] area_at(r@, va) == carved(
                area_at(areas@, va),
                va,
                start as int,
                end as int,
                flags,
            ),
        forall|i: int|
            0 <= i < r@.len() ==> areas@.len() > 0 && areas@[0].start <= (#[trigger] r@[i]).start
                && r@[i].end <= areas@[areas@.len() - 1].end,
{
    let ghost s = areas@;
    let mut res: Vec<MemoryArea> = Vec::new();
    let mut i: usize = 0;
    while i < areas.len()
        invariant
            s == areas@,
            areas_wf(s),
            areas_wf(res@),
            i <= s.len(),
            start <= end,
            start % 4096 == 0,
            end % 4096 == 0,
            i < s.len() ==> forall|j: int|
                0 <= j < res@.len() ==> #[trigger] res@[j].end <= s[i as int].start,
            forall|j: int|
                0 <= j < res@.len() ==> s.len() > 0 && s[0].start <= (#[trigger] res@[j]).start
                    && res@[j].end <= s[s.len() - 1].end,
            forall|va: int|
                #[trigger] area_at(res@, va) == (if exists|k: int| 0 <= k < i && #[trigger] s[k].has(va) {
                    carved(area_at(s, va), va, start as int, end as int, flags)
                } else {
                    None
                }),
        decreases s.len() - i,
    {
        let x = areas[i];
        let ghost r0 = res@;
        proof {
            assert(s[i as int].wf());
            if i > 0 {
                assert(s[0].end <= s[i as int].start);
                assert(s[0].wf());
            }
            if i < s.len() - 1 {
                assert(s[i as int].end <= s[s.len() - 1].start);
                assert(s[s.len() - 1].wf());
            }
        }
        carve_one(&mut res, x, start, end, flags);
        assert forall|j: int|
            0 <= j < res@.len() implies s[0].start <= (#[trigger] res@[j]).start
                && res@[j].end <= s[s.len() - 1].end by {
            if j < r0.len() {
                assert(res@[j] == res@.subrange(0, r0.len() as int)[j]);
            }
        }
        assert forall|va: int|
            #[trigger] area_at(res@, va) == (if exists|k: int| 0 <= k < i + 1 && #[trigger] s[k].has(va) {
                carved(area_at(s, va), va, start as int, end as int, flags)
            } else {
                None
            }) by {
            if x.has(va) {
                lemma_area_at(s, i as int, va);
                assert(s[i as int].has(va));
            } else {
                assert(area_at(res@, va) == area_at(r0, va));
                if exists|k: int| 0 <= k < i + 1 && #[trigger] s[k].has(va) {
                    let k = choose|k: int| 0 <= k < i + 1 && #[trigger] s[k].has(va);
                    assert(k < i);
                }
            }
        }
        proof {
            if i + 1 < s.len() {
                assert(x.end <= s[i + 1].start);
            }
        }
        i = i + 1;
    }
    assert forall|va: int|
        #[trigger] area_at(res@, va) == carved(area_at(s, va), va, start as int, end as int, flags) by {
        if !(exists|k: int| 0 <= k < s.len() && #[trigger] s[k].has(va)) {
            assert(!covered(s, va));
        }
    }
    res
}

} // verus!
