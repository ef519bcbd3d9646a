//! Physical memory: the bytes of every frame, and the allocator that hands
//! frames out.
use crate::addr::PAGE_SIZE_4K;
use crate::bump::EarlyAllocator;
use crate::error::{AxError, AxResult};
use std::collections::HashMap;
use vstd::prelude::*;

verus! {

broadcast use vstd::std_specs::hash::group_hash_axioms;

/// `m` with the frame at `pa` filled with zeros.
pub open spec fn zero_frame(m: Map<int, u8>, pa: int) -> Map<int, u8> {
    Map::new(|p: int| true, |p: int| if pa <= p < pa + 4096 { 0u8 } else { m[p] })
}

/// Physical memory. A byte that was never written reads as zero.
#[derive(Debug)]
pub struct PhysMemory {
    pub bytes: HashMap<usize, u8>,
    /// The allocator of fresh frames.
    pub frames: EarlyAllocator,
    /// Frames that were given back, taken again once no fresh frame is left.
    pub released: Vec<usize>,
}

impl PhysMemory {
    /// The content of every physical address.
    pub open spec fn view(&self) -> Map<int, u8> {
        Map::new(
            |p: int| true,
            |p: int|
                if 0 <= p <= usize::MAX && self.bytes@.contains_key(p as usize) {
                    self.bytes@[p as usize]
                } else {
                    0u8
                },
        )
    }

    pub open spec fn wf(&self) -> bool {
        &&& self.frames.wf()
        &&& self.frames.p_pos % 4096 == 0
        &&& forall|i: int|
            0 <= i < self.released@.len() ==> self.returnable(#[trigger] self.released@[i])
        &&& self.released@.no_duplicates()
    }

    /// Whether `pa` is a frame of the page area: page-aligned, at or above
    /// the allocator's top and inside its range.
    pub open spec fn returnable(&self, pa: usize) -> bool {
        pa % 4096 == 0 && self.frames.p_pos <= pa && pa + 4096 <= self.frames.end
    }

    /// Whether a frame can be allocated, fresh or given back.
    pub open spec fn can_alloc(&self) -> bool {
        self.free_frame_count() >= 1 || self.released@.len() >= 1
    }

    /// The frame that the next allocation hands out: a fresh one while any
    /// is left, else the last one given back.
    pub open spec fn next_frame(&self) -> usize {
        if self.free_frame_count() >= 1 {
            (self.frames.p_pos - 4096) as usize
        } else {
            self.released@.last()
        }
    }

    /// Whether `m1` is `self` after the next frame was allocated and zeroed.
    pub open spec fn allocated(&self, m1: PhysMemory) -> bool {
        &&& m1@ == zero_frame(self@, self.next_frame() as int)
        &&& if self.free_frame_count() >= 1 {
            &&& m1.frames == (EarlyAllocator { p_pos: self.next_frame(), ..self.frames })
            &&& m1.released@ == self.released@
        } else {
            &&& m1.frames == self.frames
            &&& m1.released@ == self.released@.drop_last()
        }
    }

    /// How many frames can still be allocated.
    pub open spec fn free_frame_count(&self) -> int {
        (self.frames.p_pos - self.frames.b_pos) / 4096
    }

    /// Zeroed memory whose frames are allocated from `[start, start + size)`.
    pub fn new(start: usize, size: usize) -> (r: PhysMemory)
        requires
            start % 4096 == 0,
            size % 4096 == 0,
            start + size <= usize::MAX,
        ensures
            r.wf(),
            r@ == Map::new(|p: int| true, |p: int| 0u8),
            r.frames.start == start && r.frames.end == start + size,
            r.frames.b_pos == start && r.frames.p_pos == start + size,
            r.released@.len() == 0,
    {
        let mut frames = EarlyAllocator::new();
        frames.init(start, size);
        let r = PhysMemory { bytes: HashMap::new(), frames, released: Vec::new() };
        assert(r@ =~= Map::new(|p: int| true, |p: int| 0u8));
        r
    }

    /// The byte at `pa`.
    pub fn read_byte(&self, pa: usize) -> (r: u8)
        ensures
            r == self@[pa as int],
    {
        match self.bytes.get(&pa) {
            Some(v) => *v,
            None => 0,
        }
    }

    /// Writes `v` to `pa`.
    pub fn write_byte(&mut self, pa: usize, v: u8)
        ensures
            final(self)@ == old(self)@.insert(pa as int, v),
            final(self).frames == old(self).frames,
    {
        self.bytes.insert(pa, v);
        assert(self@ =~= old(self)@.insert(pa as int, v));
    }

    /// Writes `data` from `pa` on.
    pub fn write_bytes(&mut self, pa: usize, data: &[u8])
        requires
            pa + data@.len() <= usize::MAX + 1,
        ensures
            final(self).frames == old(self).frames,
            forall|p: int|
                #![trigger final(self)@[p]]
                final(self)@[p] == (if pa <= p < pa + data@.len() {
                    data@[p - pa]
                } else {
                    old(self)@[p]
                }),
    {
        let mut i: usize = 0;
        while i < data.len()
            invariant
                i <= data@.len(),
                pa + data@.len() <= usize::MAX + 1,
                self.frames == old(self).frames,
                forall|p: int|
                    #![trigger self@[p]]
                    self@[p] == (if pa <= p < pa + i { data@[p - pa] } else { old(self)@[p] }),
            decreases data@.len() - i,
        {
            self.write_byte(pa + i, data[i]);
            i = i + 1;
        }
    }

    /// The number of frames that can still be allocated.
    pub fn free_frames(&self) -> (r: usize)
        requires
            self.wf(),
        ensures
            r == self.free_frame_count(),
    {
        self.frames.available_pages()
    }

    /// Fills the frame at `pa` with zeros.
    fn zero_page(&mut self, pa: usize)
        requires
            pa + 4096 <= usize::MAX,
        ensures
            final(self).frames == old(self).frames,
            final(self).released == old(self).released,
            final(self)@ == zero_frame(old(self)@, pa as int),
    {
        let ghost m0 = self@;
        let mut i: usize = 0;
        while i < PAGE_SIZE_4K
            invariant
                i <= 4096,
                pa + 4096 <= usize::MAX,
                self.frames == old(self).frames,
                self.released == old(self).released,
                forall|p: int|
                    #![trigger self@[p]]
                    self@[p] == (if pa <= p < pa + i { 0u8 } else { m0[p] }),
            decreases 4096 - i,
        {
            let ghost before = self@;
            self.bytes.remove(&(pa + i));
            assert forall|p: int| #[trigger]
                self@[p] == (if p == pa + i {
                    0u8
                } else {
                    before[p]
                }) by {}
            i = i + 1;
        }
        assert(self@ =~= zero_frame(m0, pa as int));
    }

    /// Allocates a fresh frame, one never handed out before, and fills it
    /// with zeros.
    pub fn alloc_fresh_frame(&mut self) -> (r: AxResult<usize>)
        requires
            old(self).wf(),
        ensures
            final(self).wf(),
            r is Ok <==> old(self).free_frame_count() >= 1,
            r is Err ==> r == Err::<usize, AxError>(AxError::NoMemory) && *final(self) == *old(self),
            r matches Ok(pa) ==> {
                &&& pa == old(self).frames.p_pos - 4096
                &&& final(self).frames == (EarlyAllocator { p_pos: pa, ..old(self).frames })
                &&& final(self).released == old(self).released
                &&& final(self)@ == zero_frame(old(self)@, pa as int)
            },
    {
        proof {
            assert(4096usize & 4095usize == 0usize) by (bit_vector);
            if self.frames.p_pos >= 4096 {
                assert((self.frames.p_pos - 4096) % 4096 == 0);
            }
        }
        let pa = match self.frames.alloc_pages(1, PAGE_SIZE_4K) {
            Ok(pa) => pa,
            Err(_) => {
                return Err(AxError::NoMemory);
            },
        };
        self.zero_page(pa);
        proof {
            assert forall|i: int|
                0 <= i < self.released@.len() implies self.returnable(
                #[trigger] self.released@[i],
            ) by {
                assert(old(self).returnable(old(self).released@[i]));
            }
        }
        Ok(pa)
    }

    /// Allocates a frame, fresh while any is left and else one given back,
    /// and fills it with zeros.
    pub fn alloc_frame(&mut self) -> (r: AxResult<usize>)
        requires
            old(self).wf(),
        ensures
            final(self).wf(),
            r is Ok <==> old(self).can_alloc(),
            r is Err ==> r == Err::<usize, AxError>(AxError::NoMemory) && *final(self) == *old(self),
            r matches Ok(pa) ==> pa == old(self).next_frame() && old(self).allocated(*final(self)),
    {
        if self.free_frames() >= 1 {
            return self.alloc_fresh_frame();
        }
        if self.released.len() == 0 {
            return Err(AxError::NoMemory);
        }
        match self.released.pop() {
            Some(pa) => {
                proof {
                    assert(old(self).returnable(old(self).released@[old(self).released@.len() - 1]));
                }
                self.zero_page(pa);
                proof {
                    assert(self.released@ =~= old(self).released@.drop_last());
                    assert forall|i: int|
                        0 <= i < self.released@.len() implies self.returnable(
                        #[trigger] self.released@[i],
                    ) by {
                        assert(old(self).returnable(old(self).released@[i]));
                    }
                }
                Ok(pa)
            },
            None => Err(AxError::NoMemory),
        }
    }

    /// Whether `pa` was given back and not taken again.
    pub fn is_released(&self, pa: usize) -> (r: bool)
        ensures
            r == self.released@.contains(pa),
    {
        let mut i: usize = 0;
        while i < self.released.len()
            invariant
                i <= self.released@.len(),
                forall|j: int| 0 <= j < i ==> self.released@[j] != pa,
            decreases self.released@.len() - i,
        {
            if self.released[i] == pa {
                return true;
            }
            i = i + 1;
        }
        false
    }

    /// Gives the frame at `pa` back, so that a later allocation can take it
    /// again. A frame that is not of the page area, or was already given
    /// back, is ignored.
    pub fn dealloc_frame(&mut self, pa: usize)
        requires
            old(self).wf(),
        ensures
            final(self).wf(),
            final(self).frames == old(self).frames,
            final(self)@ == old(self)@,
            final(self).released@ == (if old(self).returnable(pa) && !old(self).released@.contains(
                pa,
            ) {
                old(self).released@.push(pa)
            } else {
                old(self).released@
            }),
    {
        if pa % PAGE_SIZE_4K == 0 && self.frames.p_pos <= pa && pa <= self.frames.end
            && self.frames.end - pa >= PAGE_SIZE_4K && !self.is_released(pa) {
            self.released.push(pa);
            proof {
                assert forall|i: int|
                    0 <= i < self.released@.len() implies self.returnable(
                    #[trigger] self.released@[i],
                ) by {
                    if i < old(self).released@.len() {
                        assert(old(self).returnable(old(self).released@[i]));
                    }
                }
                assert forall|i: int, j: int|
                    0 <= i < j < self.released@.len() implies self.released@[i]
                    != self.released@[j] by {
                    if j == self.released@.len() - 1 {
                        assert(old(self).released@.contains(old(self).released@[i]));
                    }
                }
            }
        }
    }
}

} // verus!
