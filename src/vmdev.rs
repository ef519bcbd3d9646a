//! Passthrough devices of a guest, and how the driving loop resolves a
//! nested page fault.
use crate::aspace::AddrSpace;
use crate::bump::EarlyAllocator;
use crate::paging::{linear_entries, populated_entries};
use crate::error::{AxError, AxResult};
use crate::flags::MappingFlags;
use crate::mem::PhysMemory;
use memory_addr::align_down_4k;
use vstd::prelude::*;

verus! {

/// The flags of guest memory and passthrough pages: read, write, execute, user.
pub const GUEST_FLAGS: usize = 0xf;

/// A device whose registers occupy `[start, start + size)` of guest-physical
/// memory and are passed through to the host's.
#[derive(Debug, Clone, Copy, PartialEq, Eq, Structural)]
pub struct VmDev {
    pub start: usize,
    pub size: usize,
}

impl VmDev {
    /// Whether `addr` lies in the device's region.
    pub open spec fn holds(self, addr: int) -> bool {
        self.start <= addr < self.start + self.size
    }

    /// A device at `[start, start + size)`.
    pub fn new(start: usize, size: usize) -> (r: VmDev)
        ensures
            r == (VmDev { start, size }),
    {
        VmDev { start, size }
    }

    /// Whether `addr` lies in the device's region.
    pub fn check_addr(&self, addr: usize) -> (r: bool)
        ensures
            r == self.holds(addr as int),
    {
        addr >= self.start && addr - self.start < self.size
    }

    /// Handles an access at `addr` by passing the page that holds it through:
    /// the page is mapped linearly onto the same host-physical page, with
    /// full access.
    pub fn handle_mmio(&self, addr: usize, aspace: &mut AddrSpace) -> (r: AxResult)
        requires
            old(aspace).wf(),
        ensures
            final(aspace).wf(),
            ({
                let page = addr - addr % 4096;
                &&& r == (if old(aspace).bad_request(page, 4096) {
                    Err(AxError::InvalidInput)
                } else if old(aspace).overlapped(page, page + 4096) {
                    Err(AxError::AlreadyExists)
                } else {
                    Ok(())
                })
                &&& r is Err ==> *final(aspace) == *old(aspace)
                &&& r is Ok ==> final(aspace).pt@ == old(aspace).pt@.union_prefer_right(
                    linear_entries(page, page, 4096, MappingFlags { bits: GUEST_FLAGS }),
                )
                &&& r is Ok ==> forall|va: int|
                    #[trigger] final(aspace).binding(va) == (if page <= va < page + 4096 {
                        Some((MappingFlags { bits: GUEST_FLAGS }, Some(va)))
                    } else {
                        old(aspace).binding(va)
                    })
            }),
    {
        let flags = MappingFlags::empty().union(MappingFlags { bits: GUEST_FLAGS });
        assert(0usize | 0xfusize == 0xfusize) by (bit_vector);
        let page = align_down_4k(addr);
        aspace.map_linear(page, page, 4096, flags)
    }
}

/// The passthrough devices of a guest.
#[derive(Debug)]
pub struct VmDevGroup {
    pub devices: Vec<VmDev>,
}

/// The first device of `s` that holds `addr`.
pub open spec fn first_holder(s: Seq<VmDev>, addr: int) -> Option<VmDev>
    decreases s.len(),
{
    if s.len() == 0 {
        None
    } else if s[0].holds(addr) {
        Some(s[0])
    } else {
        first_holder(s.drop_first(), addr)
    }
}

impl VmDevGroup {
    /// No device.
    pub fn new() -> (r: VmDevGroup)
        ensures
            r.devices@.len() == 0,
    {
        VmDevGroup { devices: Vec::new() }
    }

    /// Registers a device at `[addr, addr + size)`.
    pub fn add_dev(&mut self, addr: usize, size: usize)
        ensures
            final(self).devices@ == old(self).devices@.push(VmDev { start: addr, size }),
    {
        self.devices.push(VmDev::new(addr, size));
    }

    /// The first registered device whose region holds `addr`.
    pub fn find_dev(&self, addr: usize) -> (r: Option<VmDev>)
        ensures
            r == first_holder(self.devices@, addr as int),
    {
        let mut i: usize = 0;
        assert(self.devices@.skip(0) =~= self.devices@);
        while i < self.devices.len()
            invariant
                i <= self.devices@.len(),
                first_holder(self.devices@.skip(i as int), addr as int) == first_holder(
                    self.devices@,
                    addr as int,
                ),
            decreases self.devices@.len() - i,
        {
            assert(self.devices@.skip(i as int).drop_first() =~= self.devices@.skip(i + 1));
            if self.devices[i].check_addr(addr) {
                return Some(self.devices[i]);
            }
            i = i + 1;
        }
        assert(self.devices@.skip(i as int).len() == 0);
        None
    }
}

/// Resolves a nested page fault of the guest at guest-physical `addr`: a
/// device's page is passed through; any other page gets a fresh zeroed
/// frame, mapped with full access.
pub fn handle_nested_page_fault(
    aspace: &mut AddrSpace,
    devs: &VmDevGroup,
    addr: usize,
    mem: &mut PhysMemory,
) -> (r: AxResult)
    requires
        old(aspace).wf(),
        old(mem).wf(),
    ensures
        final(aspace).wf(),
        final(mem).wf(),
        ({
            let page = addr - addr % 4096;
            let f = MappingFlags { bits: GUEST_FLAGS };
            &&& r == (if old(aspace).bad_request(page, 4096) {
                Err(AxError::InvalidInput)
            } else if old(aspace).overlapped(page, page + 4096) {
                Err(AxError::AlreadyExists)
            } else if first_holder(devs.devices@, addr as int) is None
                && old(mem).free_frame_count() < 1 {
                Err(AxError::NoMemory)
            } else {
                Ok(())
            })
            &&& r is Err ==> *final(aspace) == *old(aspace) && *final(mem) == *old(mem)
            &&& (r is Ok && first_holder(devs.devices@, addr as int) is Some) ==> {
                &&& final(aspace).pt@ == old(aspace).pt@.union_prefer_right(
                    linear_entries(page, page, 4096, f),
                )
                &&& *final(mem) == *old(mem)
            }
            &&& (r is Ok && first_holder(devs.devices@, addr as int) is None) ==> {
                let top = old(mem).frames.p_pos;
                &&& final(aspace).pt@ == old(aspace).pt@.union_prefer_right(
                    populated_entries(page, 4096, top as int, f),
                )
                &&& final(mem).frames == (EarlyAllocator {
                    p_pos: (top - 4096) as usize,
                    ..old(mem).frames
                })
                &&& final(mem).released == old(mem).released
                &&& final(mem)@ == Map::new(
                    |p: int| true,
                    |p: int|
                        if top - 4096 <= p < top {
                            0u8
                        } else {
                            old(mem)@[p]
                        },
                )
            }
            &&& r is Ok ==> forall|va: int|
                #[trigger] final(aspace).binding(va) == (if page <= va < page + 4096 {
                    Some(
                        (
                            f,
                            if first_holder(devs.devices@, addr as int) is Some {
                                Some(va)
                            } else {
                                None
                            },
                        ),
                    )
                } else {
                    old(aspace).binding(va)
                })
        }),
{
    match devs.find_dev(addr) {
        Some(dev) => dev.handle_mmio(addr, aspace),
        None => {
            let flags = MappingFlags::empty().union(MappingFlags { bits: GUEST_FLAGS });
            assert(0usize | 0xfusize == 0xfusize) by (bit_vector);
            aspace.map_alloc(align_down_4k(addr), 4096, flags, true, mem)
        },
    }
}

} // verus!
