use vmcore::addr::VirtAddrRange;
use vmcore::aspace::AddrSpace;
use vmcore::bump::EarlyAllocator;
use vmcore::error::AxError;
use vmcore::flags::{MappingFlags, READ, WRITE};
use vmcore::mem::PhysMemory;
use vmcore::rand::random;
use vmcore::sbi::{BaseFunction, SbiMessage, EID_BASE};
use vmcore::vmdev::{handle_nested_page_fault, VmDev, VmDevGroup};

#[test]
fn random_from_seed_one() {
    let mut seed = 1u32;
    let r = random(&mut seed, 99);
    assert_eq!(r, 3824426001208407681003961756701053);
    assert_eq!(seed, 1914720637);
}

#[test]
fn random_seeds_from_ticks() {
    let mut seed = 0u32;
    let r = random(&mut seed, 0x1234_5678_9abc_def0);
    assert_eq!(r, 46822429508648414278674162514327638905);
    assert_eq!(seed, 414847865);
}

#[test]
fn bump_allocator_both_ends() {
    let mut a = EarlyAllocator::new();
    a.init(0x1000, 0x10000);
    assert_eq!(a.total_bytes(), 0x10000);
    assert_eq!(a.alloc_bytes(10, 8), Ok(0x1000));
    assert_eq!(a.alloc_bytes(4, 16), Ok(0x1010));
    assert_eq!(a.used_bytes(), 0x14);
    assert_eq!(a.alloc_bytes(4, 3), Err(AxError::InvalidInput));
    assert_eq!(a.alloc_pages(2, 0x1000), Ok(0xf000));
    assert_eq!(a.used_pages(), 2);
    assert_eq!(a.alloc_pages(1, 0x4000), Ok(0xc000));
    assert_eq!(a.alloc_pages(1, 0x800), Err(AxError::InvalidInput));
    assert_eq!(a.alloc_pages(100, 0x1000), Err(AxError::NoMemory));
    assert_eq!(a.available_bytes(), 0xc000 - 0x1014);
    a.dealloc_bytes(0x1000, 10);
    assert_eq!(a.used_bytes(), 0x14);
    a.dealloc_bytes(0x1010, 4);
    assert_eq!(a.used_bytes(), 0);
    a.dealloc_pages(0xf000, 2);
    assert_eq!(a.used_pages(), 5);
    assert_eq!(a.total_pages(), 16);
    assert_eq!(a.available_pages(), 11);
    assert_eq!(a.alloc_bytes(0xc000, 1), Err(AxError::NoMemory));
    assert_eq!(a.alloc_bytes(0xb000, 1), Ok(0x1000));
}

#[test]
fn ranges() {
    let r = VirtAddrRange::from_start_size(0x1000, 0x2000).unwrap();
    assert_eq!(r.size(), 0x2000);
    assert!(r.contains(0x2fff));
    assert!(!r.contains(0x3000));
    assert!(r.contains_range(0x1000, 0x2000));
    assert!(!r.contains_range(0x1000, usize::MAX));
    assert!(r.overlaps(VirtAddrRange { start: 0x2fff, end: 0x4000 }));
    assert!(!r.overlaps(VirtAddrRange { start: 0x3000, end: 0x4000 }));
    assert!(VirtAddrRange::from_start_size(usize::MAX, 1).is_none());
}

#[test]
fn flags_bits() {
    assert!(MappingFlags::from_bits(0x40).is_none());
    let rw = MappingFlags::from_bits(READ | WRITE).unwrap();
    assert!(rw.contains(MappingFlags::from_bits(READ).unwrap()));
    assert!(!MappingFlags::from_bits(READ).unwrap().contains(rw));
    assert_eq!(MappingFlags::from_bits(READ).unwrap().union(MappingFlags::from_bits(WRITE).unwrap()), rw);
}

#[test]
fn sbi_decode() {
    let a = [7, 0, 0, 0, 0, 0, 3, EID_BASE];
    assert_eq!(SbiMessage::from_regs(&a), Ok(SbiMessage::Base(BaseFunction::ProbeSbiExtension(7))));
    assert_eq!(BaseFunction::from_regs(6, 0), Ok(BaseFunction::GetMachineImplementationID));
    assert_eq!(BaseFunction::from_regs(9, 0), Err(AxError::MalformedGuestRequest));
}

#[test]
fn devices_are_found_by_address() {
    let mut g = VmDevGroup::new();
    g.add_dev(0x2200_0000, 0x200_0000);
    g.add_dev(0x1000_0000, 0x1000);
    assert_eq!(g.find_dev(0x2300_0000), Some(VmDev { start: 0x2200_0000, size: 0x200_0000 }));
    assert_eq!(g.find_dev(0x1000_0fff), Some(VmDev::new(0x1000_0000, 0x1000)));
    assert_eq!(g.find_dev(0x2400_0000), None);
    assert!(VmDev::new(0x10, 0x10).check_addr(0x1f));
    assert!(!VmDev::new(0x10, 0x10).check_addr(0x20));
}

#[test]
fn nested_fault_on_device_passes_page_through() {
    let mut mem = PhysMemory::new(0x9000_0000, 0x10_0000);
    let mut aspace = AddrSpace::new_empty(0, 0x7fff_ffff_f000, &mut mem).unwrap();
    let mut g = VmDevGroup::new();
    g.add_dev(0x2200_0000, 0x200_0000);
    let free = mem.free_frames();
    handle_nested_page_fault(&mut aspace, &g, 0x2200_1234, &mut mem).unwrap();
    assert_eq!(aspace.page_table().query(0x2200_1234).unwrap().0, 0x2200_1234);
    assert_eq!(mem.free_frames(), free);
    assert_eq!(
        handle_nested_page_fault(&mut aspace, &g, 0x2200_1000, &mut mem).unwrap_err(),
        AxError::AlreadyExists
    );
}

#[test]
fn nested_fault_on_memory_allocates_a_frame() {
    let mut mem = PhysMemory::new(0x9000_0000, 0x10_0000);
    let mut aspace = AddrSpace::new_empty(0, 0x7fff_ffff_f000, &mut mem).unwrap();
    let g = VmDevGroup::new();
    let free = mem.free_frames();
    handle_nested_page_fault(&mut aspace, &g, 0x8000_0042, &mut mem).unwrap();
    assert_eq!(mem.free_frames(), free - 1);
    aspace.write(&mut mem, 0x8000_0000, b"pfld").unwrap();
    let mut b = [0u8; 4];
    aspace.read(&mem, 0x8000_0000, &mut b).unwrap();
    assert_eq!(&b, b"pfld");
    assert_eq!(aspace.page_table().query(0x8000_0000).unwrap().1.bits(), 0xf);
}
