use vmcore::aspace::AddrSpace;
use vmcore::error::AxError;
use vmcore::flags::{MappingFlags, EXECUTE, READ, USER, WRITE};
use vmcore::mem::PhysMemory;

const MEM_BASE: usize = 0x9000_0000;
const MEM_SIZE: usize = 0x10_0000;

fn setup() -> (AddrSpace, PhysMemory) {
    let mut mem = PhysMemory::new(MEM_BASE, MEM_SIZE);
    let aspace = AddrSpace::new_empty(0, 0x1_0000_0000, &mut mem).unwrap();
    (aspace, mem)
}

fn flags(bits: usize) -> MappingFlags {
    MappingFlags::from_bits(bits).unwrap()
}

#[test]
fn new_empty_takes_root_frame() {
    let (aspace, mem) = setup();
    assert_eq!(aspace.base(), 0);
    assert_eq!(aspace.end(), 0x1_0000_0000);
    assert_eq!(aspace.size(), 0x1_0000_0000);
    assert_eq!(aspace.page_table_root(), MEM_BASE + MEM_SIZE - 0x1000);
    assert_eq!(mem.free_frames(), MEM_SIZE / 0x1000 - 1);
}

#[test]
fn new_empty_rejects_wrapping_range_and_empty_memory() {
    let mut mem = PhysMemory::new(MEM_BASE, MEM_SIZE);
    assert_eq!(AddrSpace::new_empty(usize::MAX, 2, &mut mem).unwrap_err(), AxError::InvalidInput);
    let mut none = PhysMemory::new(MEM_BASE, 0);
    assert_eq!(AddrSpace::new_empty(0, 0x1000, &mut none).unwrap_err(), AxError::NoMemory);
}

#[test]
fn lazy_region_faults_pages_independently() {
    let (mut aspace, mut mem) = setup();
    let rw = flags(READ | WRITE);
    aspace.map_alloc(0x1000, 0x3000, rw, false, &mut mem).unwrap();
    assert!(aspace.page_table().query(0x2000).is_none());
    assert!(aspace.handle_page_fault(0x2abc, flags(READ), &mut mem));
    assert!(aspace.page_table().query(0x1000).is_none());
    assert!(aspace.page_table().query(0x3000).is_none());
    let mut buf = [0xffu8; 0x1000];
    aspace.read(&mem, 0x2000, &mut buf).unwrap();
    assert!(buf.iter().all(|&b| b == 0));
    let mut one = [0u8; 1];
    assert_eq!(aspace.read(&mem, 0x1000, &mut one).unwrap_err(), AxError::BadAddress);
    assert!(aspace.handle_page_fault(0x1000, flags(WRITE), &mut mem));
    assert!(aspace.handle_page_fault(0x3fff, flags(READ), &mut mem));
    let p1 = aspace.page_table().query(0x1000).unwrap().0;
    let p2 = aspace.page_table().query(0x2000).unwrap().0;
    let p3 = aspace.page_table().query(0x3000).unwrap().0;
    assert!(p1 != p2 && p2 != p3 && p1 != p3);
}

#[test]
fn second_fault_allocates_nothing() {
    let (mut aspace, mut mem) = setup();
    aspace.map_alloc(0x10000, 0x1000, flags(READ | WRITE), false, &mut mem).unwrap();
    let before = mem.free_frames();
    assert!(aspace.handle_page_fault(0x10008, flags(READ), &mut mem));
    assert_eq!(mem.free_frames(), before - 1);
    let frame = aspace.page_table().query(0x10000).unwrap().0;
    assert!(aspace.handle_page_fault(0x10ff0, flags(WRITE), &mut mem));
    assert_eq!(mem.free_frames(), before - 1);
    assert_eq!(aspace.page_table().query(0x10000).unwrap().0, frame);
}

#[test]
fn fault_without_permission_or_area_is_real() {
    let (mut aspace, mut mem) = setup();
    aspace.map_alloc(0x4000, 0x1000, flags(READ), false, &mut mem).unwrap();
    assert!(!aspace.handle_page_fault(0x4000, flags(WRITE), &mut mem));
    assert!(!aspace.handle_page_fault(0x4000, flags(READ | EXECUTE), &mut mem));
    assert!(!aspace.handle_page_fault(0x8000, flags(READ), &mut mem));
    assert!(!aspace.handle_page_fault(0x2_0000_0000, flags(READ), &mut mem));
    assert!(aspace.page_table().query(0x4000).is_none());
    assert!(aspace.handle_page_fault(0x4000, MappingFlags::empty(), &mut mem));
}

#[test]
fn fault_fails_when_no_frame_is_free() {
    let mut mem = PhysMemory::new(MEM_BASE, 0x1000);
    let mut aspace = AddrSpace::new_empty(0, 0x10_0000, &mut mem).unwrap();
    aspace.map_alloc(0x1000, 0x1000, flags(READ), false, &mut mem).unwrap();
    assert!(!aspace.handle_page_fault(0x1000, flags(READ), &mut mem));
}

#[test]
fn linear_region_round_trip_and_never_faults() {
    let (mut aspace, mut mem) = setup();
    let rwx = flags(READ | WRITE | EXECUTE);
    aspace.map_linear(0x8000_0000, 0x8000_0000, 0x1000, rwx).unwrap();
    let data = b"passthrough bytes";
    aspace.write(&mut mem, 0x8000_0010, data).unwrap();
    let mut back = [0u8; 17];
    aspace.read(&mem, 0x8000_0010, &mut back).unwrap();
    assert_eq!(&back, data);
    assert_eq!(mem.read_byte(0x8000_0010), b'p');
    assert!(!aspace.handle_page_fault(0x8000_0000, flags(READ), &mut mem));
    assert!(!aspace.handle_page_fault(0x8000_0fff, flags(WRITE), &mut mem));
}

#[test]
fn linear_offset_mapping_translates() {
    let (mut aspace, mem) = setup();
    aspace.map_linear(0x4000_0000, 0x2000_0000, 0x3000, flags(READ)).unwrap();
    assert_eq!(aspace.page_table().query(0x4000_2123).unwrap().0, 0x2000_2123);
    let _ = mem;
}

#[test]
fn write_then_read_unaligned_multi_page_span() {
    let (mut aspace, mut mem) = setup();
    aspace.map_alloc(0x10_0000, 0x4000, flags(READ | WRITE), true, &mut mem).unwrap();
    let data: Vec<u8> = (0..0x2345usize).map(|i| (i * 7 % 251) as u8).collect();
    aspace.write(&mut mem, 0x10_0ff0, &data).unwrap();
    let mut back = vec![0u8; data.len()];
    aspace.read(&mem, 0x10_0ff0, &mut back).unwrap();
    assert_eq!(back, data);
}

#[test]
fn populate_maps_every_page_from_top() {
    let (mut aspace, mut mem) = setup();
    let free = mem.free_frames();
    aspace.map_alloc(0x20_0000, 0x2000, flags(READ), true, &mut mem).unwrap();
    assert_eq!(mem.free_frames(), free - 2);
    let top = MEM_BASE + MEM_SIZE - 0x1000;
    assert_eq!(aspace.page_table().query(0x20_0000).unwrap().0, top - 0x1000);
    assert_eq!(aspace.page_table().query(0x20_1000).unwrap().0, top - 0x2000);
}

#[test]
fn populate_without_enough_frames_changes_nothing() {
    let mut mem = PhysMemory::new(MEM_BASE, 0x3000);
    let mut aspace = AddrSpace::new_empty(0, 0x10_0000, &mut mem).unwrap();
    assert_eq!(
        aspace.map_alloc(0x1000, 0x3000, flags(READ), true, &mut mem).unwrap_err(),
        AxError::NoMemory
    );
    assert_eq!(mem.free_frames(), 2);
    assert!(aspace.page_table().query(0x1000).is_none());
    aspace.map_alloc(0x1000, 0x3000, flags(READ), false, &mut mem).unwrap();
}

#[test]
fn overlapping_maps_are_refused() {
    let (mut aspace, mut mem) = setup();
    aspace.map_alloc(0x1000, 0x2000, flags(READ), false, &mut mem).unwrap();
    assert_eq!(
        aspace.map_alloc(0x2000, 0x2000, flags(READ), false, &mut mem).unwrap_err(),
        AxError::AlreadyExists
    );
    assert_eq!(
        aspace.map_linear(0x0, 0x0, 0x2000, flags(READ)).unwrap_err(),
        AxError::AlreadyExists
    );
    aspace.map_linear(0x3000, 0x3000, 0x1000, flags(READ)).unwrap();
    aspace.map_alloc(0x0, 0x1000, flags(READ), false, &mut mem).unwrap();
    assert_eq!(aspace.areas.len(), 3);
    for i in 0..aspace.areas.len() {
        for j in i + 1..aspace.areas.len() {
            assert!(aspace.areas[i].end <= aspace.areas[j].start);
        }
    }
}

#[test]
fn bad_ranges_are_invalid_input() {
    let mut mem = PhysMemory::new(MEM_BASE, MEM_SIZE);
    let mut aspace = AddrSpace::new_empty(0x1000, 0x10000, &mut mem).unwrap();
    let r = flags(READ);
    assert_eq!(aspace.map_alloc(0x0, 0x1000, r, false, &mut mem).unwrap_err(), AxError::InvalidInput);
    assert_eq!(aspace.map_alloc(0x10000, 0x2000, r, false, &mut mem).unwrap_err(), AxError::InvalidInput);
    assert_eq!(aspace.map_alloc(0x1800, 0x1000, r, false, &mut mem).unwrap_err(), AxError::InvalidInput);
    assert_eq!(aspace.map_alloc(0x1000, 0x800, r, false, &mut mem).unwrap_err(), AxError::InvalidInput);
    assert_eq!(aspace.map_alloc(0x1000, 0, r, false, &mut mem).unwrap_err(), AxError::InvalidInput);
    assert_eq!(aspace.map_linear(0x1000, 0x1234, 0x1000, r).unwrap_err(), AxError::InvalidInput);
    assert_eq!(aspace.unmap(0x0, 0x1000, &mut mem).unwrap_err(), AxError::InvalidInput);
    assert_eq!(aspace.protect(0x2000, 0x10000, r).unwrap_err(), AxError::InvalidInput);
    assert_eq!(aspace.areas.len(), 0);
    let mut buf = [0u8; 4];
    assert_eq!(aspace.read(&mem, 0x10ffe, &mut buf).unwrap_err(), AxError::InvalidInput);
    assert_eq!(aspace.write(&mut mem, 0x10ffe, &buf).unwrap_err(), AxError::InvalidInput);
    assert!(aspace.contains_range(0x1000, 0x10000));
    assert!(!aspace.contains_range(0x1000, 0x10001));
}

#[test]
fn unmap_splits_areas_and_drops_pages() {
    let (mut aspace, mut mem) = setup();
    let rw = flags(READ | WRITE);
    aspace.map_alloc(0x1000, 0x3000, rw, true, &mut mem).unwrap();
    aspace.unmap(0x2000, 0x1000, &mut mem).unwrap();
    assert_eq!(aspace.areas.len(), 2);
    assert!(aspace.page_table().query(0x2000).is_none());
    assert!(aspace.page_table().query(0x1000).is_some());
    assert!(aspace.page_table().query(0x3000).is_some());
    assert!(!aspace.handle_page_fault(0x2000, flags(READ), &mut mem));
    let mut buf = [0u8; 2];
    assert_eq!(aspace.read(&mem, 0x1fff, &mut buf).unwrap_err(), AxError::BadAddress);
    aspace.map_linear(0x2000, 0x5000_0000, 0x1000, rw).unwrap();
    aspace.read(&mem, 0x1fff, &mut buf).unwrap();
}

#[test]
fn protect_changes_flags_and_keeps_frames() {
    let (mut aspace, mut mem) = setup();
    aspace.map_alloc(0x1000, 0x2000, flags(READ | WRITE), false, &mut mem).unwrap();
    assert!(aspace.handle_page_fault(0x1000, flags(WRITE), &mut mem));
    let frame = aspace.page_table().query(0x1000).unwrap().0;
    aspace.protect(0x1000, 0x1000, flags(READ)).unwrap();
    let (pa, f) = aspace.page_table().query(0x1000).unwrap();
    assert_eq!(pa, frame);
    assert_eq!(f.bits(), READ);
    assert!(!aspace.handle_page_fault(0x1000, flags(WRITE), &mut mem));
    assert!(aspace.handle_page_fault(0x2000, flags(WRITE), &mut mem));
    assert_eq!(aspace.areas.len(), 2);
}

#[test]
fn translated_buffer_is_split_per_page() {
    let (mut aspace, mut mem) = setup();
    aspace.map_alloc(0x8000, 0x3000, flags(READ | WRITE), true, &mut mem).unwrap();
    let segs = aspace.translated_byte_buffer(0x8800, 0x2000).unwrap();
    assert_eq!(segs.len(), 3);
    assert_eq!(segs[0].0, aspace.page_table().query(0x8800).unwrap().0);
    assert_eq!(segs[0].1, 0x800);
    assert_eq!(segs[1].1, 0x1000);
    assert_eq!(segs[2].1, 0x800);
    assert_eq!(segs[2].0, aspace.page_table().query(0xa000).unwrap().0);
    assert!(aspace.translated_byte_buffer(0x8000, 0x3001).is_none());
    assert!(aspace.translated_byte_buffer(0x1_0000, 0x10).is_none());
    assert!(aspace.translated_byte_buffer(0x2_0000_0000, 0x10).is_none());
    assert_eq!(aspace.translated_byte_buffer(0x8000, 0).unwrap().len(), 0);
}

#[test]
fn translated_buffer_needs_mapped_pages() {
    let (mut aspace, mut mem) = setup();
    aspace.map_alloc(0x8000, 0x2000, flags(READ), false, &mut mem).unwrap();
    assert!(aspace.translated_byte_buffer(0x8000, 0x10).is_none());
}

#[test]
fn copy_mappings_from_shares_entries_only() {
    let mut mem = PhysMemory::new(MEM_BASE, MEM_SIZE);
    let mut kernel = AddrSpace::new_empty(0x8000_0000, 0x1000_0000, &mut mem).unwrap();
    kernel.map_linear(0x8000_0000, 0x8000_0000, 0x2000, flags(READ | WRITE)).unwrap();
    let mut user = AddrSpace::new_empty(0, 0x1000_0000, &mut mem).unwrap();
    user.copy_mappings_from(&kernel).unwrap();
    assert_eq!(user.page_table().query(0x8000_1004).unwrap().0, 0x8000_1004);
    assert_eq!(user.areas.len(), 0);
    let mut overlapping = AddrSpace::new_empty(0x8800_0000, 0x1000, &mut mem).unwrap();
    assert_eq!(overlapping.copy_mappings_from(&kernel).unwrap_err(), AxError::InvalidInput);
}

#[test]
fn user_flag_is_kept() {
    let (mut aspace, mut mem) = setup();
    aspace.map_alloc(0x1000, 0x1000, flags(READ | WRITE | USER), true, &mut mem).unwrap();
    assert_eq!(aspace.page_table().query(0x1000).unwrap().1.bits(), READ | WRITE | USER);
}

#[test]
fn find_free_area_is_first_fit() {
    let (mut aspace, mut mem) = setup();
    aspace.map_alloc(0x1000, 0x1000, flags(READ), false, &mut mem).unwrap();
    aspace.map_alloc(0x3000, 0x2000, flags(READ), false, &mut mem).unwrap();
    let limit = vmcore::addr::VirtAddrRange { start: 0, end: 0x10000 };
    assert_eq!(aspace.find_free_area(0, 0x1000, limit), Some(0));
    assert_eq!(aspace.find_free_area(0x800, 0x1000, limit), Some(0x2000));
    assert_eq!(aspace.find_free_area(0x2000, 0x2000, limit), Some(0x5000));
    assert_eq!(aspace.find_free_area(0x5800, 0x1000, limit), Some(0x5800));
    assert_eq!(aspace.find_free_area(0, 0x20000, limit), None);
    assert_eq!(aspace.find_free_area(0xf800, 0x1000, limit), None);
}

#[test]
fn copy_mappings_from_replaces_the_range() {
    let mut mem = PhysMemory::new(MEM_BASE, MEM_SIZE);
    let mut first = AddrSpace::new_empty(0x8000_0000, 0x1000_0000, &mut mem).unwrap();
    first.map_linear(0x8000_0000, 0x8000_0000, 0x2000, flags(READ)).unwrap();
    let mut second = AddrSpace::new_empty(0x8000_0000, 0x1000_0000, &mut mem).unwrap();
    second.map_linear(0x8000_1000, 0x4000_1000, 0x1000, flags(READ)).unwrap();
    let mut user = AddrSpace::new_empty(0, 0x1000_0000, &mut mem).unwrap();
    user.map_alloc(0x1000, 0x1000, flags(READ), true, &mut mem).unwrap();
    user.copy_mappings_from(&first).unwrap();
    assert!(user.page_table().query(0x8000_0000).is_some());
    user.copy_mappings_from(&second).unwrap();
    assert!(user.page_table().query(0x8000_0000).is_none());
    assert_eq!(user.page_table().query(0x8000_1008).unwrap().0, 0x4000_1008);
    assert!(user.page_table().query(0x1000).is_some());
}

#[test]
fn unmap_gives_frames_back_for_reuse() {
    let mut mem = PhysMemory::new(MEM_BASE, 0x3000);
    let mut aspace = AddrSpace::new_empty(0, 0x10_0000, &mut mem).unwrap();
    aspace.map_alloc(0x1000, 0x2000, flags(READ | WRITE), true, &mut mem).unwrap();
    assert_eq!(mem.free_frames(), 0);
    let frame = aspace.page_table().query(0x2000).unwrap().0;
    aspace.write(&mut mem, 0x2000, b"old data").unwrap();
    aspace.unmap(0x2000, 0x1000, &mut mem).unwrap();
    assert!(mem.is_released(frame));
    assert!(!mem.is_released(aspace.page_table().query(0x1000).unwrap().0));
    aspace.map_alloc(0x8000, 0x1000, flags(READ | WRITE), false, &mut mem).unwrap();
    assert!(aspace.handle_page_fault(0x8000, flags(READ), &mut mem));
    assert_eq!(aspace.page_table().query(0x8000).unwrap().0, frame);
    assert!(!mem.is_released(frame));
    let mut buf = [0xffu8; 8];
    aspace.read(&mem, 0x8000, &mut buf).unwrap();
    assert_eq!(buf, [0u8; 8]);
    aspace.map_alloc(0x9000, 0x1000, flags(READ), false, &mut mem).unwrap();
    assert!(!aspace.handle_page_fault(0x9000, flags(READ), &mut mem));
}

#[test]
fn unmapping_linear_pages_releases_nothing() {
    let (mut aspace, mut mem) = setup();
    aspace.map_linear(0x9000_0000, MEM_BASE + MEM_SIZE - 0x1000, 0x1000, flags(READ)).unwrap();
    aspace.unmap(0x9000_0000, 0x1000, &mut mem).unwrap();
    assert!(!mem.is_released(MEM_BASE + MEM_SIZE - 0x1000));
}
