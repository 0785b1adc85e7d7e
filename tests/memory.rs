use kcore::paging::decode_page_fault;
use kcore::frames::{BootInfoFrameAllocator, MemoryRegion};
use kcore::heap::{MANAGED_END, MANAGED_START};
use kcore::paging::{
    map_address, translate_phys_addr, translate_virt_addr, AddressSpace, MapError, Mapping, DEVICE_REGION_START,
    PRESENT, USER_ACCESSIBLE, WRITABLE,
};

fn regions() -> Vec<MemoryRegion> {
    vec![
        MemoryRegion { base: 0x1000, len: 0x2000, usable: true },
        MemoryRegion { base: 0x8000, len: 0x1000, usable: false },
        MemoryRegion { base: 0x10000, len: 0x1000, usable: true },
    ]
}

#[test]
fn frames_come_from_usable_regions_in_order() {
    let mut f = BootInfoFrameAllocator::init(&regions());
    assert_eq!(f.allocate_frame(), Some(0x1000));
    assert_eq!(f.allocate_frame(), Some(0x2000));
    assert_eq!(f.allocate_frame(), Some(0x10000));
    assert_eq!(f.allocate_frame(), None);
}

#[test]
fn freed_frame_is_reused_first() {
    let mut f = BootInfoFrameAllocator::init(&regions());
    let a = f.allocate_frame().unwrap();
    let b = f.allocate_frame().unwrap();
    f.deallocate_frame(a);
    assert_eq!(f.allocate_frame(), Some(a));
    f.deallocate_frame(b);
    f.deallocate_frame(a);
    assert_eq!(f.allocate_frame(), Some(a));
    assert_eq!(f.allocate_frame(), Some(b));
    assert_eq!(f.allocate_frame(), Some(0x10000));
}

#[test]
fn unaligned_region_start_rounds_down_without_repeats() {
    let map = vec![
        MemoryRegion { base: 0x1800, len: 0x1000, usable: true },
        MemoryRegion { base: 0x1000, len: 0x1000, usable: true },
    ];
    let mut f = BootInfoFrameAllocator::init(&map);
    assert_eq!(f.allocate_frame(), Some(0x1000));
    assert_eq!(f.allocate_frame(), None);
}

#[test]
fn empty_memory_map_gives_no_frame() {
    let mut f = BootInfoFrameAllocator::init(&Vec::new());
    assert_eq!(f.allocate_frame(), None);
}

#[test]
fn map_translate_unmap() {
    let mut s = AddressSpace::new(0xffff_8000_0000_0000);
    assert_eq!(s.map(0x5000, 0x9000, PRESENT), Ok(()));
    assert_eq!(s.translate(0x5123), Some(0x9123));
    assert_eq!(s.map(0x5fff, 0xa000, PRESENT), Err(MapError::PageAlreadyMapped));
    assert_eq!(s.translate(0x6000), None);
    assert!(s.set_flags(0x5000, PRESENT | WRITABLE));
    assert!(!s.set_flags(0x7000, PRESENT));
    assert_eq!(s.unmap(0x5800), Some(0x9000));
    assert_eq!(s.unmap(0x5800), None);
    assert_eq!(translate_virt_addr(&s, 0x5123), None);
    assert_eq!(translate_phys_addr(&s, 0x1234), 0xffff_8000_0000_1234);
}

#[test]
fn search_finds_first_run_and_skips_null_page() {
    let mut s = AddressSpace::new(0);
    s.map(0x2000, 0x1000, PRESENT).unwrap();
    assert!(!s.available(0));
    assert!(s.available(0x1000));
    assert_eq!(s.search_free_addr_from(1, 0, 0x10000), Some(0x1000));
    assert_eq!(s.search_free_addr_from(2, 0, 0x10000), Some(0x3000));
    assert_eq!(s.search_free_addr_from(3, 0, 0x4000), None);
}

#[test]
fn map_pages_keeps_page_offset() {
    let mut s = AddressSpace::new(0);
    let va = s.map_pages_from(0x1234_5678, 0x2000, 0x10_0000, 0x20_0000).unwrap();
    assert_eq!(va, 0x10_0678);
    assert_eq!(s.translate(va), Some(0x1234_5678));
    assert_eq!(s.translate(0x10_2000), Some(0x1234_7000));
    assert_eq!(s.translate(0x10_3000), None);
    let second = s.map_pages_from(0x4000, 0x10, 0x10_0000, 0x20_0000).unwrap();
    assert_eq!(second, 0x10_3000);
}

#[test]
fn map_pages_out_of_address_space() {
    let mut s = AddressSpace::new(0);
    assert_eq!(s.map_pages_from(0x1000, 0x3000, 0x10_0000, 0x10_2000), Err(MapError::OutOfVirtualAddress));
}

#[test]
fn device_memory_goes_to_device_window() {
    let mut s = AddressSpace::new(0);
    let va = map_address(&mut s, 0xfee0_0010, 4).unwrap();
    assert_eq!(va, DEVICE_REGION_START + 0x10);
    assert_eq!(translate_virt_addr(&s, va), Some(0xfee0_0010));
    let _ = Mapping { frame: 0, flags: PRESENT | WRITABLE | USER_ACCESSIBLE };
}

#[test]
fn lazy_map_backs_heap_page_once() {
    let mut s = AddressSpace::new(0);
    let mut f = BootInfoFrameAllocator::init(&regions());
    let addr = MANAGED_START + 7 * 4096 + 12;
    assert_eq!(s.lazy_map(&mut f, addr), Ok(true));
    assert_eq!(s.translate(MANAGED_START + 7 * 4096), Some(0x1000));
    assert_eq!(s.lazy_map(&mut f, addr), Ok(false));
}

#[test]
fn lazy_map_refuses_outside_heap() {
    let mut s = AddressSpace::new(0);
    let mut f = BootInfoFrameAllocator::init(&regions());
    assert_eq!(s.lazy_map(&mut f, MANAGED_START - 0x1000), Ok(false));
    assert_eq!(s.lazy_map(&mut f, MANAGED_END), Ok(false));
    assert_eq!(s.lazy_map(&mut f, 0), Ok(false));
    assert_eq!(f.allocate_frame(), Some(0x1000));
}

#[test]
fn lazy_map_out_of_frames() {
    let mut s = AddressSpace::new(0);
    let mut f = BootInfoFrameAllocator::init(&Vec::new());
    assert_eq!(s.lazy_map(&mut f, MANAGED_START), Err(MapError::OutOfFrames));
    assert_eq!(s.translate(MANAGED_START), None);
}

#[test]
fn page_fault_error_code_bits() {
    let r = decode_page_fault(0b10011);
    assert!(r.protection_violation && r.caused_by_write && !r.user_mode && !r.malformed_table && r.instruction_fetch);
    let z = decode_page_fault(0b01100);
    assert!(!z.protection_violation && !z.caused_by_write && z.user_mode && z.malformed_table && !z.instruction_fetch);
}

#[test]
fn fault_outside_heap_is_not_backed() {
    let mut s = AddressSpace::new(0);
    let mut f = BootInfoFrameAllocator::init(&regions());
    assert_eq!(s.lazy_map(&mut f, 0x0000_1234_5678_9000), Ok(false));
    assert_eq!(s.translate(0x0000_1234_5678_9000), None);
}

#[test]
fn fresh_frames_follow_the_memory_map_after_reuse() {
    let mut f = BootInfoFrameAllocator::init(&regions());
    let a = f.allocate_frame().unwrap();
    f.deallocate_frame(a);
    assert_eq!(f.allocate_frame(), Some(0x1000));
    assert_eq!(f.allocate_frame(), Some(0x2000));
    assert_eq!(f.allocate_frame(), Some(0x10000));
    assert_eq!(f.allocate_frame(), None);
}

#[test]
fn device_mapping_translates_every_byte() {
    let mut s = AddressSpace::new(0);
    let va = map_address(&mut s, 0x1234_5ff0, 0x20).unwrap();
    assert_eq!(va % 4096, 0xff0);
    for k in 0..0x20u64 {
        assert_eq!(translate_virt_addr(&s, va + k), Some(0x1234_5ff0 + k));
    }
}
