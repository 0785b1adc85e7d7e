use kcore::heap::{init, tier_index, Allocator, MANAGED_END, MANAGED_START};
use kcore::slab::SlabAllocator;

#[test]
fn tier_selection_picks_smallest_fitting_tier() {
    assert_eq!(tier_index(1, 1), Some(0));
    assert_eq!(tier_index(32, 8), Some(0));
    assert_eq!(tier_index(33, 8), Some(1));
    assert_eq!(tier_index(8, 128), Some(2));
    assert_eq!(tier_index(1024, 1), Some(5));
    assert_eq!(tier_index(2048, 2048), Some(6));
    assert_eq!(tier_index(2049, 1), None);
    assert_eq!(tier_index(16, 4096), None);
}

#[test]
fn heap_allocations_are_aligned_and_in_range() {
    let mut heap = Allocator::new();
    init(&mut heap);
    let (fallback_start, region) = heap.fallback_region();
    assert_eq!(region % 2048, 0);
    assert_eq!(fallback_start, MANAGED_START + 7 * region);
    assert!(fallback_start + region <= MANAGED_END);
    let mut seen = Vec::new();
    for (size, align) in [(8u64, 8u64), (24, 8), (100, 64), (600, 512), (2000, 2048), (40, 32)] {
        let p = heap.alloc_layout(size, align);
        assert_ne!(p, 0);
        assert_eq!(p % align, 0);
        assert!(p >= MANAGED_START && p + size <= MANAGED_END);
        for &(q, qs) in &seen {
            assert!(p + size <= q || q + qs <= p);
        }
        seen.push((p, size));
    }
}

#[test]
fn large_requests_go_to_the_fallback() {
    let mut heap = Allocator::new();
    init(&mut heap);
    assert_eq!(heap.alloc_layout(4096, 8), 0);
}

#[test]
fn slab_round_trip_returns_same_cell() {
    let mut heap = Allocator::new();
    init(&mut heap);
    let p = heap.alloc_layout(48, 16);
    let q = heap.alloc_layout(48, 16);
    assert_eq!(q, p + 64);
    heap.dealloc_layout(p, 48, 16);
    assert_eq!(heap.alloc_layout(48, 16), p);
    assert_eq!(heap.alloc_layout(48, 16), q + 64);
}

#[test]
fn uninitialised_heap_serves_nothing() {
    let mut heap = Allocator::new();
    assert_eq!(heap.alloc_layout(8, 8), 0);
}

#[test]
fn stats_count_cells_in_use() {
    let mut heap = Allocator::new();
    heap.init(0x10_0000, 8 * 0x1_0000);
    heap.alloc_layout(10, 1);
    heap.alloc_layout(10, 1);
    heap.alloc_layout(200, 8);
    let stats = heap.stats();
    assert_eq!(stats.len(), 7);
    assert_eq!(stats[0], (64, 0x1_0000));
    assert_eq!(stats[3], (256, 0x1_0000));
    assert_eq!(stats[1], (0, 0x1_0000));
}

#[test]
fn exhausted_slab_returns_null() {
    let mut slab = SlabAllocator::new(1024);
    slab.init(0x1000, 2048);
    assert_eq!(slab.alloc_cell(), 0x1000);
    assert_eq!(slab.alloc_cell(), 0x1400);
    assert_eq!(slab.alloc_cell(), 0);
    slab.dealloc_cell(0x1000);
    assert_eq!(slab.used(), 1024);
    assert_eq!(slab.size(), 2048);
    assert_eq!(slab.alloc_cell(), 0x1000);
}

#[test]
fn allocation_lies_in_its_tiers_sub_range() {
    let mut heap = Allocator::new();
    init(&mut heap);
    let (fallback, region) = heap.fallback_region();
    let p = heap.alloc_layout(200, 8);
    assert!(p >= MANAGED_START + 3 * region && p + 200 <= MANAGED_START + 4 * region);
    assert!(p < fallback);
}
