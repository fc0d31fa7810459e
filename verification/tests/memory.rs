use kernel::memory::BootInfoFrameAllocator;
use kernel::memory::MapError;
use kernel::memory::MemoryManager;
use kernel::memory::MemoryRegion;
use kernel::memory::MemoryRegionKind;
use kernel::memory::PageTableFlags;

fn usable(start: u64, end: u64) -> MemoryRegion {
    MemoryRegion { start, end, kind: MemoryRegionKind::Usable }
}

fn reserved(start: u64, end: u64) -> MemoryRegion {
    MemoryRegion { start, end, kind: MemoryRegionKind::Bootloader }
}

fn flags() -> PageTableFlags {
    PageTableFlags { present: true, writable: true, user_accessible: false, no_execute: false }
}

/// A map with exactly K usable frames yields K distinct frames in
/// ascending order, then reports exhaustion forever.
#[test]
fn allocates_each_usable_frame_once_in_ascending_order() {
    let regions = vec![
        reserved(0x0000, 0x1000),
        usable(0x1000, 0x4000),
        reserved(0x4000, 0x8000),
        usable(0x9000, 0xB000),
    ];
    let mut allocator = BootInfoFrameAllocator::init(regions);
    let mut frames: Vec<u64> = Vec::new();
    for _ in 0..5 {
        frames.push(allocator.allocate_frame().expect("usable frame expected"));
    }
    assert_eq!(frames, vec![0x1000, 0x2000, 0x3000, 0x9000, 0xA000]);
    for window in frames.windows(2) {
        assert!(window[0] + 4096 <= window[1]);
    }
    for _ in 0..3 {
        assert_eq!(allocator.allocate_frame(), None);
    }
}

#[test]
fn allocator_skips_non_usable_regions_entirely() {
    let regions = vec![reserved(0x1000, 0x100000)];
    let mut allocator = BootInfoFrameAllocator::init(regions);
    assert_eq!(allocator.allocate_frame(), None);
}

#[test]
fn allocator_aligns_frames_of_unaligned_regions_down() {
    let regions = vec![usable(0x1800, 0x3800)];
    let mut allocator = BootInfoFrameAllocator::init(regions);
    assert_eq!(allocator.allocate_frame(), Some(0x1000));
    assert_eq!(allocator.allocate_frame(), Some(0x2000));
    assert_eq!(allocator.allocate_frame(), None);
}

#[test]
fn empty_memory_map_is_exhausted_immediately() {
    let mut allocator = BootInfoFrameAllocator::init(Vec::new());
    assert_eq!(allocator.allocate_frame(), None);
}

/// Mapping a region and translating its start yields a physical address
/// inside a frame the allocator produced; a byte written through the
/// translation is read back through the same translation.
#[test]
fn mapped_region_translates_to_allocated_frame_and_round_trips() {
    let regions = vec![usable(0x1000, 0x9000)];
    let mut manager = MemoryManager::new(0, regions);
    let start: u64 = 0x4242_4242_0000;
    manager
        .allocate_frames_for_memory_region(start, 0x4000, flags())
        .expect("failed to allocate pages");

    let physical = manager.translate_address(start).expect("page must be mapped");
    assert_eq!(physical % 4096, 0);
    assert!((0x1000..0x9000).contains(&physical));

    // simulated physical memory: a store indexed by physical address
    let mut physical_memory = vec![0u8; 0x9000];
    let write_at = manager.translate_address(start + 0x123).expect("mapped") as usize;
    physical_memory[write_at] = 0xAB;
    let read_at = manager.translate_address(start + 0x123).expect("mapped") as usize;
    assert_eq!(physical_memory[read_at], 0xAB);

    // distinct pages of the request translate to distinct frames
    let second = manager.translate_address(start + 0x1000).expect("mapped");
    assert_ne!(physical, second);
}

#[test]
fn translation_of_unmapped_address_is_none() {
    let manager = MemoryManager::new(0, vec![usable(0x1000, 0x9000)]);
    assert_eq!(manager.translate_address(0x4242_4242_0000), None);
    assert_eq!(manager.translate_address(0), None);
}

#[test]
fn translation_preserves_the_page_offset() {
    let mut manager = MemoryManager::new(0, vec![usable(0x1000, 0x9000)]);
    let start: u64 = 0x7000_0000;
    manager.allocate_frames_for_memory_region(start, 0x1000, flags()).expect("mapped");
    let base = manager.translate_address(start).expect("mapped");
    let inside = manager.translate_address(start + 0xFFF).expect("mapped");
    assert_eq!(inside, base + 0xFFF);
}

/// Overlapping requests: the second fails with the re-mapping refusal and
/// the first mapping's translation stays exactly as it was.
#[test]
fn overlapping_map_requests_fail_and_keep_the_first_mapping() {
    let regions = vec![usable(0x1000, 0x20000)];
    let mut manager = MemoryManager::new(0, regions);
    let start: u64 = 0x5000_0000;
    manager.allocate_frames_for_memory_region(start, 0x3000, flags()).expect("mapped");
    let before: Vec<Option<u64>> =
        (0..3).map(|i| manager.translate_address(start + i * 0x1000)).collect();

    let err = manager
        .allocate_frames_for_memory_region(start, 0x2000, flags())
        .expect_err("overlapping request must fail");
    assert_eq!(err, MapError::PageAlreadyMapped);

    let after: Vec<Option<u64>> =
        (0..3).map(|i| manager.translate_address(start + i * 0x1000)).collect();
    assert_eq!(before, after);
}

#[test]
fn exhausted_allocator_fails_the_mapping_request() {
    // one frame: not even enough for the page tables of the first page
    let regions = vec![usable(0x1000, 0x2000)];
    let mut manager = MemoryManager::new(0, regions);
    let err = manager
        .allocate_frames_for_memory_region(0x5000_0000, 0x1000, flags())
        .expect_err("the allocator cannot cover the request");
    assert_eq!(err, MapError::FrameAllocationFailed);
    assert_eq!(manager.translate_address(0x5000_0000), None);
}

#[test]
fn pages_mapped_before_a_failure_keep_their_translations() {
    // five frames: the first page costs a leaf and three tables, the
    // second its leaf; nothing is left for the third page
    let regions = vec![usable(0x1000, 0x6000)];
    let mut manager = MemoryManager::new(0, regions);
    let start: u64 = 0x6000_0000;
    let err = manager
        .allocate_frames_for_memory_region(start, 0x3000, flags())
        .expect_err("the allocator runs dry mid-request");
    assert_eq!(err, MapError::FrameAllocationFailed);
    assert!(manager.translate_address(start).is_some());
    assert!(manager.translate_address(start + 0x1000).is_some());
    assert_eq!(manager.translate_address(start + 0x2000), None);
}
