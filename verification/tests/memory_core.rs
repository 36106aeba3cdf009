//! Tests of the memory map, the frame bitmap, the bootstrap allocator and
//! the steady-state frame allocator.

use capucho_os::memory::addr::{Frame, PAGE_SIZE};
use capucho_os::memory::frame_allocator::bitmap::{frame_idx_to_parts, FrameBitmap};
use capucho_os::memory::frame_allocator::bootstrap::{bitmap_frames_needed, BootStrapAllocator};
use capucho_os::memory::frame_allocator::global::GlobalFrameAllocator;
use capucho_os::memory::memmap::{MemoryMap, MemoryRegion, MemoryRegionType};
use capucho_os::MemError;

fn map_of(regions: &[(u64, u64, MemoryRegionType)]) -> MemoryMap {
    let mut map = MemoryMap::new();
    for &(start_frame, end_frame, region_type) in regions {
        let accepted = map.push_region(MemoryRegion { start_frame, end_frame, region_type });
        assert!(accepted);
    }
    map
}

fn allocator_of(regions: &[(u64, u64, MemoryRegionType)]) -> GlobalFrameAllocator {
    GlobalFrameAllocator::init(BootStrapAllocator::new(map_of(regions)))
}

#[test]
fn allocation_scenario_skips_reserved() {
    // Usable 0x0-0x9000, Reserved 0x9000-0xA000, Usable 0xA000-0x14000:
    // nine allocations return 0x0, 0x1000, ..., 0x8000, the tenth returns
    // 0xA000, skipping the reserved frame.
    let mut alloc = allocator_of(&[
        (0, 9, MemoryRegionType::Usable),
        (9, 10, MemoryRegionType::Reserved),
        (10, 20, MemoryRegionType::Usable),
    ]);
    for i in 0..9u64 {
        let frame = alloc.allocate_frame().unwrap();
        assert_eq!(frame.start_address(), i * 0x1000);
    }
    let tenth = alloc.allocate_frame().unwrap();
    assert_eq!(tenth.start_address(), 0xA000);
}

#[test]
fn never_allocates_reserved_memory() {
    // Usable [0x0, 0x100000), Reserved [0x100000, 0x200000): no allocation
    // ever returns an address at or above 0x100000.
    let mut alloc = allocator_of(&[
        (0, 0x100, MemoryRegionType::Usable),
        (0x100, 0x200, MemoryRegionType::Reserved),
    ]);
    let mut count = 0u64;
    loop {
        match alloc.allocate_frame() {
            Some(frame) => {
                assert!(frame.start_address() < 0x100000);
                count += 1;
            },
            None => break,
        }
    }
    assert_eq!(count, 0x100);
    assert!(alloc.allocate_frame().is_none());
}

#[test]
fn allocations_are_pairwise_distinct() {
    let mut alloc = allocator_of(&[
        (0, 4, MemoryRegionType::Usable),
        (4, 6, MemoryRegionType::Other),
        (6, 8, MemoryRegionType::Usable),
    ]);
    let mut seen: Vec<u64> = Vec::new();
    while let Some(frame) = alloc.allocate_frame() {
        let addr = frame.start_address();
        assert!(!seen.contains(&addr));
        seen.push(addr);
    }
    assert_eq!(seen, vec![0x0, 0x1000, 0x2000, 0x3000, 0x6000, 0x7000]);
}

#[test]
fn deallocation_returns_frame_to_pool() {
    let mut alloc = allocator_of(&[(0, 4, MemoryRegionType::Usable)]);
    let first = alloc.allocate_frame().unwrap();
    assert_eq!(first.number, 0);
    assert!(alloc.frame_in_use(first));
    alloc.deallocate_frame(first);
    assert!(!alloc.frame_in_use(first));
    // The cursor rests on the freed frame, so it is handed out again.
    let again = alloc.allocate_frame().unwrap();
    assert_eq!(again.number, 0);
}

#[test]
fn bootstrap_consumption_is_replayed() {
    // Every frame the bootstrap pass consumed is marked used in the
    // resulting allocator: no frame is allocatable twice across the
    // transition.
    let mut bootstrap = BootStrapAllocator::new(map_of(&[
        (0, 2, MemoryRegionType::Usable),
        (2, 3, MemoryRegionType::Reserved),
        (3, 6, MemoryRegionType::Usable),
    ]));
    let mut consumed = Vec::new();
    for _ in 0..3 {
        consumed.push(bootstrap.allocate_frame().unwrap());
    }
    assert_eq!(
        consumed.iter().map(|f| f.number).collect::<Vec<_>>(),
        vec![0, 1, 3],
    );
    let mut alloc = GlobalFrameAllocator::init(bootstrap);
    for frame in &consumed {
        assert!(alloc.frame_in_use(*frame));
    }
    let next = alloc.allocate_frame().unwrap();
    assert_eq!(next.number, 4);
}

#[test]
fn bootstrap_bitmap_storage_plan() {
    let mut bootstrap = BootStrapAllocator::new(map_of(&[(0, 8, MemoryRegionType::Usable)]));
    let plan = bootstrap.allocate_bitmap_storage(3).unwrap();
    assert_eq!(plan.len(), 3);
    for (i, (vaddr, frame)) in plan.iter().enumerate() {
        assert_eq!(*vaddr, 0x6666_6666_0000 + (i as u64) * PAGE_SIZE);
        assert_eq!(frame.number, i as u64);
    }
    assert_eq!(bootstrap.frames_left(), 5);
    // Asking for more than what is left fails and consumes nothing.
    assert_eq!(
        bootstrap.allocate_bitmap_storage(6),
        Err(MemError::FrameExhausted),
    );
    assert_eq!(bootstrap.frames_left(), 5);
}

#[test]
fn bitmap_frames_needed_rounds_up() {
    assert_eq!(bitmap_frames_needed(0), 0);
    assert_eq!(bitmap_frames_needed(1), 1);
    assert_eq!(bitmap_frames_needed(0x8000), 1);
    assert_eq!(bitmap_frames_needed(0x8001), 2);
}

#[test]
fn frame_idx_parts() {
    assert_eq!(frame_idx_to_parts(0), (0, 1));
    assert_eq!(frame_idx_to_parts(33), (1, 2));
    assert_eq!(frame_idx_to_parts(95), (2, 1 << 31));
}

#[test]
fn bitmap_marks_and_clears_bits() {
    let mut bitmap = FrameBitmap::new(70);
    assert_eq!(bitmap.frame_count(), 70);
    assert!(!bitmap.is_used(0));
    bitmap.mark_used(0);
    bitmap.mark_used(33);
    bitmap.mark_used(69);
    assert!(bitmap.is_used(0));
    assert!(bitmap.is_used(33));
    assert!(bitmap.is_used(69));
    assert!(!bitmap.is_used(34));
    bitmap.mark_unused(33);
    assert!(!bitmap.is_used(33));
    assert!(bitmap.is_used(0));
}

#[test]
fn frame_and_page_addressing() {
    assert_eq!(Frame::from_start_address(0x3000).unwrap().number, 3);
    assert_eq!(
        Frame::from_start_address(0x3001),
        Err(MemError::UnalignedAddress),
    );
    assert_eq!(Frame::containing_address(0x3FFF).number, 3);
    assert_eq!(Frame::from_number(7).start_address(), 0x7000);
}

#[test]
fn region_classification_by_containment() {
    let alloc = allocator_of(&[
        (5, 10, MemoryRegionType::Usable),
        (10, 12, MemoryRegionType::AcpiReclaimable),
    ]);
    assert_eq!(
        alloc.get_frame_ty(Frame::from_number(5)),
        Some(MemoryRegionType::Usable),
    );
    assert_eq!(
        alloc.get_frame_ty(Frame::from_number(9)),
        Some(MemoryRegionType::Usable),
    );
    assert_eq!(
        alloc.get_frame_ty(Frame::from_number(10)),
        Some(MemoryRegionType::AcpiReclaimable),
    );
    assert_eq!(alloc.get_frame_ty(Frame::from_number(12)), None);
    assert_eq!(alloc.get_frame_ty(Frame::from_number(4)), None);
}

#[test]
fn acpi_reclaimable_and_zero_page_stay_available() {
    // Reclaimable and zero-page frames are left out of the used bits, but
    // general allocation still never returns them: it scans usable
    // regions only.
    let mut alloc = allocator_of(&[
        (0, 1, MemoryRegionType::FrameZero),
        (1, 2, MemoryRegionType::AcpiReclaimable),
        (2, 3, MemoryRegionType::KernelStack),
        (3, 4, MemoryRegionType::Usable),
    ]);
    assert!(!alloc.frame_in_use(Frame::from_number(0)));
    assert!(!alloc.frame_in_use(Frame::from_number(1)));
    assert!(alloc.frame_in_use(Frame::from_number(2)));
    let frame = alloc.allocate_frame().unwrap();
    assert_eq!(frame.number, 3);
    assert!(alloc.allocate_frame().is_none());
}

#[test]
fn memory_map_rejects_ill_formed_regions() {
    let mut map = MemoryMap::new();
    assert!(map.push_region(MemoryRegion {
        start_frame: 4,
        end_frame: 8,
        region_type: MemoryRegionType::Usable,
    }));
    // Backwards range.
    assert!(!map.push_region(MemoryRegion {
        start_frame: 10,
        end_frame: 9,
        region_type: MemoryRegionType::Usable,
    }));
    // Overlap with the previous region.
    assert!(!map.push_region(MemoryRegion {
        start_frame: 6,
        end_frame: 12,
        region_type: MemoryRegionType::Reserved,
    }));
    assert!(map.push_region(MemoryRegion {
        start_frame: 8,
        end_frame: 12,
        region_type: MemoryRegionType::Reserved,
    }));
    assert_eq!(map.len(), 2);
    assert_eq!(map.region_type_of(5), Some(MemoryRegionType::Usable));
    assert_eq!(map.region_type_of(8), Some(MemoryRegionType::Reserved));
    assert_eq!(map.region_type_of(3), None);
}
