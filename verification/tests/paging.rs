//! Tests of the paging context: identity mapping, range mapping, unmap,
//! device mapping policy, release, the fault diagnostic, and heap setup.

use capucho_os::allocator::{init_heap, HEAP_START};
use capucho_os::memory::addr::{
    Frame, Page, FLAG_NO_CACHE, FLAG_PRESENT, FLAG_WRITABLE, FLAG_WRITE_THROUGH,
};
use capucho_os::memory::fault_diagnostic;
use capucho_os::memory::frame_allocator::bootstrap::BootStrapAllocator;
use capucho_os::memory::frame_allocator::global::GlobalFrameAllocator;
use capucho_os::memory::memmap::{MemoryMap, MemoryRegion, MemoryRegionType};
use capucho_os::memory::{FaultDiagnostic, PagingContext};
use capucho_os::MemError;

fn context_of(regions: &[(u64, u64, MemoryRegionType)]) -> PagingContext {
    let mut map = MemoryMap::new();
    for &(start_frame, end_frame, region_type) in regions {
        let accepted = map.push_region(MemoryRegion { start_frame, end_frame, region_type });
        assert!(accepted);
    }
    PagingContext::new(GlobalFrameAllocator::init(BootStrapAllocator::new(map)))
}

#[test]
fn identity_map_then_unmap() {
    let mut ctx = context_of(&[(0, 4, MemoryRegionType::Usable)]);
    let frame = Frame::from_number(2);
    let page = Page::from_number(2);
    assert!(ctx.translate(page).is_none());
    assert_eq!(ctx.identity_map(frame, FLAG_PRESENT), Ok(()));
    let (mapped_frame, flags) = ctx.translate(page).unwrap();
    assert_eq!(mapped_frame.number, 2);
    assert_eq!(flags, FLAG_PRESENT);
    // A second mapping of the same page is a programming error.
    assert_eq!(
        ctx.identity_map(frame, FLAG_PRESENT),
        Err(MemError::PageAlreadyMapped),
    );
    let freed = ctx.unmap(page).unwrap();
    assert_eq!(freed.number, 2);
    assert!(ctx.translate(page).is_none());
    // Unmapping again is a double release.
    assert_eq!(ctx.unmap(page), Err(MemError::UnmapOfUnmappedPage));
}

#[test]
fn map_range_allocates_fresh_frames() {
    let mut ctx = context_of(&[(0, 4, MemoryRegionType::Usable)]);
    let start = Page::from_number(100);
    assert_eq!(ctx.map_range(start, 3, FLAG_PRESENT | FLAG_WRITABLE), Ok(()));
    for k in 0..3u64 {
        let (frame, flags) = ctx.translate(Page::from_number(100 + k)).unwrap();
        assert_eq!(frame.number, k);
        assert_eq!(flags, FLAG_PRESENT | FLAG_WRITABLE);
    }
    // The backing frames are now marked used.
    for k in 0..3u64 {
        assert!(ctx.allocator.frame_in_use(Frame::from_number(k)));
    }
}

#[test]
fn map_range_validates_before_mutating() {
    let mut ctx = context_of(&[(0, 2, MemoryRegionType::Usable)]);
    // Not enough frames: nothing changes.
    assert_eq!(
        ctx.map_range(Page::from_number(50), 3, FLAG_PRESENT),
        Err(MemError::FrameExhausted),
    );
    assert!(ctx.translate(Page::from_number(50)).is_none());
    assert!(!ctx.allocator.frame_in_use(Frame::from_number(0)));
    // A page of the run already mapped: nothing changes either.
    assert_eq!(ctx.identity_map(Frame::from_number(1), FLAG_PRESENT), Ok(()));
    assert_eq!(
        ctx.map_range(Page::from_number(0), 2, FLAG_PRESENT),
        Err(MemError::PageAlreadyMapped),
    );
    assert!(ctx.translate(Page::from_number(0)).is_none());
}

#[test]
fn mmap_dev_policy_by_region_type() {
    let mut ctx = context_of(&[
        (0, 2, MemoryRegionType::Usable),
        (2, 4, MemoryRegionType::Reserved),
        (4, 5, MemoryRegionType::KernelStack),
        (5, 6, MemoryRegionType::FrameZero),
    ]);
    // General usable RAM is never an MMIO target.
    assert!(matches!(
        ctx.mmap_dev(Frame::from_number(0), true),
        Err(MemError::UnsupportedRegionForMapping)
    ));
    // Frames outside every region are refused too.
    assert!(matches!(
        ctx.mmap_dev(Frame::from_number(100), true),
        Err(MemError::UnsupportedRegionForMapping)
    ));
    // The kernel-stack workaround only applies on the ACPI path.
    assert!(matches!(
        ctx.mmap_dev(Frame::from_number(4), false),
        Err(MemError::UnsupportedRegionForMapping)
    ));
    let stack_guard = ctx.mmap_dev(Frame::from_number(4), true).unwrap();
    let (_, stack_flags) = ctx.translate(Page::from_number(4)).unwrap();
    assert_eq!(stack_flags, FLAG_PRESENT | FLAG_NO_CACHE | FLAG_WRITE_THROUGH);
    // The kernel-stack frame was already in use, so releasing must not
    // hand it to the allocator.
    assert!(!stack_guard.must_deallocate());
    // A reserved frame maps writable, and was free before.
    let guard = ctx.mmap_dev(Frame::from_number(2), true).unwrap();
    assert_eq!(guard.page().number, 2);
    assert!(guard.must_deallocate());
    let (frame, flags) = ctx.translate(Page::from_number(2)).unwrap();
    assert_eq!(frame.number, 2);
    assert_eq!(
        flags,
        FLAG_PRESENT | FLAG_NO_CACHE | FLAG_WRITE_THROUGH | FLAG_WRITABLE,
    );
    // Mapping the same frame again without the registry is the caller
    // misuse the taxonomy describes.
    assert!(matches!(
        ctx.mmap_dev(Frame::from_number(2), true),
        Err(MemError::PageAlreadyMapped)
    ));
}

#[test]
fn release_tears_down_and_deallocates_borrowed_frames() {
    let mut ctx = context_of(&[
        (0, 2, MemoryRegionType::Usable),
        (2, 4, MemoryRegionType::Reserved),
    ]);
    let guard = ctx.mmap_dev(Frame::from_number(3), true).unwrap();
    assert!(ctx.translate(Page::from_number(3)).is_some());
    assert_eq!(ctx.release(guard), Ok(()));
    assert!(ctx.translate(Page::from_number(3)).is_none());
    assert!(!ctx.allocator.frame_in_use(Frame::from_number(3)));
}

#[test]
fn fault_diagnostic_degrades_without_the_lock() {
    let mut ctx = context_of(&[(0, 4, MemoryRegionType::Usable)]);
    assert_eq!(fault_diagnostic(None, 0x2000), FaultDiagnostic::Unknown);
    assert_eq!(fault_diagnostic(Some(&ctx), 0x2345), FaultDiagnostic::NotMapped);
    ctx.identity_map(Frame::from_number(2), FLAG_PRESENT).unwrap();
    match fault_diagnostic(Some(&ctx), 0x2345) {
        FaultDiagnostic::Mapped(frame, flags) => {
            assert_eq!(frame.number, 2);
            assert_eq!(flags, FLAG_PRESENT);
        },
        other => panic!("unexpected diagnostic {:?}", other),
    }
}

#[test]
fn heap_window_is_mapped_writable() {
    let mut ctx = context_of(&[(0, 0x100, MemoryRegionType::Usable)]);
    assert_eq!(init_heap(&mut ctx), Ok(()));
    let first = Page::containing_address(HEAP_START);
    let (frame, flags) = ctx.translate(first).unwrap();
    assert_eq!(frame.number, 0);
    assert_eq!(flags, FLAG_PRESENT | FLAG_WRITABLE);
    // 500 KiB of heap is 125 pages.
    let last = Page::from_number(first.number + 124);
    assert!(ctx.translate(last).is_some());
    assert!(ctx.translate(Page::from_number(first.number + 125)).is_none());
}

#[test]
fn heap_setup_needs_enough_frames() {
    let mut ctx = context_of(&[(0, 100, MemoryRegionType::Usable)]);
    assert_eq!(init_heap(&mut ctx), Err(MemError::FrameExhausted));
    assert!(ctx.translate(Page::containing_address(HEAP_START)).is_none());
}
