//! Tests of the mapping registry: refcount idempotence, overlapping
//! ranges, and deallocation only for borrowed frames.

use capucho_os::memory::addr::{Frame, Page};
use capucho_os::memory::frame_allocator::bootstrap::BootStrapAllocator;
use capucho_os::memory::frame_allocator::global::GlobalFrameAllocator;
use capucho_os::memory::memmap::{MemoryMap, MemoryRegion, MemoryRegionType};
use capucho_os::memory::registry::{frame_span, MappingRegistry};
use capucho_os::memory::PagingContext;
use capucho_os::MemError;

fn context_of(regions: &[(u64, u64, MemoryRegionType)]) -> PagingContext {
    let mut map = MemoryMap::new();
    for &(start_frame, end_frame, region_type) in regions {
        let accepted = map.push_region(MemoryRegion { start_frame, end_frame, region_type });
        assert!(accepted);
    }
    PagingContext::new(GlobalFrameAllocator::init(BootStrapAllocator::new(map)))
}

#[test]
fn refcount_idempotence() {
    // Mapping the same frame twice, then unmapping twice, is equivalent
    // to mapping once and unmapping once for the page-table state.
    let mut ctx = context_of(&[(0, 4, MemoryRegionType::Reserved)]);
    let mut registry = MappingRegistry::new();
    let frame = Frame::from_number(1);
    let page = Page::from_number(1);

    assert_eq!(registry.map(&mut ctx, frame), Ok(()));
    assert!(ctx.translate(page).is_some());
    assert_eq!(registry.count_of(1), 1);

    assert_eq!(registry.map(&mut ctx, frame), Ok(()));
    assert!(ctx.translate(page).is_some());
    assert_eq!(registry.count_of(1), 2);

    assert_eq!(registry.unmap(&mut ctx, page), Ok(()));
    assert!(ctx.translate(page).is_some());
    assert_eq!(registry.count_of(1), 1);

    assert_eq!(registry.unmap(&mut ctx, page), Ok(()));
    assert!(ctx.translate(page).is_none());
    assert_eq!(registry.count_of(1), 0);
    assert!(!registry.is_registered(1));
}

#[test]
fn overlapping_ranges_share_a_frame() {
    // Two byte ranges that share one trailing frame: the shared frame has
    // a count of two, and releasing one range leaves it mapped with a
    // count of one.
    let mut ctx = context_of(&[(0x100, 0x110, MemoryRegionType::Reserved)]);
    let mut registry = MappingRegistry::new();

    assert_eq!(
        registry.map_range(&mut ctx, Frame::from_number(0x100), Frame::from_number(0x104)),
        Ok(()),
    );
    assert_eq!(
        registry.map_range(&mut ctx, Frame::from_number(0x104), Frame::from_number(0x108)),
        Ok(()),
    );
    assert_eq!(registry.count_of(0x104), 2);
    assert_eq!(registry.count_of(0x100), 1);
    assert_eq!(registry.count_of(0x108), 1);

    // Tear the first range down, frame by frame.
    for f in 0x100..=0x104u64 {
        assert_eq!(registry.unmap(&mut ctx, Page::from_number(f)), Ok(()));
    }
    // The shared frame is still mapped with one holder left; the rest of
    // the first range is gone.
    assert_eq!(registry.count_of(0x104), 1);
    assert!(ctx.translate(Page::from_number(0x104)).is_some());
    assert!(ctx.translate(Page::from_number(0x100)).is_none());
    assert!(ctx.translate(Page::from_number(0x108)).is_some());
}

#[test]
fn range_mapping_validates_first() {
    let mut ctx = context_of(&[
        (0, 2, MemoryRegionType::Usable),
        (2, 4, MemoryRegionType::Reserved),
    ]);
    let mut registry = MappingRegistry::new();
    // A range that runs into usable RAM is refused whole.
    assert_eq!(
        registry.map_range(&mut ctx, Frame::from_number(1), Frame::from_number(3)),
        Err(MemError::UnsupportedRegionForMapping),
    );
    assert!(!registry.is_registered(2));
    assert!(ctx.translate(Page::from_number(2)).is_none());
    // A range mapped behind the registry's back is caller misuse.
    ctx.identity_map(Frame::from_number(3), 0x1).unwrap();
    assert_eq!(
        registry.map_range(&mut ctx, Frame::from_number(2), Frame::from_number(3)),
        Err(MemError::PageAlreadyMapped),
    );
    assert!(!registry.is_registered(2));
}

#[test]
fn deallocation_only_for_borrowed_frames() {
    let mut ctx = context_of(&[
        (0, 2, MemoryRegionType::Usable),
        (2, 4, MemoryRegionType::Reserved),
        (4, 5, MemoryRegionType::KernelStack),
    ]);
    let mut registry = MappingRegistry::new();

    // A reserved frame: never in the allocator's pool. After a full
    // map/unmap cycle, allocation still never returns it.
    let reserved = Frame::from_number(2);
    assert_eq!(registry.map(&mut ctx, reserved), Ok(()));
    assert_eq!(registry.unmap(&mut ctx, Page::from_number(2)), Ok(()));
    assert!(!ctx.allocator.frame_in_use(reserved));
    let a = ctx.allocator.allocate_frame().unwrap();
    let b = ctx.allocator.allocate_frame().unwrap();
    assert_ne!(a.number, 2);
    assert_ne!(b.number, 2);
    assert!(ctx.allocator.allocate_frame().is_none());

    // A kernel-stack frame was counted in use before the registry ever
    // mapped it: releasing it must not clear its bit.
    let stack = Frame::from_number(4);
    assert!(ctx.allocator.frame_in_use(stack));
    assert_eq!(registry.map(&mut ctx, stack), Ok(()));
    assert_eq!(registry.unmap(&mut ctx, Page::from_number(4)), Ok(()));
    assert!(ctx.allocator.frame_in_use(stack));
}

#[test]
fn registry_refuses_usable_ram_and_double_release() {
    let mut ctx = context_of(&[(0, 4, MemoryRegionType::Usable)]);
    let mut registry = MappingRegistry::new();
    assert_eq!(
        registry.map(&mut ctx, Frame::from_number(1)),
        Err(MemError::UnsupportedRegionForMapping),
    );
    assert_eq!(
        registry.unmap(&mut ctx, Page::from_number(1)),
        Err(MemError::UnmapOfUnmappedPage),
    );
}

#[test]
fn frame_span_covers_byte_ranges() {
    let (start, end) = frame_span(0x1234, 0x2000);
    assert_eq!(start.number, 1);
    assert_eq!(end.number, 3);
    let (start, end) = frame_span(0x1000, 0);
    assert_eq!(start.number, 1);
    assert_eq!(end.number, 1);
}
