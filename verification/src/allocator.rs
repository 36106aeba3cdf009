//! Heap setup: maps the fixed virtual heap window to freshly allocated
//! frames through the paging context. Handing the mapped window to the
//! heap allocator itself belongs to the unverified layer around this
//! core.

use vstd::prelude::*;
use crate::MemError;
use crate::memory::addr::{Page, FLAG_PRESENT, FLAG_WRITABLE, PAGE_SIZE};
use crate::memory::frame_allocator::global::free_count_from;
use crate::memory::PagingContext;

verus! {

/// Base of the fixed virtual address window reserved for the heap.
pub const HEAP_START: u64 = 0x4444_4444_0000;

/// Size of the heap window in bytes.
pub const HEAP_SIZE: u64 = 500 * 1024;

/// The first virtual page of the heap window.
pub open spec fn heap_first_page() -> int {
    HEAP_START as int / PAGE_SIZE as int
}

/// How many pages the heap window spans.
pub open spec fn heap_page_count() -> int {
    HEAP_SIZE as int / PAGE_SIZE as int
}

/// Maps the whole heap window, page by page, to freshly allocated
/// frames, present and writable. Fails — leaving the context untouched —
/// with `PageAlreadyMapped` when part of the window is already mapped,
/// else with `FrameExhausted` when the allocator cannot back the window.
pub fn init_heap(ctx: &mut PagingContext) -> (r: Result<(), MemError>)
    requires
        old(ctx).wf(),
    ensures
        final(ctx).wf(),
        r.is_err() ==> *final(ctx) == *old(ctx),
        r.is_ok() <==> ((forall|k: int|
            0 <= k < heap_page_count() ==> !(#[trigger] old(ctx).spec_mapped(
                heap_first_page() + k,
            ))) && free_count_from(
            old(ctx).spec_allocator().spec_map(),
            old(ctx).spec_allocator().bits(),
            old(ctx).spec_allocator().cursor(),
        ) >= heap_page_count()),
        r.is_ok() ==> forall|k: int|
            0 <= k < heap_page_count() ==> #[trigger] final(ctx).spec_mapped(heap_first_page() + k)
                && final(ctx).spec_flags_of(heap_first_page() + k) == (FLAG_PRESENT
                | FLAG_WRITABLE),
{
    let start_page = Page::containing_address(HEAP_START);
    let page_count = HEAP_SIZE / PAGE_SIZE;
    let r = ctx.map_range(start_page, page_count, FLAG_PRESENT | FLAG_WRITABLE);
    proof {
        assert(start_page.id() == heap_first_page());
        assert(page_count as int == heap_page_count());
        if r.is_ok() {
            assert forall|k: int|
                0 <= k < heap_page_count() implies #[trigger] ctx.spec_mapped(
                heap_first_page() + k,
            ) && ctx.spec_flags_of(heap_first_page() + k) == (FLAG_PRESENT | FLAG_WRITABLE) by {
                let fr = ctx.spec_frame_of(start_page.id() + k);
                assert(ctx.spec_mapped(start_page.id() + k));
            }
        } else {
            assert(!(forall|k: int|
                0 <= k < page_count as int ==> !(#[trigger] old(ctx).spec_mapped(
                    start_page.id() + k,
                ))) || free_count_from(
                old(ctx).spec_allocator().spec_map(),
                old(ctx).spec_allocator().bits(),
                old(ctx).spec_allocator().cursor(),
            ) < page_count as int);
            if exists|k: int|
                0 <= k < page_count as int && #[trigger] old(ctx).spec_mapped(
                    start_page.id() + k,
                ) {
                let k = choose|k: int|
                    0 <= k < page_count as int && #[trigger] old(ctx).spec_mapped(
                        start_page.id() + k,
                    );
                assert(old(ctx).spec_mapped(heap_first_page() + k));
            }
        }
    }
    r
}

} // verus!
