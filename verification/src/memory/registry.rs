//! The mapping registry: a reference-counted identity-mapping service on
//! top of the paging context. Hardware-discovery subsystems request
//! identity mappings of overlapping or repeated physical ranges through
//! it; the registry installs a mapping only on the first request for a
//! frame, and tears it down only when the last requester is done.

use vstd::prelude::*;
use vstd::seq_lib::*;
use crate::MemError;
use crate::memory::addr::{Frame, Page, PAGE_SIZE};
use crate::memory::memmap::MemoryRegionType;
use crate::memory::{mmap_allowed, mmap_flags, PagingContext, UnmapGuard};

verus! {

/// What one successful registry `map` call does, seen from outside: the
/// frame's count rises by one and every other record is untouched; on a
/// first request the identity mapping appears in the paging context with
/// the policy flags and the guard records whether the frame was free, on
/// a repeat request the context is untouched.
pub open spec fn map_step(
    r0: MappingRegistry,
    c0: PagingContext,
    r1: MappingRegistry,
    c1: PagingContext,
    f: int,
) -> bool {
    &&& forall|g: int| #[trigger] r1.spec_registered(g) <==> (r0.spec_registered(g) || g == f)
    &&& r1.spec_count_of(f) == r0.spec_count_of(f) + 1
    &&& forall|g: int| g != f ==> #[trigger] r1.spec_count_of(g) == r0.spec_count_of(g)
    &&& forall|g: int|
        #[trigger] r0.spec_registered(g) ==> r1.spec_guard_flag(g) == r0.spec_guard_flag(g)
    &&& if r0.spec_registered(f) {
        c1 == c0
    } else {
        &&& !c0.spec_mapped(f)
        &&& r1.spec_guard_flag(f) == !c0.spec_allocator().spec_in_use(f)
        &&& c1.spec_allocator() == c0.spec_allocator()
        &&& forall|q: int| #[trigger] c1.spec_mapped(q) <==> (c0.spec_mapped(q) || q == f)
        &&& c1.spec_frame_of(f) == f
        &&& c1.spec_flags_of(f) == mmap_flags(c0.spec_allocator().spec_map(), f)
        &&& forall|q: int|
            #[trigger] c0.spec_mapped(q) ==> c1.spec_frame_of(q) == c0.spec_frame_of(q)
                && c1.spec_flags_of(q) == c0.spec_flags_of(q)
    }
}

/// What one successful registry `unmap` call does, seen from outside: the
/// frame's count falls by one and every other record is untouched; while
/// references remain the paging context is untouched, and on the last one
/// the identity mapping disappears and the frame goes back to the
/// allocator exactly when its guard says it was borrowed from the pool.
pub open spec fn unmap_step(
    r0: MappingRegistry,
    c0: PagingContext,
    r1: MappingRegistry,
    c1: PagingContext,
    f: int,
) -> bool {
    &&& r0.spec_count_of(f) >= 1
    &&& r1.spec_count_of(f) == r0.spec_count_of(f) - 1
    &&& forall|g: int| g != f ==> #[trigger] r1.spec_count_of(g) == r0.spec_count_of(g)
    &&& forall|g: int|
        #[trigger] r1.spec_registered(g) <==> (r0.spec_registered(g) && !(g == f
            && r0.spec_count_of(f) == 1))
    &&& forall|g: int|
        #[trigger] r0.spec_registered(g) && g != f ==> r1.spec_guard_flag(g)
            == r0.spec_guard_flag(g)
    &&& if r0.spec_count_of(f) > 1 {
        &&& c1 == c0
        &&& r1.spec_guard_flag(f) == r0.spec_guard_flag(f)
    } else {
        &&& forall|q: int| #[trigger] c1.spec_mapped(q) <==> (c0.spec_mapped(q) && q != f)
        &&& forall|q: int|
            #[trigger] c0.spec_mapped(q) && q != f ==> c1.spec_frame_of(q) == c0.spec_frame_of(q)
                && c1.spec_flags_of(q) == c0.spec_flags_of(q)
        &&& c1.spec_allocator().spec_map() == c0.spec_allocator().spec_map()
        &&& c1.spec_allocator().cursor() == c0.spec_allocator().cursor()
        &&& if r0.spec_guard_flag(f) && 0 <= f < c0.spec_allocator().spec_frame_count() {
            forall|g: int|
                0 <= g < c0.spec_allocator().spec_frame_count() ==> (#[trigger] c1.spec_allocator().spec_in_use(
                    g,
                ) <==> (c0.spec_allocator().spec_in_use(g) && g != f))
        } else {
            c1.spec_allocator() == c0.spec_allocator()
        }
    }
}

/// Whether a registry `map` of frame `f` is guaranteed to succeed: either
/// the frame is already registered, or the policy admits it and its
/// identity page is free.
pub open spec fn range_ok_at(reg: MappingRegistry, ctx: PagingContext, f: int) -> bool {
    reg.spec_registered(f) || (mmap_allowed(ctx.spec_allocator().spec_map(), f, true)
        && !ctx.spec_mapped(f))
}

/// The lowest frame of `[lo, hi]` on which a registry `map` would fail,
/// if any.
pub open spec fn range_blocker(
    reg: MappingRegistry,
    ctx: PagingContext,
    lo: int,
    hi: int,
) -> Option<int>
    decreases hi + 1 - lo,
{
    if lo > hi {
        None
    } else if !range_ok_at(reg, ctx, lo) {
        Some(lo)
    } else {
        range_blocker(reg, ctx, lo + 1, hi)
    }
}

/// The range has no blocker exactly when a registry `map` is guaranteed
/// to succeed on every frame of it.
pub proof fn lemma_blocker_none(reg: MappingRegistry, ctx: PagingContext, lo: int, hi: int)
    ensures
        range_blocker(reg, ctx, lo, hi).is_none() <==> (forall|f: int|
            lo <= f <= hi ==> range_ok_at(reg, ctx, f)),
    decreases hi + 1 - lo,
{
    if lo <= hi {
        lemma_blocker_none(reg, ctx, lo + 1, hi);
    }
}

/// What one successful registry `map_range` call over the inclusive frame
/// range `[lo, hi]` does, seen from outside: every frame of the range has
/// its count raised by one — frames shared with earlier requests simply
/// count one more holder — and exactly the not-yet-registered frames of
/// the range gain an identity mapping with the policy flags.
pub open spec fn range_map_step(
    r0: MappingRegistry,
    c0: PagingContext,
    r1: MappingRegistry,
    c1: PagingContext,
    lo: int,
    hi: int,
) -> bool {
    &&& forall|f: int| lo <= f <= hi ==> #[trigger] r1.spec_count_of(f) == r0.spec_count_of(f) + 1
    &&& forall|g: int| !(lo <= g <= hi) ==> #[trigger] r1.spec_count_of(g) == r0.spec_count_of(g)
    &&& forall|g: int|
        #[trigger] r1.spec_registered(g) <==> (r0.spec_registered(g) || (lo <= g <= hi))
    &&& forall|g: int|
        #[trigger] r0.spec_registered(g) ==> r1.spec_guard_flag(g) == r0.spec_guard_flag(g)
    &&& forall|f: int|
        lo <= f <= hi && !r0.spec_registered(f) ==> #[trigger] r1.spec_guard_flag(f)
            == !c0.spec_allocator().spec_in_use(f)
    &&& c1.spec_allocator() == c0.spec_allocator()
    &&& forall|q: int|
        #[trigger] c1.spec_mapped(q) <==> (c0.spec_mapped(q) || (lo <= q <= hi
            && !r0.spec_registered(q)))
    &&& forall|f: int|
        lo <= f <= hi && !r0.spec_registered(f) ==> #[trigger] c1.spec_frame_of(f) == f
            && c1.spec_flags_of(f) == mmap_flags(c0.spec_allocator().spec_map(), f)
    &&& forall|q: int|
        #[trigger] c0.spec_mapped(q) ==> c1.spec_frame_of(q) == c0.spec_frame_of(q)
            && c1.spec_flags_of(q) == c0.spec_flags_of(q)
}

/// The inclusive frame range that the byte range `[addr, addr + size)`
/// touches, as the registry's `map_range` expects it: firmware table
/// addresses and lengths are arbitrary byte offsets, not frame-aligned.
pub fn frame_span(addr: u64, size: u64) -> (r: (Frame, Frame))
    requires
        addr + size <= u64::MAX,
    ensures
        r.0.id() == addr as int / PAGE_SIZE as int,
        r.1.id() == (addr + size) as int / PAGE_SIZE as int,
        r.0.id() <= r.1.id(),
{
    (Frame::containing_address(addr), Frame::containing_address(addr + size))
}

/// Refcount idempotence: mapping the same fresh frame twice through the
/// registry and then unmapping it twice is, for the page-table state,
/// the same as mapping once and unmapping once. The frame is mapped
/// after the first map, still mapped after the second map and after the
/// first unmap, and unmapped after the second; the second map and the
/// first unmap touch no page-table state at all, and in the end the
/// page tables and the allocator are back where they began.
pub proof fn lemma_refcount_idempotence(
    r0: MappingRegistry,
    c0: PagingContext,
    r1: MappingRegistry,
    c1: PagingContext,
    r2: MappingRegistry,
    c2: PagingContext,
    r3: MappingRegistry,
    c3: PagingContext,
    r4: MappingRegistry,
    c4: PagingContext,
    f: int,
)
    requires
        !r0.spec_registered(f),
        map_step(r0, c0, r1, c1, f),
        map_step(r1, c1, r2, c2, f),
        unmap_step(r2, c2, r3, c3, f),
        unmap_step(r3, c3, r4, c4, f),
    ensures
        c1.spec_mapped(f),
        c2 == c1,
        c3 == c2,
        !c4.spec_mapped(f),
        r2.spec_count_of(f) == 2,
        r4.spec_count_of(f) == 0,
        forall|q: int| #[trigger] c4.spec_mapped(q) == c0.spec_mapped(q),
        forall|q: int|
            #[trigger] c0.spec_mapped(q) ==> c4.spec_frame_of(q) == c0.spec_frame_of(q)
                && c4.spec_flags_of(q) == c0.spec_flags_of(q),
        forall|g: int|
            0 <= g < c0.spec_allocator().spec_frame_count()
                ==> #[trigger] c4.spec_allocator().spec_in_use(g)
                == c0.spec_allocator().spec_in_use(g),
{
    assert(r0.spec_count_of(f) == 0);
    assert(r1.spec_registered(f) && r1.spec_count_of(f) == 1);
    assert(r2.spec_count_of(f) == 2);
    assert(r3.spec_count_of(f) == 1);
    assert(c3 == c1);
    // The final unmap removes exactly `f`'s mapping; everything else is
    // what the very first map left, which is what `c0` had.
    assert forall|q: int| #[trigger] c4.spec_mapped(q) == c0.spec_mapped(q) by {
        if q == f {
            assert(!c0.spec_mapped(f));
        }
    }
    assert forall|q: int| #[trigger] c0.spec_mapped(q) implies c4.spec_frame_of(q)
        == c0.spec_frame_of(q) && c4.spec_flags_of(q) == c0.spec_flags_of(q) by {
        assert(q != f);
        assert(c3.spec_mapped(q));
        assert(c4.spec_frame_of(q) == c3.spec_frame_of(q) && c4.spec_flags_of(q)
            == c3.spec_flags_of(q));
        assert(c1.spec_frame_of(q) == c0.spec_frame_of(q) && c1.spec_flags_of(q)
            == c0.spec_flags_of(q));
    }
    // The guard flag travelled unchanged from the first map to the last
    // unmap, so the allocator round-trips: either nothing was touched, or
    // a bit that was clear before was set never and cleared once.
    assert(r3.spec_guard_flag(f) == !c0.spec_allocator().spec_in_use(f));
    assert(c3.spec_allocator() == c0.spec_allocator());
    assert forall|g: int|
        0 <= g < c0.spec_allocator().spec_frame_count() implies
        #[trigger] c4.spec_allocator().spec_in_use(g) == c0.spec_allocator().spec_in_use(g) by {
        if r3.spec_guard_flag(f) && 0 <= f < c3.spec_allocator().spec_frame_count() {
            if g == f {
                assert(!c0.spec_allocator().spec_in_use(f));
            }
        }
    }
}

/// Overlap-safe range mapping: when two requested ranges share a frame,
/// the shared frame ends up with a count of two, and releasing it once —
/// as tearing one of the two ranges down does — leaves it mapped with a
/// count of one and the page tables untouched.
pub proof fn lemma_overlap_safe_range_mapping(
    r0: MappingRegistry,
    c0: PagingContext,
    r1: MappingRegistry,
    c1: PagingContext,
    r2: MappingRegistry,
    c2: PagingContext,
    r3: MappingRegistry,
    c3: PagingContext,
    lo1: int,
    hi1: int,
    lo2: int,
    hi2: int,
    f: int,
)
    requires
        lo1 <= f <= hi1,
        lo2 <= f <= hi2,
        !r0.spec_registered(f),
        range_map_step(r0, c0, r1, c1, lo1, hi1),
        range_map_step(r1, c1, r2, c2, lo2, hi2),
        unmap_step(r2, c2, r3, c3, f),
    ensures
        r1.spec_count_of(f) == 1,
        r2.spec_count_of(f) == 2,
        r3.spec_count_of(f) == 1,
        c3 == c2,
        c3.spec_mapped(f),
{
    assert(r0.spec_count_of(f) == 0);
    assert(c1.spec_mapped(f));
    assert(c2.spec_mapped(f));
}

/// One registry record: a frame (keyed by its number), how many
/// outstanding requests cover it, and the guard for its mapping.
struct RegistryEntry {
    frame: u64,
    count: u64,
    guard: UnmapGuard,
}

/// The reference-counted identity-mapping registry.
pub struct MappingRegistry {
    entries: Vec<RegistryEntry>,
}

impl MappingRegistry {
    /// Whether frame `f` has an outstanding registry mapping.
    pub closed spec fn spec_registered(self, f: int) -> bool {
        exists|i: int|
            0 <= i < self.entries@.len() && (#[trigger] self.entries@[i]).frame as int == f
    }

    /// The index of frame `f`'s record.
    closed spec fn entry_index(self, f: int) -> int {
        choose|i: int|
            0 <= i < self.entries@.len() && (#[trigger] self.entries@[i]).frame as int == f
    }

    /// How many outstanding requests cover frame `f`; zero when none.
    pub closed spec fn spec_count_of(self, f: int) -> int {
        if self.spec_registered(f) {
            self.entries@[self.entry_index(f)].count as int
        } else {
            0
        }
    }

    /// Whether releasing frame `f`'s mapping must hand the frame back to
    /// the allocator: what the guard recorded when the mapping was made.
    pub closed spec fn spec_guard_flag(self, f: int) -> bool {
        self.entries@[self.entry_index(f)].guard.spec_unmap_frame()
    }

    /// Well-formedness: one record per frame, every count positive, and
    /// each guard standing for the identity page of its frame.
    pub closed spec fn wf(self) -> bool {
        &&& forall|i: int, j: int|
            0 <= i < j < self.entries@.len() ==> (#[trigger] self.entries@[i]).frame != (
            #[trigger] self.entries@[j]).frame
        &&& forall|i: int|
            0 <= i < self.entries@.len() ==> (#[trigger] self.entries@[i]).count >= 1
        &&& forall|i: int|
            0 <= i < self.entries@.len() ==> (#[trigger] self.entries@[i]).guard.spec_page().id()
                == self.entries@[i].frame as int
    }

    /// The registry only ever speaks for mappings that are really
    /// installed: every registered frame is identity-mapped in the paging
    /// context. Holding the two apart — mutating the context behind the
    /// registry's back — is the caller misuse the error taxonomy calls a
    /// programming error.
    pub open spec fn consistent_with(self, ctx: PagingContext) -> bool {
        forall|f: int|
            #[trigger] self.spec_registered(f) ==> ctx.spec_mapped(f) && ctx.spec_frame_of(f) == f
    }

    /// An empty registry.
    pub fn new() -> (r: MappingRegistry)
        ensures
            r.wf(),
            forall|f: int| !r.spec_registered(f),
            forall|f: int| r.spec_count_of(f) == 0,
    {
        MappingRegistry { entries: Vec::new() }
    }

    /// Looks the frame up; on the first request installs the identity
    /// mapping through the paging context with caching-disabled,
    /// write-through flags and records it with count one, on every later
    /// request only increments the count and performs no page-table
    /// mutation: the idempotence that makes overlapping discovery code
    /// safe. Errors — only possible on a first request — leave both the
    /// registry and the context unchanged.
    pub fn map(&mut self, ctx: &mut PagingContext, frame: Frame) -> (r: Result<(), MemError>)
        requires
            old(self).wf(),
            old(ctx).wf(),
            old(self).spec_count_of(frame.id()) < u64::MAX as int,
        ensures
            final(self).wf(),
            final(ctx).wf(),
            r.is_ok() <==> (old(self).spec_registered(frame.id()) || (mmap_allowed(
                old(ctx).spec_allocator().spec_map(),
                frame.id(),
                true,
            ) && !old(ctx).spec_mapped(frame.id()))),
            r.is_err() ==> *final(self) == *old(self) && *final(ctx) == *old(ctx),
            !old(self).spec_registered(frame.id()) && !mmap_allowed(
                old(ctx).spec_allocator().spec_map(),
                frame.id(),
                true,
            ) ==> r == Err::<(), MemError>(MemError::UnsupportedRegionForMapping),
            !old(self).spec_registered(frame.id()) && mmap_allowed(
                old(ctx).spec_allocator().spec_map(),
                frame.id(),
                true,
            ) && old(ctx).spec_mapped(frame.id()) ==> r == Err::<(), MemError>(
                MemError::PageAlreadyMapped,
            ),
            r.is_ok() ==> map_step(*old(self), *old(ctx), *final(self), *final(ctx), frame.id()),
            old(self).consistent_with(*old(ctx)) && r.is_ok() ==> final(self).consistent_with(
                *final(ctx),
            ),
    {
        match self.find_entry(frame.number) {
            Some(i) => {
                let mut e = self.entries.remove(i);
                proof {
                    let prev = *old(self);
                    self.lemma_remove_effect(prev, i as int);
                }
                let ghost mid = *self;
                e.count = e.count + 1;
                let ghost entry2 = e;
                self.entries.push(e);
                proof {
                    self.lemma_push_effect(mid, entry2);
                    let f = frame.id();
                    assert forall|g: int| #[trigger] self.spec_registered(g) implies (old(
                        self,
                    ).spec_registered(g) || g == f) by {
                        if g != f {
                            assert(mid.spec_registered(g));
                        }
                    }
                    assert forall|g: int| old(self).spec_registered(g) || g == f implies
                        #[trigger] self.spec_registered(g) by {
                        if g != f {
                            assert(mid.spec_registered(g));
                        }
                    }
                    assert forall|g: int| g != f implies #[trigger] self.spec_count_of(g) == old(
                        self,
                    ).spec_count_of(g) by {
                        assert(self.spec_count_of(g) == mid.spec_count_of(g));
                        assert(mid.spec_count_of(g) == old(self).spec_count_of(g));
                    }
                    assert forall|g: int| #[trigger] old(self).spec_registered(g) implies
                        self.spec_guard_flag(g) == old(self).spec_guard_flag(g) by {
                        if g != f {
                            assert(mid.spec_registered(g));
                            assert(self.spec_guard_flag(g) == mid.spec_guard_flag(g));
                            assert(mid.spec_guard_flag(g) == old(self).spec_guard_flag(g));
                        } else {
                            assert(self.spec_guard_flag(g) == entry2.guard.spec_unmap_frame());
                        }
                    }
                }
                Ok(())
            },
            None => {
                match ctx.mmap_dev(frame, true) {
                    Err(e) => Err(e),
                    Ok(guard) => {
                        let entry = RegistryEntry { frame: frame.number, count: 1, guard };
                        let ghost entry0 = entry;
                        self.entries.push(entry);
                        proof {
                            self.lemma_push_effect(*old(self), entry0);
                        }
                        Ok(())
                    },
                }
            },
        }
    }

    /// Decrements the frame's count for the page's identity mapping; when
    /// it reaches zero, removes the record, tears the mapping down, and —
    /// only if the frame was not already counted in use before the
    /// registry first mapped it — returns the frame to the allocator.
    /// `UnmapOfUnmappedPage` — a double release, a corrupted-refcount
    /// programming error — exactly when the frame is not registered,
    /// leaving both the registry and the context unchanged.
    pub fn unmap(&mut self, ctx: &mut PagingContext, page: Page) -> (r: Result<(), MemError>)
        requires
            old(self).wf(),
            old(ctx).wf(),
            old(self).consistent_with(*old(ctx)),
        ensures
            final(self).wf(),
            final(ctx).wf(),
            final(self).consistent_with(*final(ctx)),
            r.is_ok() <==> old(self).spec_registered(page.id()),
            r.is_err() ==> r == Err::<(), MemError>(MemError::UnmapOfUnmappedPage)
                && *final(self) == *old(self) && *final(ctx) == *old(ctx),
            r.is_ok() ==> unmap_step(*old(self), *old(ctx), *final(self), *final(ctx), page.id()),
    {
        match self.find_entry(page.number) {
            None => Err(MemError::UnmapOfUnmappedPage),
            Some(i) => {
                let mut e = self.entries.remove(i);
                proof {
                    self.lemma_remove_effect(*old(self), i as int);
                }
                if e.count > 1 {
                    let ghost mid = *self;
                    e.count = e.count - 1;
                    let ghost entry2 = e;
                    self.entries.push(e);
                    proof {
                        self.lemma_push_effect(mid, entry2);
                        let f = page.id();
                        assert forall|g: int| #[trigger] self.spec_registered(g) implies (old(
                            self,
                        ).spec_registered(g) && !(g == f && old(self).spec_count_of(f) == 1)) by {
                            if g != f {
                                assert(mid.spec_registered(g));
                            }
                        }
                        assert forall|g: int|
                            old(self).spec_registered(g) && !(g == f && old(self).spec_count_of(f)
                                == 1) implies #[trigger] self.spec_registered(g) by {
                            if g != f {
                                assert(mid.spec_registered(g));
                            }
                        }
                        assert forall|g: int| g != f implies #[trigger] self.spec_count_of(g)
                            == old(self).spec_count_of(g) by {
                            assert(self.spec_count_of(g) == mid.spec_count_of(g));
                            assert(mid.spec_count_of(g) == old(self).spec_count_of(g));
                        }
                        assert forall|g: int| #[trigger] old(self).spec_registered(g) implies
                            self.spec_guard_flag(g) == old(self).spec_guard_flag(g) by {
                            if g != f {
                                assert(mid.spec_registered(g));
                                assert(self.spec_guard_flag(g) == mid.spec_guard_flag(g));
                                assert(mid.spec_guard_flag(g) == old(self).spec_guard_flag(g));
                            } else {
                                assert(self.spec_guard_flag(g) == entry2.guard.spec_unmap_frame());
                            }
                        }
                    }
                    Ok(())
                } else {
                    proof {
                        assert(e.guard.spec_page().id() == page.id());
                        assert(old(ctx).spec_mapped(page.id()) && old(ctx).spec_frame_of(page.id())
                            == page.id());
                    }
                    match ctx.release(e.guard) {
                        Ok(()) => Ok(()),
                        Err(_) => {
                            // Unreachable: a registered frame is always
                            // mapped in a context the registry is
                            // consistent with.
                            proof {
                                assert(false);
                            }
                            Err(MemError::UnmapOfUnmappedPage)
                        },
                    }
                }
            },
        }
    }

    /// Requests an identity mapping for every frame of the inclusive
    /// range `[start, end]`, one `map` per frame — firmware table
    /// addresses and lengths are arbitrary byte offsets, so one logical
    /// request can span, and partially share, several frames with other
    /// requests. Validation comes first, so a failed request leaves the
    /// registry and the context untouched, with the error the lowest
    /// failing frame would give.
    pub fn map_range(&mut self, ctx: &mut PagingContext, start: Frame, end: Frame) -> (r: Result<
        (),
        MemError,
    >)
        requires
            old(self).wf(),
            old(ctx).wf(),
            old(self).consistent_with(*old(ctx)),
            start.id() <= end.id(),
            end.id() < u64::MAX as int,
            forall|f: int|
                start.id() <= f <= end.id() ==> #[trigger] old(self).spec_count_of(f)
                    < u64::MAX as int,
        ensures
            final(self).wf(),
            final(ctx).wf(),
            final(self).consistent_with(*final(ctx)),
            r.is_ok() <==> range_blocker(*old(self), *old(ctx), start.id(), end.id()).is_none(),
            r.is_err() ==> *final(self) == *old(self) && *final(ctx) == *old(ctx) && ({
                let b = range_blocker(*old(self), *old(ctx), start.id(), end.id()).unwrap();
                &&& !old(self).spec_registered(b)
                &&& !mmap_allowed(old(ctx).spec_allocator().spec_map(), b, true) ==> r
                    == Err::<(), MemError>(MemError::UnsupportedRegionForMapping)
                &&& mmap_allowed(old(ctx).spec_allocator().spec_map(), b, true) ==> r
                    == Err::<(), MemError>(MemError::PageAlreadyMapped)
            }),
            r.is_ok() ==> range_map_step(
                *old(self),
                *old(ctx),
                *final(self),
                *final(ctx),
                start.id(),
                end.id(),
            ),
    {
        let ghost r0 = *self;
        let ghost c0 = *ctx;
        // Validate first: every frame of the range must be mappable.
        let mut f: u64 = start.number;
        while f <= end.number
            invariant
                start.number <= f,
                f <= end.number + 1,
                end.id() < u64::MAX as int,
                *self == *old(self),
                *ctx == *old(ctx),
                self.wf(),
                ctx.wf(),
                range_blocker(r0, c0, start.id(), end.id()) == range_blocker(
                    r0,
                    c0,
                    f as int,
                    end.id(),
                ),
                r0 == *old(self),
                c0 == *old(ctx),
                old(self).consistent_with(*old(ctx)),
            decreases end.number + 1 - f,
        {
            let ok = match self.find_entry(f) {
                Some(_) => true,
                None => {
                    let ty = ctx.allocator.get_frame_ty(Frame { number: f });
                    let allowed = match ty {
                        Some(MemoryRegionType::Reserved) => true,
                        Some(MemoryRegionType::FrameZero) => true,
                        Some(MemoryRegionType::KernelStack) => true,
                        _ => false,
                    };
                    if !allowed {
                        return Err(MemError::UnsupportedRegionForMapping);
                    }
                    if ctx.translate(Page { number: f }).is_some() {
                        return Err(MemError::PageAlreadyMapped);
                    }
                    true
                },
            };
            proof {
                assert(ok);
                assert(range_ok_at(r0, c0, f as int));
            }
            f = f + 1;
        }
        // Perform: every `map` of the range is now guaranteed to succeed.
        proof {
            lemma_blocker_none(r0, c0, start.id(), end.id());
        }
        let mut f: u64 = start.number;
        while f <= end.number
            invariant
                start.number <= f,
                f <= end.number + 1,
                end.id() < u64::MAX as int,
                self.wf(),
                ctx.wf(),
                self.consistent_with(*ctx),
                r0 == *old(self),
                c0 == *old(ctx),
                forall|g: int| start.id() <= g <= end.id() ==> range_ok_at(r0, c0, g),
                forall|g: int|
                    start.id() <= g <= end.id() ==> #[trigger] r0.spec_count_of(g)
                        < u64::MAX as int,
                forall|g: int|
                    start.id() <= g < f as int ==> #[trigger] self.spec_count_of(g)
                        == r0.spec_count_of(g) + 1,
                forall|g: int|
                    !(start.id() <= g < f as int) ==> #[trigger] self.spec_count_of(g)
                        == r0.spec_count_of(g),
                forall|g: int|
                    #[trigger] self.spec_registered(g) <==> (r0.spec_registered(g) || (start.id()
                        <= g < f as int)),
                forall|g: int|
                    #[trigger] r0.spec_registered(g) ==> self.spec_guard_flag(g)
                        == r0.spec_guard_flag(g),
                forall|g: int|
                    start.id() <= g < f as int && !r0.spec_registered(g)
                        ==> #[trigger] self.spec_guard_flag(g) == !c0.spec_allocator().spec_in_use(
                        g,
                    ),
                ctx.spec_allocator() == c0.spec_allocator(),
                forall|q: int|
                    #[trigger] ctx.spec_mapped(q) <==> (c0.spec_mapped(q) || (start.id() <= q
                        < f as int && !r0.spec_registered(q))),
                forall|q: int|
                    start.id() <= q < f as int && !r0.spec_registered(q)
                        ==> #[trigger] ctx.spec_frame_of(q) == q && ctx.spec_flags_of(q)
                        == mmap_flags(c0.spec_allocator().spec_map(), q),
                forall|q: int|
                    #[trigger] c0.spec_mapped(q) ==> ctx.spec_frame_of(q) == c0.spec_frame_of(q)
                        && ctx.spec_flags_of(q) == c0.spec_flags_of(q),
            decreases end.number + 1 - f,
        {
            let ghost r_mid = *self;
            let ghost c_mid = *ctx;
            proof {
                assert(range_ok_at(r0, c0, f as int));
            }
            match self.map(ctx, Frame { number: f }) {
                Ok(()) => {},
                Err(_) => {
                    // Unreachable: the whole range was validated above,
                    // and the frames already handled cannot block a later
                    // one.
                    proof {
                        assert(false);
                    }
                    return Err(MemError::UnsupportedRegionForMapping);
                },
            }
            proof {
                let fi = f as int;
                assert forall|g: int| #[trigger] r0.spec_registered(g) implies self.spec_guard_flag(
                    g,
                ) == r0.spec_guard_flag(g) by {
                    assert(r_mid.spec_registered(g));
                    assert(self.spec_guard_flag(g) == r_mid.spec_guard_flag(g));
                }
                assert forall|g: int|
                    start.id() <= g < fi + 1 && !r0.spec_registered(g) implies #[trigger] self.spec_guard_flag(
                    g,
                ) == !c0.spec_allocator().spec_in_use(g) by {
                    if g < fi {
                        assert(r_mid.spec_registered(g));
                        assert(self.spec_guard_flag(g) == r_mid.spec_guard_flag(g));
                    } else {
                        assert(!r_mid.spec_registered(g));
                        assert(self.spec_guard_flag(g) == !c_mid.spec_allocator().spec_in_use(g));
                    }
                }
                assert forall|g: int|
                    start.id() <= g < fi + 1 implies #[trigger] self.spec_count_of(g)
                    == r0.spec_count_of(g) + 1 by {
                    if g < fi {
                        assert(self.spec_count_of(g) == r_mid.spec_count_of(g));
                    } else {
                        assert(r_mid.spec_count_of(g) == r0.spec_count_of(g));
                    }
                }
                assert forall|q: int|
                    start.id() <= q < fi + 1 && !r0.spec_registered(q) implies
                    #[trigger] ctx.spec_frame_of(q) == q && ctx.spec_flags_of(q) == mmap_flags(
                    c0.spec_allocator().spec_map(),
                    q,
                ) by {
                    if q < fi {
                        assert(c_mid.spec_mapped(q));
                        assert(ctx.spec_frame_of(q) == c_mid.spec_frame_of(q)
                            && ctx.spec_flags_of(q) == c_mid.spec_flags_of(q));
                    } else {
                        if r_mid.spec_registered(q) {
                            assert(false);
                        }
                    }
                }
                assert forall|q: int| #[trigger] c0.spec_mapped(q) implies ctx.spec_frame_of(q)
                    == c0.spec_frame_of(q) && ctx.spec_flags_of(q) == c0.spec_flags_of(q) by {
                    assert(c_mid.spec_mapped(q));
                    assert(ctx.spec_frame_of(q) == c_mid.spec_frame_of(q) && ctx.spec_flags_of(q)
                        == c_mid.spec_flags_of(q));
                }
            }
            f = f + 1;
        }
        Ok(())
    }

    /// Whether frame `f` has an outstanding registry mapping.
    pub fn is_registered(&self, f: u64) -> (r: bool)
        requires
            self.wf(),
        ensures
            r == self.spec_registered(f as int),
    {
        self.find_entry(f).is_some()
    }

    /// How many outstanding requests cover frame `f`; zero when none.
    pub fn count_of(&self, f: u64) -> (r: u64)
        requires
            self.wf(),
        ensures
            r as int == self.spec_count_of(f as int),
    {
        match self.find_entry(f) {
            Some(i) => self.entries[i].count,
            None => 0,
        }
    }

    /// Finds the record for frame number `f`, if any.
    fn find_entry(&self, f: u64) -> (r: Option<usize>)
        requires
            self.wf(),
        ensures
            r.is_some() <==> self.spec_registered(f as int),
            r.is_some() ==> {
                &&& r.unwrap() < self.entries@.len()
                &&& self.entries@[r.unwrap() as int].frame == f
                &&& self.entry_index(f as int) == r.unwrap() as int
                &&& self.spec_count_of(f as int) == self.entries@[r.unwrap() as int].count as int
                &&& self.spec_guard_flag(f as int) == self.entries@[
                    r.unwrap() as int
                ].guard.spec_unmap_frame()
            },
    {
        let n = self.entries.len();
        let mut i: usize = 0;
        while i < n
            invariant
                i <= n,
                n == self.entries@.len(),
                self.wf(),
                forall|k: int| 0 <= k < i as int ==> (#[trigger] self.entries@[k]).frame != f,
            decreases n - i,
        {
            if self.entries[i].frame == f {
                proof {
                    self.lemma_entry_unique(f as int, i as int);
                }
                return Some(i);
            }
            i = i + 1;
        }
        None
    }

    /// With frames unique, any record whose frame is `f` is the one the
    /// lookup specs answer from.
    proof fn lemma_entry_unique(self, f: int, i: int)
        requires
            forall|k: int, l: int|
                0 <= k < l < self.entries@.len() ==> (#[trigger] self.entries@[k]).frame != (
                #[trigger] self.entries@[l]).frame,
            0 <= i < self.entries@.len(),
            self.entries@[i].frame as int == f,
        ensures
            self.spec_registered(f),
            self.entry_index(f) == i,
            self.spec_count_of(f) == self.entries@[i].count as int,
            self.spec_guard_flag(f) == self.entries@[i].guard.spec_unmap_frame(),
    {
        assert(self.spec_registered(f));
        let w = self.entry_index(f);
        assert(0 <= w < self.entries@.len() && self.entries@[w].frame as int == f);
        if w != i {
            if w < i {
                assert(self.entries@[w].frame != self.entries@[i].frame);
            } else {
                assert(self.entries@[i].frame != self.entries@[w].frame);
            }
            assert(false);
        }
    }

    /// Appending a record for an unregistered frame registers exactly it.
    proof fn lemma_push_effect(self, prev: MappingRegistry, entry: RegistryEntry)
        requires
            prev.wf(),
            !prev.spec_registered(entry.frame as int),
            self.entries@ == prev.entries@.push(entry),
            entry.count >= 1,
            entry.guard.spec_page().id() == entry.frame as int,
        ensures
            self.wf(),
            forall|g: int|
                #[trigger] self.spec_registered(g) <==> (prev.spec_registered(g) || g
                    == entry.frame as int),
            self.spec_count_of(entry.frame as int) == entry.count as int,
            self.spec_guard_flag(entry.frame as int) == entry.guard.spec_unmap_frame(),
            forall|g: int|
                g != entry.frame as int ==> #[trigger] self.spec_count_of(g) == prev.spec_count_of(
                    g,
                ),
            forall|g: int|
                #[trigger] prev.spec_registered(g) ==> self.spec_guard_flag(g)
                    == prev.spec_guard_flag(g),
    {
        let n = prev.entries@.len() as int;
        assert forall|i: int, j: int| 0 <= i < j < self.entries@.len() implies (
        #[trigger] self.entries@[i]).frame != (#[trigger] self.entries@[j]).frame by {
            if j == n {
                assert(prev.entries@[i].frame as int != entry.frame as int);
            }
        }
        assert forall|g: int| #[trigger] self.spec_registered(g) implies (prev.spec_registered(g)
            || g == entry.frame as int) by {
            let i = choose|i: int|
                0 <= i < self.entries@.len() && (#[trigger] self.entries@[i]).frame as int == g;
            if i < n {
                assert(prev.entries@[i].frame as int == g);
            }
        }
        assert forall|g: int| prev.spec_registered(g) implies #[trigger] self.spec_registered(
            g,
        ) by {
            let i = choose|i: int|
                0 <= i < prev.entries@.len() && (#[trigger] prev.entries@[i]).frame as int == g;
            assert(self.entries@[i].frame as int == g);
        }
        assert(self.entries@[n].frame as int == entry.frame as int);
        self.lemma_entry_unique(entry.frame as int, n);
        assert forall|g: int| g != entry.frame as int implies #[trigger] self.spec_count_of(g)
            == prev.spec_count_of(g) by {
            if prev.spec_registered(g) {
                let i = prev.entry_index(g);
                assert(0 <= i < n && prev.entries@[i].frame as int == g);
                assert(self.entries@[i].frame as int == g);
                self.lemma_entry_unique(g, i);
                prev.lemma_entry_unique(g, i);
            }
        }
        assert forall|g: int| #[trigger] prev.spec_registered(g) implies self.spec_guard_flag(g)
            == prev.spec_guard_flag(g) by {
            let i = prev.entry_index(g);
            assert(0 <= i < n && prev.entries@[i].frame as int == g);
            assert(self.entries@[i].frame as int == g);
            self.lemma_entry_unique(g, i);
            prev.lemma_entry_unique(g, i);
        }
    }

    /// Removing the record at `i` unregisters exactly its frame.
    proof fn lemma_remove_effect(self, prev: MappingRegistry, i: int)
        requires
            prev.wf(),
            0 <= i < prev.entries@.len(),
            self.entries@ == prev.entries@.remove(i),
        ensures
            self.wf(),
            forall|g: int|
                #[trigger] self.spec_registered(g) <==> (prev.spec_registered(g) && g
                    != prev.entries@[i].frame as int),
            forall|g: int|
                g != prev.entries@[i].frame as int ==> #[trigger] self.spec_count_of(g)
                    == prev.spec_count_of(g),
            forall|g: int|
                #[trigger] prev.spec_registered(g) && g != prev.entries@[i].frame as int
                    ==> self.spec_guard_flag(g) == prev.spec_guard_flag(g),
    {
        let p = prev.entries@[i].frame as int;
        let n = prev.entries@.len() as int;
        prev.entries@.remove_ensures(i);
        assert forall|k: int, l: int| 0 <= k < l < self.entries@.len() implies (
        #[trigger] self.entries@[k]).frame != (#[trigger] self.entries@[l]).frame by {
            let k0 = if k < i {
                k
            } else {
                k + 1
            };
            let l0 = if l < i {
                l
            } else {
                l + 1
            };
            assert(self.entries@[k] == prev.entries@[k0]);
            assert(self.entries@[l] == prev.entries@[l0]);
        }
        assert forall|k: int| 0 <= k < self.entries@.len() implies (
        #[trigger] self.entries@[k]).count >= 1 && self.entries@[k].guard.spec_page().id()
            == self.entries@[k].frame as int by {
            let k0 = if k < i {
                k
            } else {
                k + 1
            };
            assert(self.entries@[k] == prev.entries@[k0]);
        }
        assert forall|g: int| #[trigger] self.spec_registered(g) implies (prev.spec_registered(g)
            && g != p) by {
            let k = choose|k: int|
                0 <= k < self.entries@.len() && (#[trigger] self.entries@[k]).frame as int == g;
            let k0 = if k < i {
                k
            } else {
                k + 1
            };
            assert(self.entries@[k] == prev.entries@[k0]);
            assert(prev.entries@[k0].frame as int == g);
            if g == p {
                assert(prev.entries@[k0].frame == prev.entries@[i].frame);
                assert(k0 == i);
                assert(false);
            }
        }
        assert forall|g: int| #[trigger] prev.spec_registered(g) && g != p implies
            self.spec_registered(g) && self.spec_count_of(g) == prev.spec_count_of(g)
            && self.spec_guard_flag(g) == prev.spec_guard_flag(g) by {
            let k0 = prev.entry_index(g);
            assert(0 <= k0 < n && prev.entries@[k0].frame as int == g);
            assert(k0 != i);
            let k = if k0 < i {
                k0
            } else {
                k0 - 1
            };
            assert(self.entries@[k] == prev.entries@[k0]);
            assert(self.entries@[k].frame as int == g);
            self.lemma_entry_unique(g, k);
            prev.lemma_entry_unique(g, k0);
        }
        assert forall|g: int| g != p implies #[trigger] self.spec_count_of(g)
            == prev.spec_count_of(g) by {
            if !prev.spec_registered(g) {
                assert(!self.spec_registered(g));
            }
        }
    }
}

} // verus!
