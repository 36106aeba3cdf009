//! Physical-memory and address-space management: the frame allocator, the
//! paging context that serializes page-table mutation, and the
//! reference-counted identity-mapping registry.

use vstd::prelude::*;
use vstd::seq_lib::*;
use crate::MemError;
use crate::memory::addr::{
    Frame, Page, FLAG_NO_CACHE, FLAG_PRESENT, FLAG_WRITABLE, FLAG_WRITE_THROUGH, PAGE_SIZE,
};
use crate::memory::memmap::{MemoryMap, MemoryRegionType};
use crate::memory::frame_allocator::global::{
    alloc_seq, allocation_run, free_count_from, lemma_alloc_seq_len, lemma_allocation_run_snoc,
    lemma_free_count_after_alloc, lemma_free_count_pos, lemma_ty_of_some_contained,
    GlobalFrameAllocator,
};

pub mod addr;
pub mod frame_allocator;
pub mod memmap;
pub mod registry;

verus! {

/// The flags every device mapping carries: present, with caching disabled
/// and writes pushed through, as MMIO requires.
pub open spec fn mmio_base_flags() -> u64 {
    FLAG_PRESENT | FLAG_NO_CACHE | FLAG_WRITE_THROUGH
}

/// Whether the mapping policy lets `mmap_dev` identity-map frame `f`:
/// reserved and zero-page regions always, the kernel-stack region only for
/// the ACPI discovery workaround, and nothing else — general usable RAM is
/// never an MMIO target.
pub open spec fn mmap_allowed(m: MemoryMap, f: int, acpi: bool) -> bool {
    match m.ty_of(f) {
        Some(MemoryRegionType::Reserved) => true,
        Some(MemoryRegionType::FrameZero) => true,
        Some(MemoryRegionType::KernelStack) => acpi,
        _ => false,
    }
}

/// The page-table flags `mmap_dev` installs for frame `f`: the MMIO base
/// flags, writable except on the kernel-stack workaround path.
pub open spec fn mmap_flags(m: MemoryMap, f: int) -> u64 {
    match m.ty_of(f) {
        Some(MemoryRegionType::KernelStack) => mmio_base_flags(),
        _ => mmio_base_flags() | FLAG_WRITABLE,
    }
}

/// What the page-fault handler can report about a faulting address.
#[derive(Clone, Copy, Debug, PartialEq, Eq, Structural)]
pub enum FaultDiagnostic {
    /// The paging lock was contended; the diagnostic is omitted rather
    /// than risking a deadlock against the interrupted lock holder.
    Unknown,
    /// The faulting page has no mapping installed.
    NotMapped,
    /// The faulting page is mapped to this frame with these flags.
    Mapped(Frame, u64),
}

/// The best-effort, non-blocking diagnostic for a page fault at `addr`:
/// the caller hands in the paging context only if it won the try-lock,
/// and `None` degrades to `Unknown` instead of blocking, because the
/// fault may have struck while the lock's owner was itself mid-mapping.
pub fn fault_diagnostic(ctx: Option<&PagingContext>, addr: u64) -> (r: FaultDiagnostic)
    requires
        ctx.is_some() ==> ctx.unwrap().wf(),
    ensures
        ctx.is_none() ==> r == FaultDiagnostic::Unknown,
        ctx.is_some() ==> {
            let c = *ctx.unwrap();
            let p = addr as int / PAGE_SIZE as int;
            &&& !c.spec_mapped(p) ==> r == FaultDiagnostic::NotMapped
            &&& c.spec_mapped(p) ==> (r matches FaultDiagnostic::Mapped(f, fl) && f.id()
                == c.spec_frame_of(p) && fl == c.spec_flags_of(p))
        },
{
    match ctx {
        None => FaultDiagnostic::Unknown,
        Some(c) => {
            let page = Page::containing_address(addr);
            match c.translate(page) {
                None => FaultDiagnostic::NotMapped,
                Some((frame, flags)) => FaultDiagnostic::Mapped(frame, flags),
            }
        },
    }
}

/// A value representing one outstanding device mapping. Consuming it
/// through `PagingContext::release` performs the unmap exactly once; the
/// flag records whether releasing must also hand the backing frame to the
/// frame allocator.
pub struct UnmapGuard {
    page: Page,
    unmap_frame: bool,
}

impl UnmapGuard {
    /// The virtual page the guard stands for.
    pub closed spec fn spec_page(self) -> Page {
        self.page
    }

    /// Whether releasing the guard also deallocates the backing frame:
    /// set exactly when the frame was not already counted in use when the
    /// mapping was made.
    pub closed spec fn spec_unmap_frame(self) -> bool {
        self.unmap_frame
    }

    /// The virtual page the guard stands for.
    pub fn page(&self) -> (r: Page)
        ensures
            r == self.spec_page(),
    {
        self.page
    }

    /// Whether releasing the guard also deallocates the backing frame.
    pub fn must_deallocate(&self) -> (r: bool)
        ensures
            r == self.spec_unmap_frame(),
    {
        self.unmap_frame
    }
}

/// One installed mapping: a virtual page, the physical frame backing it,
/// and its page-table flags.
#[derive(Clone, Copy, Debug, PartialEq, Eq, Structural)]
struct MappingEntry {
    page: u64,
    frame: u64,
    flags: u64,
}

/// The paging context: the active page-table mapper paired with the frame
/// allocator. The mapper is modelled as the set of installed 4 KiB
/// mappings; backing storage for intermediate page-table nodes belongs to
/// the hardware layer that mirrors this model. All mutating access is
/// meant to be serialized by the one lock its owner wraps it in.
pub struct PagingContext {
    mappings: Vec<MappingEntry>,
    pub allocator: GlobalFrameAllocator,
}

impl PagingContext {
    /// The frame allocator the context owns.
    pub closed spec fn spec_allocator(self) -> GlobalFrameAllocator {
        self.allocator
    }

    /// Whether virtual page `p` currently has a mapping installed.
    pub closed spec fn spec_mapped(self, p: int) -> bool {
        exists|i: int|
            0 <= i < self.mappings@.len() && (#[trigger] self.mappings@[i]).page as int == p
    }

    /// The index of page `p`'s entry in the mapping table.
    closed spec fn entry_index(self, p: int) -> int {
        choose|i: int|
            0 <= i < self.mappings@.len() && (#[trigger] self.mappings@[i]).page as int == p
    }

    /// The frame number backing page `p`.
    pub closed spec fn spec_frame_of(self, p: int) -> int {
        self.mappings@[self.entry_index(p)].frame as int
    }

    /// The flags page `p` is mapped with.
    pub closed spec fn spec_flags_of(self, p: int) -> u64 {
        self.mappings@[self.entry_index(p)].flags
    }

    /// Well-formedness: a healthy allocator, and at most one mapping per
    /// virtual page.
    pub closed spec fn wf(self) -> bool {
        &&& self.allocator.wf()
        &&& forall|i: int, j: int|
            0 <= i < j < self.mappings@.len() ==> (#[trigger] self.mappings@[i]).page != (
            #[trigger] self.mappings@[j]).page
    }

    /// A paging context over the given allocator, with no mappings
    /// installed yet. Created exactly once, after the boot stage hands
    /// over; its owner publishes it behind a one-time-initialization guard
    /// and a lock.
    pub fn new(allocator: GlobalFrameAllocator) -> (r: PagingContext)
        requires
            allocator.wf(),
        ensures
            r.wf(),
            r.spec_allocator() == allocator,
            forall|p: int| !r.spec_mapped(p),
    {
        PagingContext { mappings: Vec::new(), allocator }
    }

    /// Finds the entry for page `p`, if any.
    fn find_index(&self, p: u64) -> (r: Option<usize>)
        requires
            self.wf(),
        ensures
            r.is_some() <==> self.spec_mapped(p as int),
            r.is_some() ==> {
                &&& r.unwrap() < self.mappings@.len()
                &&& self.mappings@[r.unwrap() as int].page == p
                &&& self.entry_index(p as int) == r.unwrap() as int
                &&& self.spec_frame_of(p as int) == self.mappings@[r.unwrap() as int].frame as int
                &&& self.spec_flags_of(p as int) == self.mappings@[r.unwrap() as int].flags
            },
    {
        let n = self.mappings.len();
        let mut i: usize = 0;
        while i < n
            invariant
                i <= n,
                n == self.mappings@.len(),
                self.wf(),
                forall|k: int| 0 <= k < i as int ==> (#[trigger] self.mappings@[k]).page != p,
            decreases n - i,
        {
            if self.mappings[i].page == p {
                proof {
                    let w = self.entry_index(p as int);
                    assert(0 <= w < self.mappings@.len() && self.mappings@[w].page as int
                        == p as int);
                    assert(w == i as int);
                }
                return Some(i);
            }
            i = i + 1;
        }
        None
    }

    /// Whether page `p` currently has a mapping; its frame and flags when
    /// it does. The read-only diagnostic path of the page-fault handler.
    pub fn translate(&self, page: Page) -> (r: Option<(Frame, u64)>)
        requires
            self.wf(),
        ensures
            r.is_some() <==> self.spec_mapped(page.id()),
            r.is_some() ==> r.unwrap().0.id() == self.spec_frame_of(page.id()) && r.unwrap().1
                == self.spec_flags_of(page.id()),
    {
        match self.find_index(page.number) {
            Some(i) => {
                let e = self.mappings[i];
                Some((Frame { number: e.frame }, e.flags))
            },
            None => None,
        }
    }

    /// Installs a mapping of `page` to `frame` with the given flags.
    /// `PageAlreadyMapped` — a programming error, callers bypassing the
    /// registry — exactly when the page has a mapping, leaving the context
    /// unchanged.
    pub fn map_to(&mut self, page: Page, frame: Frame, flags: u64) -> (r: Result<(), MemError>)
        requires
            old(self).wf(),
        ensures
            final(self).wf(),
            final(self).spec_allocator() == old(self).spec_allocator(),
            r.is_ok() <==> !old(self).spec_mapped(page.id()),
            r.is_err() ==> r == Err::<(), MemError>(MemError::PageAlreadyMapped) && *final(self)
                == *old(self),
            r.is_ok() ==> {
                &&& forall|q: int|
                    #[trigger] final(self).spec_mapped(q) <==> (old(self).spec_mapped(q) || q
                        == page.id())
                &&& final(self).spec_frame_of(page.id()) == frame.id()
                &&& final(self).spec_flags_of(page.id()) == flags
                &&& forall|q: int|
                    old(self).spec_mapped(q)
                        ==> #[trigger] final(self).spec_frame_of(q) == old(self).spec_frame_of(q)
                        && final(self).spec_flags_of(q) == old(self).spec_flags_of(q)
            },
    {
        match self.find_index(page.number) {
            Some(_) => Err(MemError::PageAlreadyMapped),
            None => {
                let entry = MappingEntry { page: page.number, frame: frame.number, flags };
                self.mappings.push(entry);
                proof {
                    self.lemma_push_effect(*old(self), entry);
                }
                Ok(())
            },
        }
    }

    /// Maps virtual = physical for one frame with the requested flags.
    pub fn identity_map(&mut self, frame: Frame, flags: u64) -> (r: Result<(), MemError>)
        requires
            old(self).wf(),
        ensures
            final(self).wf(),
            final(self).spec_allocator() == old(self).spec_allocator(),
            r.is_ok() <==> !old(self).spec_mapped(frame.id()),
            r.is_err() ==> r == Err::<(), MemError>(MemError::PageAlreadyMapped) && *final(self)
                == *old(self),
            r.is_ok() ==> {
                &&& forall|q: int|
                    #[trigger] final(self).spec_mapped(q) <==> (old(self).spec_mapped(q) || q
                        == frame.id())
                &&& final(self).spec_frame_of(frame.id()) == frame.id()
                &&& final(self).spec_flags_of(frame.id()) == flags
                &&& forall|q: int|
                    old(self).spec_mapped(q)
                        ==> #[trigger] final(self).spec_frame_of(q) == old(self).spec_frame_of(q)
                        && final(self).spec_flags_of(q) == old(self).spec_flags_of(q)
            },
    {
        self.map_to(Page { number: frame.number }, frame, flags)
    }

    /// Removes the mapping of `page` and returns the frame that was
    /// backing it; the caller decides whether to deallocate it.
    /// `UnmapOfUnmappedPage` — a double release — exactly when the page
    /// has no mapping, leaving the context unchanged.
    pub fn unmap(&mut self, page: Page) -> (r: Result<Frame, MemError>)
        requires
            old(self).wf(),
        ensures
            final(self).wf(),
            final(self).spec_allocator() == old(self).spec_allocator(),
            r.is_ok() <==> old(self).spec_mapped(page.id()),
            r.is_err() ==> r == Err::<Frame, MemError>(MemError::UnmapOfUnmappedPage)
                && *final(self) == *old(self),
            r.is_ok() ==> {
                &&& r.unwrap().id() == old(self).spec_frame_of(page.id())
                &&& forall|q: int|
                    #[trigger] final(self).spec_mapped(q) <==> (old(self).spec_mapped(q) && q
                        != page.id())
                &&& forall|q: int|
                    #[trigger] old(self).spec_mapped(q) && q != page.id()
                        ==> final(self).spec_frame_of(q) == old(self).spec_frame_of(q)
                        && final(self).spec_flags_of(q) == old(self).spec_flags_of(q)
            },
    {
        match self.find_index(page.number) {
            None => Err(MemError::UnmapOfUnmappedPage),
            Some(i) => {
                let e = self.mappings.remove(i);
                proof {
                    self.lemma_remove_effect(*old(self), i as int);
                    assert(old(self).mappings@[i as int].page as int == page.id());
                    assert(forall|q: int|
                        #[trigger] self.spec_mapped(q) <==> (old(self).spec_mapped(q) && q
                            != page.id()));
                    assert(forall|q: int|
                        #[trigger] old(self).spec_mapped(q) && q != page.id()
                            ==> self.spec_frame_of(q) == old(self).spec_frame_of(q)
                            && self.spec_flags_of(q) == old(self).spec_flags_of(q));
                }
                Ok(Frame { number: e.frame })
            },
        }
    }

    /// Identity-maps a frame for a memory-mapped device, with
    /// caching-disabled, write-through flags. The region classification
    /// decides the policy: reserved and zero-page frames map writable, the
    /// kernel-stack region maps read-only and only for the ACPI discovery
    /// workaround, and everything else — general usable RAM above all —
    /// is refused with `UnsupportedRegionForMapping`. The returned guard
    /// records whether releasing the mapping must also deallocate the
    /// frame: exactly when the frame was not already counted in use.
    pub fn mmap_dev(&mut self, frame: Frame, acpi: bool) -> (r: Result<UnmapGuard, MemError>)
        requires
            old(self).wf(),
        ensures
            final(self).wf(),
            final(self).spec_allocator() == old(self).spec_allocator(),
            r.is_ok() <==> (mmap_allowed(old(self).spec_allocator().spec_map(), frame.id(), acpi)
                && !old(self).spec_mapped(frame.id())),
            !mmap_allowed(old(self).spec_allocator().spec_map(), frame.id(), acpi) ==> r
                == Err::<UnmapGuard, MemError>(MemError::UnsupportedRegionForMapping),
            mmap_allowed(old(self).spec_allocator().spec_map(), frame.id(), acpi) && old(
                self,
            ).spec_mapped(frame.id()) ==> r == Err::<UnmapGuard, MemError>(
                MemError::PageAlreadyMapped,
            ),
            r.is_err() ==> *final(self) == *old(self),
            r.is_ok() ==> {
                &&& r.unwrap().spec_page().id() == frame.id()
                &&& r.unwrap().spec_unmap_frame() == !old(self).spec_allocator().spec_in_use(
                    frame.id(),
                )
                &&& forall|q: int|
                    #[trigger] final(self).spec_mapped(q) <==> (old(self).spec_mapped(q) || q
                        == frame.id())
                &&& final(self).spec_frame_of(frame.id()) == frame.id()
                &&& final(self).spec_flags_of(frame.id()) == mmap_flags(
                    old(self).spec_allocator().spec_map(),
                    frame.id(),
                )
                &&& forall|q: int|
                    #[trigger] old(self).spec_mapped(q)
                        ==> final(self).spec_frame_of(q) == old(self).spec_frame_of(q)
                        && final(self).spec_flags_of(q) == old(self).spec_flags_of(q)
            },
    {
        let ghost m = self.allocator.spec_map();
        let ty = self.allocator.get_frame_ty(frame);
        let base = FLAG_PRESENT | FLAG_NO_CACHE | FLAG_WRITE_THROUGH;
        let flags: u64 = match ty {
            Some(MemoryRegionType::Reserved) => base | FLAG_WRITABLE,
            Some(MemoryRegionType::FrameZero) => base | FLAG_WRITABLE,
            Some(MemoryRegionType::KernelStack) => {
                if acpi {
                    base
                } else {
                    return Err(MemError::UnsupportedRegionForMapping);
                }
            },
            _ => {
                return Err(MemError::UnsupportedRegionForMapping);
            },
        };
        proof {
            assert(flags == mmap_flags(m, frame.id()));
            // A classified frame lies in some region of the map, so its
            // number is below the tracked frame count.
            self.allocator.lemma_wf_consequences();
            lemma_ty_of_some_contained(m, frame.id(), 0);
            let c = choose|c: int|
                0 <= c < m.regions().len() && (#[trigger] m.regions()[c]).spec_contains(frame.id())
                    && m.regions()[c].region_type == m.ty_of_from(frame.id(), 0).unwrap();
            assert(m.regions()[c].end_frame <= m.regions()[m.regions().len() - 1].end_frame);
        }
        let in_use = self.allocator.frame_in_use(frame);
        match self.identity_map(frame, flags) {
            Ok(()) => Ok(
                UnmapGuard { page: Page { number: frame.number }, unmap_frame: !in_use },
            ),
            Err(e) => Err(e),
        }
    }

    /// Releases an outstanding device mapping: unmaps the guard's page
    /// and, exactly when the guard says the frame was borrowed from the
    /// general pool, hands the backing frame to the frame allocator.
    /// `UnmapOfUnmappedPage` — a double release — when the page has no
    /// mapping, leaving the context unchanged.
    pub fn release(&mut self, guard: UnmapGuard) -> (r: Result<(), MemError>)
        requires
            old(self).wf(),
        ensures
            final(self).wf(),
            r.is_ok() <==> old(self).spec_mapped(guard.spec_page().id()),
            r.is_err() ==> r == Err::<(), MemError>(MemError::UnmapOfUnmappedPage)
                && *final(self) == *old(self),
            r.is_ok() ==> {
                let p = guard.spec_page().id();
                let f = old(self).spec_frame_of(p);
                &&& forall|q: int|
                    #[trigger] final(self).spec_mapped(q) <==> (old(self).spec_mapped(q) && q != p)
                &&& forall|q: int|
                    #[trigger] old(self).spec_mapped(q) && q != p
                        ==> final(self).spec_frame_of(q) == old(self).spec_frame_of(q)
                        && final(self).spec_flags_of(q) == old(self).spec_flags_of(q)
                &&& final(self).spec_allocator().spec_map() == old(self).spec_allocator().spec_map()
                &&& final(self).spec_allocator().cursor() == old(self).spec_allocator().cursor()
                &&& if guard.spec_unmap_frame() && 0 <= f < old(
                    self,
                ).spec_allocator().spec_frame_count() {
                    forall|g: int|
                        0 <= g < old(self).spec_allocator().spec_frame_count() ==> (
                        #[trigger] final(self).spec_allocator().spec_in_use(g) <==> (old(
                            self,
                        ).spec_allocator().spec_in_use(g) && g != f))
                } else {
                    final(self).spec_allocator() == old(self).spec_allocator()
                }
            },
    {
        match self.unmap(guard.page) {
            Err(e) => Err(e),
            Ok(frame) => {
                let ghost mid = *self;
                if guard.unmap_frame && frame.number < self.allocator.frame_count() {
                    self.allocator.deallocate_frame(frame);
                }
                proof {
                    self.lemma_same_mappings(mid);
                }
                Ok(())
            },
        }
    }

    /// Maps the contiguous run of `count` virtual pages starting at
    /// `start_page` to freshly allocated frames, used for heap and stack
    /// setup. Validation comes first, so a failed request leaves the
    /// context untouched: `PageAlreadyMapped` when some page of the run
    /// already has a mapping, else `FrameExhausted` when the allocator
    /// cannot serve `count` frames.
    pub fn map_range(&mut self, start_page: Page, count: u64, flags: u64) -> (r: Result<
        (),
        MemError,
    >)
        requires
            old(self).wf(),
            start_page.id() + count as int <= u64::MAX as int,
        ensures
            final(self).wf(),
            r.is_err() ==> *final(self) == *old(self),
            (r == Err::<(), MemError>(MemError::PageAlreadyMapped)) <==> exists|k: int|
                0 <= k < count as int && #[trigger] old(self).spec_mapped(start_page.id() + k),
            (r == Err::<(), MemError>(MemError::FrameExhausted)) <==> ((forall|k: int|
                0 <= k < count as int ==> !(#[trigger] old(self).spec_mapped(start_page.id() + k)))
                && free_count_from(
                old(self).spec_allocator().spec_map(),
                old(self).spec_allocator().bits(),
                old(self).spec_allocator().cursor(),
            ) < count as int),
            r.is_ok() <==> ((forall|k: int|
                0 <= k < count as int ==> !(#[trigger] old(self).spec_mapped(start_page.id() + k)))
                && free_count_from(
                old(self).spec_allocator().spec_map(),
                old(self).spec_allocator().bits(),
                old(self).spec_allocator().cursor(),
            ) >= count as int),
            r.is_ok() ==> ({
                let fs = alloc_seq(
                    old(self).spec_allocator().spec_map(),
                    old(self).spec_allocator().bits(),
                    old(self).spec_allocator().cursor(),
                    count as nat,
                );
                &&& allocation_run(old(self).spec_allocator(), final(self).spec_allocator(), fs)
                &&& forall|k: int|
                    0 <= k < count as int ==> #[trigger] final(self).spec_frame_of(
                        start_page.id() + k,
                    ) == fs[k] && final(self).spec_flags_of(start_page.id() + k) == flags
                &&& forall|q: int|
                    #[trigger] final(self).spec_mapped(q) <==> (old(self).spec_mapped(q) || (
                    start_page.id() <= q < start_page.id() + count as int))
                &&& forall|q: int|
                    #[trigger] old(self).spec_mapped(q)
                        ==> final(self).spec_frame_of(q) == old(self).spec_frame_of(q)
                        && final(self).spec_flags_of(q) == old(self).spec_flags_of(q)
            }),
    {
        let ghost a0 = self.allocator;
        let ghost m = self.allocator.spec_map();
        let ghost bits0 = self.allocator.bits();
        let ghost c0 = self.allocator.cursor();
        let ghost fs = alloc_seq(m, bits0, c0, count as nat);
        // Validate first: every page of the run must be unmapped.
        let mut k: u64 = 0;
        while k < count
            invariant
                k <= count,
                *self == *old(self),
                self.wf(),
                start_page.id() + count as int <= u64::MAX as int,
                forall|j: int|
                    0 <= j < k as int ==> !(#[trigger] self.spec_mapped(start_page.id() + j)),
            decreases count - k,
        {
            if self.find_index(start_page.number + k).is_some() {
                return Err(MemError::PageAlreadyMapped);
            }
            k = k + 1;
        }
        // Validate next: the allocator must be able to serve the run.
        let free = self.allocator.count_free();
        if free < count {
            return Err(MemError::FrameExhausted);
        }
        // Install the run; every step is now guaranteed to succeed.
        proof {
            self.allocator.lemma_wf_consequences();
            lemma_alloc_seq_len(m, bits0, c0, count as nat);
        }
        let mut k: u64 = 0;
        while k < count
            invariant
                k <= count,
                self.wf(),
                start_page.id() + count as int <= u64::MAX as int,
                m == self.allocator.spec_map(),
                fs == alloc_seq(m, bits0, c0, count as nat),
                fs.len() == count as int,
                fs.skip(k as int) == alloc_seq(
                    m,
                    self.allocator.bits(),
                    self.allocator.cursor(),
                    (count - k) as nat,
                ),
                free_count_from(m, self.allocator.bits(), self.allocator.cursor()) == free as int
                    - k as int,
                free as int >= count as int,
                0 <= self.allocator.cursor(),
                allocation_run(a0, self.allocator, fs.take(k as int)),
                a0 == old(self).spec_allocator(),
                forall|j: int|
                    0 <= j < count as int ==> !(#[trigger] old(self).spec_mapped(
                        start_page.id() + j,
                    )),
                forall|q: int|
                    #[trigger] self.spec_mapped(q) <==> (old(self).spec_mapped(q) || (
                    start_page.id() <= q < start_page.id() + k as int)),
                forall|j: int|
                    0 <= j < k as int ==> #[trigger] self.spec_frame_of(start_page.id() + j)
                        == fs[j] && self.spec_flags_of(start_page.id() + j) == flags,
                forall|q: int|
                    #[trigger] old(self).spec_mapped(q)
                        ==> self.spec_frame_of(q) == old(self).spec_frame_of(q)
                        && self.spec_flags_of(q) == old(self).spec_flags_of(q),
            decreases count - k,
        {
            let ghost s_head = *self;
            let ghost a_before = self.allocator;
            proof {
                lemma_free_count_pos(m, self.allocator.bits(), self.allocator.cursor());
                self.allocator.lemma_wf_consequences();
            }
            let frame = match self.allocator.allocate_frame() {
                Some(frame) => frame,
                None => {
                    // Unreachable: the free-count check above guarantees a
                    // frame for every step of the run.
                    proof {
                        assert(false);
                    }
                    return Err(MemError::FrameExhausted);
                },
            };
            proof {
                assert(fs.skip(k as int)[0] == frame.id());
                assert(fs[k as int] == frame.id());
                lemma_free_count_after_alloc(m, a_before.bits(), a_before.cursor());
                assert(fs.skip(k as int).drop_first() =~= fs.skip(k as int + 1));
                lemma_allocation_run_snoc(
                    a0,
                    a_before,
                    self.allocator,
                    fs.take(k as int),
                    frame.id(),
                );
                assert(fs.take(k as int).push(fs[k as int]) =~= fs.take(k as int + 1));
            }
            proof {
                self.lemma_same_mappings(s_head);
            }
            let ghost s_mid = *self;
            let page = Page { number: start_page.number + k };
            match self.map_to(page, frame, flags) {
                Ok(()) => {},
                Err(_) => {
                    // Unreachable: the pages of the run were all checked
                    // unmapped, and the run maps each page once.
                    proof {
                        assert(false);
                    }
                    return Err(MemError::PageAlreadyMapped);
                },
            }
            proof {
                assert forall|j: int| 0 <= j < k as int + 1 implies #[trigger] self.spec_frame_of(
                    start_page.id() + j,
                ) == fs[j] && self.spec_flags_of(start_page.id() + j) == flags by {
                    if j < k as int {
                        assert(s_head.spec_mapped(start_page.id() + j));
                        assert(s_mid.spec_mapped(start_page.id() + j));
                        assert(s_mid.spec_frame_of(start_page.id() + j) == fs[j]
                            && s_mid.spec_flags_of(start_page.id() + j) == flags);
                    } else {
                        assert(self.spec_frame_of(page.id()) == frame.id());
                    }
                }
            }
            k = k + 1;
        }
        proof {
            assert(fs.take(count as int) =~= fs);
        }
        Ok(())
    }

    /// Two contexts with the same mapping table agree on every lookup,
    /// whatever their allocators hold.
    proof fn lemma_same_mappings(self, other: PagingContext)
        requires
            self.mappings@ == other.mappings@,
            forall|i: int, j: int|
                0 <= i < j < self.mappings@.len() ==> (#[trigger] self.mappings@[i]).page != (
                #[trigger] self.mappings@[j]).page,
        ensures
            forall|q: int| #[trigger] self.spec_mapped(q) == other.spec_mapped(q),
            forall|q: int|
                #[trigger] other.spec_mapped(q) ==> self.spec_frame_of(q) == other.spec_frame_of(q)
                    && self.spec_flags_of(q) == other.spec_flags_of(q),
    {
        assert forall|q: int| #[trigger] self.spec_mapped(q) == other.spec_mapped(q) by {
            if self.spec_mapped(q) {
                let i = choose|i: int|
                    0 <= i < self.mappings@.len() && (#[trigger] self.mappings@[i]).page as int
                        == q;
                assert(other.mappings@[i].page as int == q);
            }
            if other.spec_mapped(q) {
                let i = choose|i: int|
                    0 <= i < other.mappings@.len() && (#[trigger] other.mappings@[i]).page as int
                        == q;
                assert(self.mappings@[i].page as int == q);
            }
        }
        assert forall|q: int| #[trigger] other.spec_mapped(q) implies self.spec_frame_of(q)
            == other.spec_frame_of(q) && self.spec_flags_of(q) == other.spec_flags_of(q) by {
            let i = choose|i: int|
                0 <= i < other.mappings@.len() && (#[trigger] other.mappings@[i]).page as int == q;
            assert(self.mappings@[i].page as int == q);
            self.lemma_entry_unique(q, i);
            other.lemma_entry_unique(q, i);
        }
    }

    /// Appending an entry for an unmapped page adds exactly that mapping.
    proof fn lemma_push_effect(self, prev: PagingContext, entry: MappingEntry)
        requires
            prev.wf(),
            !prev.spec_mapped(entry.page as int),
            self.mappings@ == prev.mappings@.push(entry),
            self.allocator == prev.allocator,
        ensures
            self.wf(),
            forall|q: int|
                #[trigger] self.spec_mapped(q) <==> (prev.spec_mapped(q) || q == entry.page as int),
            self.spec_frame_of(entry.page as int) == entry.frame as int,
            self.spec_flags_of(entry.page as int) == entry.flags,
            forall|q: int|
                prev.spec_mapped(q) ==> #[trigger] self.spec_frame_of(q) == prev.spec_frame_of(q)
                    && self.spec_flags_of(q) == prev.spec_flags_of(q),
    {
        let n = prev.mappings@.len() as int;
        assert forall|i: int, j: int| 0 <= i < j < self.mappings@.len() implies (
        #[trigger] self.mappings@[i]).page != (#[trigger] self.mappings@[j]).page by {
            if j < n {
            } else {
                assert(self.mappings@[j] == entry);
                assert(prev.mappings@[i].page as int != entry.page as int);
            }
        }
        assert forall|q: int| #[trigger] self.spec_mapped(q) implies (prev.spec_mapped(q) || q
            == entry.page as int) by {
            let i = choose|i: int|
                0 <= i < self.mappings@.len() && (#[trigger] self.mappings@[i]).page as int == q;
            if i < n {
                assert(prev.mappings@[i].page as int == q);
            }
        }
        assert forall|q: int| prev.spec_mapped(q) implies #[trigger] self.spec_mapped(q) by {
            let i = choose|i: int|
                0 <= i < prev.mappings@.len() && (#[trigger] prev.mappings@[i]).page as int == q;
            assert(self.mappings@[i].page as int == q);
        }
        assert(self.mappings@[n].page as int == entry.page as int);
        assert(self.spec_mapped(entry.page as int));
        self.lemma_entry_unique(entry.page as int, n);
        assert forall|q: int| prev.spec_mapped(q) implies #[trigger] self.spec_frame_of(q)
            == prev.spec_frame_of(q) && self.spec_flags_of(q) == prev.spec_flags_of(q) by {
            let i = prev.entry_index(q);
            assert(0 <= i < n && prev.mappings@[i].page as int == q);
            assert(self.mappings@[i].page as int == q);
            self.lemma_entry_unique(q, i);
            prev.lemma_entry_unique(q, i);
        }
    }

    /// Removing the entry at `i` removes exactly its page's mapping.
    proof fn lemma_remove_effect(self, prev: PagingContext, i: int)
        requires
            prev.wf(),
            0 <= i < prev.mappings@.len(),
            self.mappings@ == prev.mappings@.remove(i),
            self.allocator == prev.allocator,
        ensures
            self.wf(),
            forall|q: int|
                #[trigger] self.spec_mapped(q) <==> (prev.spec_mapped(q) && q
                    != prev.mappings@[i].page as int),
            forall|q: int|
                prev.spec_mapped(q) && q != prev.mappings@[i].page as int ==> #[trigger] self.spec_frame_of(
                    q,
                ) == prev.spec_frame_of(q) && self.spec_flags_of(q) == prev.spec_flags_of(q),
    {
        let p = prev.mappings@[i].page as int;
        let n = prev.mappings@.len() as int;
        prev.mappings@.remove_ensures(i);
        assert forall|k: int, l: int| 0 <= k < l < self.mappings@.len() implies (
        #[trigger] self.mappings@[k]).page != (#[trigger] self.mappings@[l]).page by {
            let k0 = if k < i {
                k
            } else {
                k + 1
            };
            let l0 = if l < i {
                l
            } else {
                l + 1
            };
            assert(self.mappings@[k] == prev.mappings@[k0]);
            assert(self.mappings@[l] == prev.mappings@[l0]);
        }
        assert forall|q: int| #[trigger] self.spec_mapped(q) implies (prev.spec_mapped(q) && q
            != p) by {
            let k = choose|k: int|
                0 <= k < self.mappings@.len() && (#[trigger] self.mappings@[k]).page as int == q;
            let k0 = if k < i {
                k
            } else {
                k + 1
            };
            assert(self.mappings@[k] == prev.mappings@[k0]);
            assert(prev.mappings@[k0].page as int == q);
            if q == p {
                assert(prev.mappings@[k0].page == prev.mappings@[i].page);
                assert(k0 == i);
                assert(false);
            }
        }
        assert forall|q: int| #[trigger] prev.spec_mapped(q) && q != p implies self.spec_mapped(q)
            && self.spec_frame_of(q) == prev.spec_frame_of(q) && self.spec_flags_of(q)
            == prev.spec_flags_of(q) by {
            let k0 = prev.entry_index(q);
            assert(0 <= k0 < n && prev.mappings@[k0].page as int == q);
            assert(k0 != i);
            let k = if k0 < i {
                k0
            } else {
                k0 - 1
            };
            assert(self.mappings@[k] == prev.mappings@[k0]);
            assert(self.mappings@[k].page as int == q);
            self.lemma_entry_unique(q, k);
            prev.lemma_entry_unique(q, k0);
        }
    }

    /// With pages unique, any entry whose page is `q` is the one the
    /// lookup specs answer from.
    proof fn lemma_entry_unique(self, q: int, i: int)
        requires
            forall|k: int, l: int|
                0 <= k < l < self.mappings@.len() ==> (#[trigger] self.mappings@[k]).page != (
                #[trigger] self.mappings@[l]).page,
            0 <= i < self.mappings@.len(),
            self.mappings@[i].page as int == q,
        ensures
            self.entry_index(q) == i,
            self.spec_frame_of(q) == self.mappings@[i].frame as int,
            self.spec_flags_of(q) == self.mappings@[i].flags,
    {
        let w = self.entry_index(q);
        assert(0 <= w < self.mappings@.len() && self.mappings@[w].page as int == q);
        if w != i {
            if w < i {
                assert(self.mappings@[w].page != self.mappings@[i].page);
            } else {
                assert(self.mappings@[i].page != self.mappings@[w].page);
            }
            assert(false);
        }
    }
}

} // verus!
