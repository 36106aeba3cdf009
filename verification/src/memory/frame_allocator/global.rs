//! The steady-state frame allocator: scans the bitmap for the next free,
//! firmware-usable frame at or after its cursor; marks frames used and
//! free; classifies frames by their firmware region.

use vstd::prelude::*;
use crate::memory::addr::Frame;
use crate::memory::memmap::{MemoryMap, MemoryRegionType};
use crate::memory::frame_allocator::bitmap::FrameBitmap;
use crate::memory::frame_allocator::bootstrap::{
    BootStrapAllocator, lemma_ty_of_containing_region, usable_size,
};

verus! {

/// Whether a region type keeps its frames out of general allocation:
/// every classification except general RAM and the deliberately-available
/// reserved, reclaimable and zero-page kinds.
pub open spec fn region_excluded(t: MemoryRegionType) -> bool {
    !(t == MemoryRegionType::Usable || t == MemoryRegionType::Reserved || t
        == MemoryRegionType::AcpiReclaimable || t == MemoryRegionType::FrameZero)
}

/// Whether frame `f` is marked used at allocator initialization for its
/// firmware region type alone.
pub open spec fn init_marked(m: MemoryMap, f: int) -> bool {
    match m.ty_of(f) {
        Some(t) => region_excluded(t),
        None => false,
    }
}

/// The lowest frame number at or after `j` that is firmware-usable and
/// clear in `bits`; the map's frame count when there is none.
pub open spec fn next_free_from(m: MemoryMap, bits: Seq<bool>, j: int) -> int
    decreases m.frame_count() - j,
{
    if j < 0 || j >= m.frame_count() {
        m.frame_count()
    } else if m.usable(j) && !bits[j] {
        j
    } else {
        next_free_from(m, bits, j + 1)
    }
}

/// How many frames at or after `j` are firmware-usable and clear in
/// `bits`: the allocations the allocator can still serve from there.
pub open spec fn free_count_from(m: MemoryMap, bits: Seq<bool>, j: int) -> int
    decreases m.frame_count() - j,
{
    if j < 0 || j >= m.frame_count() {
        0
    } else {
        (if m.usable(j) && !bits[j] {
            1int
        } else {
            0int
        }) + free_count_from(m, bits, j + 1)
    }
}

/// What `next_free_from` returns is a free usable frame after `j`, and
/// nothing before it is one.
pub proof fn lemma_next_free_props(m: MemoryMap, bits: Seq<bool>, j: int)
    requires
        0 <= j,
    ensures
        j <= next_free_from(m, bits, j) <= m.frame_count() || next_free_from(m, bits, j)
            == m.frame_count(),
        next_free_from(m, bits, j) < m.frame_count() ==> m.usable(next_free_from(m, bits, j))
            && !bits[next_free_from(m, bits, j)],
        forall|k: int|
            j <= k < next_free_from(m, bits, j) && k < m.frame_count() ==> !(m.usable(k)
                && !bits[k]),
    decreases m.frame_count() - j,
{
    if j < m.frame_count() && !(m.usable(j) && !bits[j]) {
        lemma_next_free_props(m, bits, j + 1);
    }
}

/// Skipping over frames that are not free and usable does not change
/// which frame is found next.
pub proof fn lemma_next_free_skip(m: MemoryMap, bits: Seq<bool>, a: int, b: int)
    requires
        0 <= a <= b <= m.frame_count(),
        forall|k: int| a <= k < b ==> !(m.usable(k) && !bits[k]),
    ensures
        next_free_from(m, bits, a) == next_free_from(m, bits, b),
    decreases b - a,
{
    if a < b {
        lemma_next_free_skip(m, bits, a + 1, b);
    }
}

/// Counts of free usable frames are never negative.
pub proof fn lemma_free_count_nonneg(m: MemoryMap, bits: Seq<bool>, j: int)
    ensures
        0 <= free_count_from(m, bits, j),
    decreases m.frame_count() - j,
{
    if 0 <= j < m.frame_count() {
        lemma_free_count_nonneg(m, bits, j + 1);
    }
}

/// Skipping over frames that are not free and usable does not change the
/// count of what is left.
pub proof fn lemma_free_count_skip(m: MemoryMap, bits: Seq<bool>, a: int, b: int)
    requires
        0 <= a <= b <= m.frame_count(),
        forall|k: int| a <= k < b ==> !(m.usable(k) && !bits[k]),
    ensures
        free_count_from(m, bits, a) == free_count_from(m, bits, b),
    decreases b - a,
{
    if a < b {
        lemma_free_count_skip(m, bits, a + 1, b);
    }
}

/// Setting a bit below `j` does not change the count from `j` on.
pub proof fn lemma_free_count_update_below(
    m: MemoryMap,
    bits: Seq<bool>,
    j: int,
    f: int,
    v: bool,
)
    requires
        0 <= f < j || f >= m.frame_count(),
        f < bits.len(),
        m.frame_count() <= bits.len(),
    ensures
        free_count_from(m, bits.update(f, v), j) == free_count_from(m, bits, j),
    decreases m.frame_count() - j,
{
    if 0 <= j < m.frame_count() {
        lemma_free_count_update_below(m, bits, j + 1, f, v);
    }
}

/// Deallocating an in-use, firmware-usable frame at or after the cursor
/// returns it to the free pool: exactly one more frame can be served.
/// Frames of non-usable regions never enter the pool this way, because
/// the count only ever counts usable frames.
pub proof fn lemma_deallocate_grows_pool(m: MemoryMap, bits: Seq<bool>, c: int, f: int)
    requires
        0 <= c <= f < m.frame_count(),
        m.usable(f),
        bits[f],
        m.frame_count() <= bits.len(),
    ensures
        free_count_from(m, bits.update(f, false), c) == free_count_from(m, bits, c) + 1,
    decreases f - c,
{
    if c == f {
        lemma_free_count_update_below(m, bits, f + 1, f, false);
    } else {
        lemma_deallocate_grows_pool(m, bits, c + 1, f);
    }
}

/// Allocating the frame that `next_free_from` picks leaves exactly one
/// fewer frame to serve.
pub proof fn lemma_free_count_after_alloc(m: MemoryMap, bits: Seq<bool>, c: int)
    requires
        0 <= c,
        next_free_from(m, bits, c) < m.frame_count(),
        m.frame_count() <= bits.len(),
    ensures
        free_count_from(m, bits.update(next_free_from(m, bits, c), true), next_free_from(
            m,
            bits,
            c,
        )) == free_count_from(m, bits, c) - 1,
{
    let f = next_free_from(m, bits, c);
    lemma_next_free_props(m, bits, c);
    lemma_free_count_skip(m, bits, c, f);
    lemma_free_count_update_below(m, bits, f + 1, f, true);
}

/// There is a frame to serve exactly when the count of what is left is
/// positive.
pub proof fn lemma_free_count_pos(m: MemoryMap, bits: Seq<bool>, j: int)
    requires
        0 <= j,
    ensures
        free_count_from(m, bits, j) > 0 <==> next_free_from(m, bits, j) < m.frame_count(),
    decreases m.frame_count() - j,
{
    lemma_free_count_nonneg(m, bits, j + 1);
    if j < m.frame_count() {
        lemma_free_count_pos(m, bits, j + 1);
    }
}

/// The frames that `k` successive allocations return, starting from the
/// given bitmap contents and cursor: each step takes the next free usable
/// frame, marks it, and resumes there.
pub open spec fn alloc_seq(m: MemoryMap, bits: Seq<bool>, c: int, k: nat) -> Seq<int>
    decreases k,
{
    if k == 0 {
        Seq::empty()
    } else {
        let f = next_free_from(m, bits, c);
        seq![f] + alloc_seq(m, bits.update(f, true), f, (k - 1) as nat)
    }
}

/// A run of `k` allocations returns `k` frames.
pub proof fn lemma_alloc_seq_len(m: MemoryMap, bits: Seq<bool>, c: int, k: nat)
    ensures
        alloc_seq(m, bits, c, k).len() == k,
    decreases k,
{
    if k > 0 {
        let f = next_free_from(m, bits, c);
        lemma_alloc_seq_len(m, bits.update(f, true), f, (k - 1) as nat);
    }
}

/// The steady-state frame allocator: the firmware map, the bitmap store,
/// and the cursor where the last successful allocation happened.
pub struct GlobalFrameAllocator {
    memory_map: MemoryMap,
    next_usable: u64,
    bitmap: FrameBitmap,
}

impl GlobalFrameAllocator {
    /// The firmware memory map the allocator was initialized with.
    pub closed spec fn spec_map(self) -> MemoryMap {
        self.memory_map
    }

    /// The bitmap contents: one boolean per frame number, set when in use.
    pub closed spec fn bits(self) -> Seq<bool> {
        self.bitmap.bits()
    }

    /// The number of frames the allocator tracks.
    pub open spec fn spec_frame_count(self) -> int {
        self.spec_map().frame_count()
    }

    /// Whether frame `f` is currently marked in use.
    pub open spec fn spec_in_use(self, f: int) -> bool {
        self.bits()[f]
    }

    /// The cursor: allocation scans resume from here.
    pub closed spec fn cursor(self) -> int {
        self.next_usable as int
    }

    /// Well-formedness: the bitmap covers exactly the mapped frame range
    /// and the cursor stays within it.
    pub closed spec fn wf(self) -> bool {
        &&& self.spec_map().wf()
        &&& self.bitmap.wf()
        &&& self.bitmap.spec_frame_count() == self.spec_frame_count()
        &&& 0 <= self.cursor() <= self.spec_frame_count()
    }

    /// What well-formedness guarantees to users of the allocator: a well
    /// formed map, a cursor within range, and one bitmap bit per frame.
    pub proof fn lemma_wf_consequences(self)
        requires
            self.wf(),
        ensures
            self.spec_map().wf(),
            0 <= self.cursor() <= self.spec_frame_count(),
            self.bits().len() == self.spec_frame_count(),
    {
        self.bitmap.lemma_bits_len();
    }

    /// Builds the steady-state allocator from the finished bootstrap pass:
    /// replays the bootstrap's per-region consumption record as used bits,
    /// then marks every frame whose firmware region type excludes it from
    /// general allocation. Frames of reserved, ACPI-reclaimable and
    /// zero-page regions are deliberately left available.
    pub fn init(bootstrap: BootStrapAllocator) -> (r: GlobalFrameAllocator)
        requires
            bootstrap.wf(),
        ensures
            r.wf(),
            r.spec_map() == bootstrap.memory_map,
            r.cursor() == 0,
            forall|f: int|
                0 <= f < r.spec_frame_count() ==> (#[trigger] r.spec_in_use(f) <==> (
                bootstrap.spec_consumed(f) || init_marked(bootstrap.memory_map, f))),
            initialized_from(r, bootstrap),
    {
        let ghost m = bootstrap.memory_map;
        let ghost bs = bootstrap;
        let region_count = bootstrap.memory_map.len();
        let frame_count: u64 = if region_count == 0 {
            0
        } else {
            bootstrap.memory_map.region(region_count - 1).end_frame
        };
        let mut bitmap = FrameBitmap::new(frame_count);
        // Replay the bootstrap allocator's record: the first `used[b]`
        // frames of each region are taken.
        let mut b: usize = 0;
        while b < region_count
            invariant
                b <= region_count,
                region_count == m.regions().len(),
                bootstrap == bs,
                bootstrap.wf(),
                m == bootstrap.memory_map,
                frame_count as int == m.frame_count(),
                bitmap.wf(),
                bitmap.spec_frame_count() == frame_count as int,
                forall|f: int|
                    0 <= f < frame_count as int ==> (#[trigger] bitmap.bits()[f] <==> exists|c: int|
                        0 <= c < b as int && (#[trigger] m.regions()[c]).start_frame as int <= f
                            && f < m.regions()[c].start_frame as int + bs.used@[c] as int),
            decreases region_count - b,
        {
            let region = bootstrap.memory_map.region(b);
            let used = bootstrap.region_used_count(b);
            let mut k: u64 = 0;
            proof {
                assert(used as int <= region.end_frame as int - region.start_frame as int);
                assert(region.end_frame as int <= m.frame_count()) by {
                    assert(m.regions()[b as int].end_frame <= m.regions()[m.regions().len()
                        - 1].end_frame);
                }
            }
            while k < used
                invariant
                    k <= used,
                    b < region_count,
                    region_count == m.regions().len(),
                    bootstrap == bs,
                    bootstrap.wf(),
                    m == bootstrap.memory_map,
                    frame_count as int == m.frame_count(),
                    region == m.regions()[b as int],
                    used == bs.used@[b as int],
                    region.start_frame as int + used as int <= frame_count as int,
                    bitmap.wf(),
                    bitmap.spec_frame_count() == frame_count as int,
                    forall|f: int|
                        0 <= f < frame_count as int ==> (#[trigger] bitmap.bits()[f] <==> {
                            ||| exists|c: int|
                                0 <= c < b as int
                                    && (#[trigger] m.regions()[c]).start_frame as int <= f
                                    && f < m.regions()[c].start_frame as int + bs.used@[c] as int
                            ||| region.start_frame as int <= f < region.start_frame as int
                                + k as int
                        }),
                decreases used - k,
            {
                proof {
                    bitmap.lemma_bits_len();
                }
                bitmap.mark_used(region.start_frame + k);
                k = k + 1;
            }
            proof {
                let bm = bitmap.bits();
                let b1 = b as int + 1;
                assert forall|f: int| 0 <= f < frame_count as int implies (bm[f] <==> exists|c: int|
                    0 <= c < b1 && (#[trigger] m.regions()[c]).start_frame as int <= f && f
                        < m.regions()[c].start_frame as int + bs.used@[c] as int) by {
                    let rb = m.regions()[b as int];
                    if bm[f] && rb.start_frame as int <= f < rb.start_frame as int + used as int {
                        let bi = b as int;
                        assert(0 <= bi && bi < b1 && rb.start_frame as int <= f && f
                            < rb.start_frame as int + bs.used@[bi] as int);
                    }
                    if exists|c: int|
                        0 <= c < b1 && (#[trigger] m.regions()[c]).start_frame as int <= f && f
                            < m.regions()[c].start_frame as int + bs.used@[c] as int {
                        let c = choose|c: int|
                            0 <= c < b1 && (#[trigger] m.regions()[c]).start_frame as int <= f && f
                                < m.regions()[c].start_frame as int + bs.used@[c] as int;
                        if c == b as int {
                            assert(bm[f]);
                        }
                    }
                }
            }
            b = b + 1;
        }
        proof {
            assert forall|f: int| 0 <= f < frame_count as int implies (#[trigger] bitmap.bits()[f]
                <==> bs.spec_consumed(f)) by {}
        }
        // Mark every frame whose region type keeps it out of general
        // allocation.
        let mut b2: usize = 0;
        while b2 < region_count
            invariant
                b2 <= region_count,
                region_count == m.regions().len(),
                bootstrap == bs,
                bootstrap.wf(),
                m == bootstrap.memory_map,
                frame_count as int == m.frame_count(),
                bitmap.wf(),
                bitmap.spec_frame_count() == frame_count as int,
                forall|f: int|
                    0 <= f < frame_count as int ==> (#[trigger] bitmap.bits()[f] <==> (
                    bs.spec_consumed(f) || exists|c: int|
                        0 <= c < b2 as int && region_excluded(#[trigger] m.regions()[c].region_type)
                            && m.regions()[c].spec_contains(f))),
            decreases region_count - b2,
        {
            let region = bootstrap.memory_map.region(b2);
            let excluded = match region.region_type {
                MemoryRegionType::Usable => false,
                MemoryRegionType::Reserved => false,
                MemoryRegionType::AcpiReclaimable => false,
                MemoryRegionType::FrameZero => false,
                _ => true,
            };
            if excluded {
                let mut i: u64 = region.start_frame;
                proof {
                    assert(region.end_frame as int <= m.frame_count()) by {
                        assert(m.regions()[b2 as int].end_frame <= m.regions()[m.regions().len()
                            - 1].end_frame);
                    }
                }
                while i < region.end_frame
                    invariant
                        region.start_frame <= i <= region.end_frame,
                        b2 < region_count,
                        region_count == m.regions().len(),
                        bootstrap == bs,
                        bootstrap.wf(),
                        m == bootstrap.memory_map,
                        frame_count as int == m.frame_count(),
                        region == m.regions()[b2 as int],
                        region_excluded(region.region_type),
                        region.end_frame as int <= frame_count as int,
                        bitmap.wf(),
                        bitmap.spec_frame_count() == frame_count as int,
                        forall|f: int|
                            0 <= f < frame_count as int ==> (#[trigger] bitmap.bits()[f] <==> (
                            bs.spec_consumed(f) || (exists|c: int|
                                0 <= c < b2 as int && region_excluded(
                                    #[trigger] m.regions()[c].region_type,
                                ) && m.regions()[c].spec_contains(f)) || (
                            region.start_frame as int <= f < i as int))),
                    decreases region.end_frame - i,
                {
                    proof {
                        bitmap.lemma_bits_len();
                    }
                    bitmap.mark_used(i);
                    i = i + 1;
                }
            }
            proof {
                let bm = bitmap.bits();
                let b1 = b2 as int + 1;
                assert forall|f: int| 0 <= f < frame_count as int implies (bm[f] <==> (
                bs.spec_consumed(f) || exists|c: int|
                    0 <= c < b1 && region_excluded(#[trigger] m.regions()[c].region_type)
                        && m.regions()[c].spec_contains(f))) by {
                    let rb = m.regions()[b2 as int];
                    if bm[f] && !bs.spec_consumed(f) && region_excluded(rb.region_type)
                        && rb.spec_contains(f) {
                        let bi = b2 as int;
                        assert(0 <= bi && bi < b1 && region_excluded(
                            m.regions()[bi].region_type,
                        ) && m.regions()[bi].spec_contains(f));
                    }
                    if exists|c: int|
                        0 <= c < b1 && region_excluded(#[trigger] m.regions()[c].region_type)
                            && m.regions()[c].spec_contains(f) {
                        let c = choose|c: int|
                            0 <= c < b1 && region_excluded(#[trigger] m.regions()[c].region_type)
                                && m.regions()[c].spec_contains(f);
                        if c == b2 as int {
                            assert(bm[f]);
                        }
                    }
                }
            }
            b2 = b2 + 1;
        }
        let r = GlobalFrameAllocator { memory_map: bootstrap.memory_map, next_usable: 0, bitmap };
        proof {
            assert forall|f: int| 0 <= f < r.spec_frame_count() implies (#[trigger] r.spec_in_use(f)
                <==> (bs.spec_consumed(f) || init_marked(m, f))) by {
                if exists|c: int|
                    0 <= c < m.regions().len() && region_excluded(
                        #[trigger] m.regions()[c].region_type,
                    ) && m.regions()[c].spec_contains(f) {
                    let c = choose|c: int|
                        0 <= c < m.regions().len() && region_excluded(
                            #[trigger] m.regions()[c].region_type,
                        ) && m.regions()[c].spec_contains(f);
                    lemma_ty_of_containing_region(m, c, f);
                }
                if init_marked(m, f) {
                    lemma_ty_of_some_contained(m, f, 0);
                }
            }
        }
        r
    }

    /// Finds the lowest-numbered frame at or after the last successful
    /// allocation point that is firmware-usable and not in use, marks it
    /// used, and returns it. `None` when no such frame exists: the caller
    /// must treat that as fatal. The search resumes from the previous
    /// cursor rather than restarting at zero.
    pub fn allocate_frame(&mut self) -> (r: Option<Frame>)
        requires
            old(self).wf(),
        ensures
            final(self).wf(),
            final(self).spec_map() == old(self).spec_map(),
            r.is_some() <==> next_free_from(old(self).spec_map(), old(self).bits(), old(self).cursor())
                < old(self).spec_frame_count(),
            r.is_some() ==> {
                &&& r.unwrap().id() == next_free_from(
                    old(self).spec_map(),
                    old(self).bits(),
                    old(self).cursor(),
                )
                &&& allocate_transition(*old(self), *final(self), r.unwrap().id())
                &&& old(self).cursor() <= r.unwrap().id()
                &&& forall|j: int|
                    old(self).cursor() <= j < r.unwrap().id() && old(self).spec_map().usable(j)
                        ==> old(self).spec_in_use(j)
                &&& final(self).cursor() == r.unwrap().id()
                &&& final(self).bits() == old(self).bits().update(r.unwrap().id(), true)
            },
            r.is_none() ==> *final(self) == *old(self) && (forall|j: int|
                old(self).cursor() <= j < old(self).spec_frame_count() && old(
                    self,
                ).spec_map().usable(j) ==> old(self).spec_in_use(j)),
    {
        proof {
            self.bitmap.lemma_bits_len();
        }
        let ghost m = self.spec_map();
        let ghost bits0 = self.bits();
        let ghost cursor0 = self.cursor();
        let fc = self.bitmap.frame_count();
        let mut j: u64 = self.next_usable;
        while j < fc
            invariant
                *self == *old(self),
                self.wf(),
                self.bits().len() == self.spec_frame_count(),
                m == self.spec_map(),
                bits0 == self.bits(),
                cursor0 == self.cursor(),
                fc as int == self.spec_frame_count(),
                cursor0 <= j as int <= fc as int,
                forall|k: int| cursor0 <= k < j as int ==> !(m.usable(k) && !bits0[k]),
            decreases fc - j,
        {
            let ty = self.memory_map.region_type_of(j);
            let ty_usable = match ty {
                Some(MemoryRegionType::Usable) => true,
                _ => false,
            };
            if ty_usable && !self.bitmap.is_used(j) {
                proof {
                    lemma_next_free_skip(m, bits0, cursor0, j as int);
                }
                self.bitmap.mark_used(j);
                self.next_usable = j;
                return Some(Frame { number: j });
            }
            j = j + 1;
        }
        proof {
            lemma_next_free_skip(m, bits0, cursor0, fc as int);
        }
        None
    }

    /// Clears the frame's used bit. The caller must guarantee the frame is
    /// not referenced elsewhere; no double-free detection is performed
    /// beyond the bit toggling itself.
    pub fn deallocate_frame(&mut self, frame: Frame)
        requires
            old(self).wf(),
            frame.id() < old(self).spec_frame_count(),
        ensures
            final(self).wf(),
            final(self).spec_map() == old(self).spec_map(),
            final(self).cursor() == old(self).cursor(),
            forall|g: int|
                0 <= g < old(self).spec_frame_count() ==> (#[trigger] final(self).spec_in_use(g)
                    <==> (old(self).spec_in_use(g) && g != frame.id())),
            final(self).bits() == old(self).bits().update(frame.id(), false),
    {
        proof {
            self.bitmap.lemma_bits_len();
        }
        self.bitmap.mark_unused(frame.number);
    }

    /// The number of frames that are still free and firmware-usable at or
    /// after the cursor: exactly how many allocations the allocator can
    /// still serve.
    pub fn count_free(&self) -> (r: u64)
        requires
            self.wf(),
        ensures
            r as int == free_count_from(self.spec_map(), self.bits(), self.cursor()),
    {
        proof {
            self.bitmap.lemma_bits_len();
        }
        let ghost m = self.spec_map();
        let ghost bits0 = self.bits();
        let ghost cursor0 = self.cursor();
        let fc = self.bitmap.frame_count();
        let mut j: u64 = self.next_usable;
        let mut count: u64 = 0;
        while j < fc
            invariant
                self.wf(),
                self.bits().len() == self.spec_frame_count(),
                m == self.spec_map(),
                bits0 == self.bits(),
                cursor0 == self.cursor(),
                fc as int == self.spec_frame_count(),
                cursor0 <= j as int <= fc as int,
                count as int <= j as int - cursor0,
                count as int + free_count_from(m, bits0, j as int) == free_count_from(
                    m,
                    bits0,
                    cursor0,
                ),
            decreases fc - j,
        {
            let ty = self.memory_map.region_type_of(j);
            let ty_usable = match ty {
                Some(MemoryRegionType::Usable) => true,
                _ => false,
            };
            if ty_usable && !self.bitmap.is_used(j) {
                count = count + 1;
            }
            j = j + 1;
        }
        count
    }

    /// The number of frames the allocator tracks.
    pub fn frame_count(&self) -> (r: u64)
        requires
            self.wf(),
        ensures
            r as int == self.spec_frame_count(),
    {
        self.bitmap.frame_count()
    }

    /// Whether the frame is already in use.
    pub fn frame_in_use(&self, frame: Frame) -> (r: bool)
        requires
            self.wf(),
            frame.id() < self.spec_frame_count(),
        ensures
            r == self.spec_in_use(frame.id()),
    {
        self.bitmap.is_used(frame.number)
    }

    /// The firmware region type of the frame, classified by containment;
    /// `None` when no region of the map covers it.
    pub fn get_frame_ty(&self, frame: Frame) -> (r: Option<MemoryRegionType>)
        requires
            self.wf(),
        ensures
            r == self.spec_map().ty_of(frame.id()),
    {
        self.memory_map.region_type_of(frame.number)
    }
}

/// What one successful `allocate_frame` call does, seen from outside: the
/// map is unchanged, the returned frame `f` was free and firmware-usable,
/// and exactly `f`'s bit was set.
pub open spec fn allocate_transition(
    pre: GlobalFrameAllocator,
    post: GlobalFrameAllocator,
    f: int,
) -> bool {
    &&& post.spec_map() == pre.spec_map()
    &&& 0 <= f < pre.spec_frame_count()
    &&& pre.spec_map().usable(f)
    &&& !pre.spec_in_use(f)
    &&& forall|g: int|
        0 <= g < pre.spec_frame_count() ==> (#[trigger] post.spec_in_use(g) <==> (pre.spec_in_use(
            g,
        ) || g == f))
}

/// A sequence of successful `allocate_frame` calls with no interleaved
/// `deallocate_frame`, taking the allocator from `s0` to `s_end` and
/// returning the frames `fs`, in order.
pub open spec fn allocation_run(
    s0: GlobalFrameAllocator,
    s_end: GlobalFrameAllocator,
    fs: Seq<int>,
) -> bool
    decreases fs.len(),
{
    if fs.len() == 0 {
        s_end == s0
    } else {
        exists|mid: GlobalFrameAllocator|
            #[trigger] allocate_transition(s0, mid, fs[0]) && allocation_run(
                mid,
                s_end,
                fs.drop_first(),
            )
    }
}

/// A run extends by one more allocation at its end.
pub proof fn lemma_allocation_run_snoc(
    s0: GlobalFrameAllocator,
    s1: GlobalFrameAllocator,
    s2: GlobalFrameAllocator,
    fs: Seq<int>,
    f: int,
)
    requires
        allocation_run(s0, s1, fs),
        allocate_transition(s1, s2, f),
    ensures
        allocation_run(s0, s2, fs.push(f)),
    decreases fs.len(),
{
    if fs.len() == 0 {
        assert(fs.push(f).drop_first() =~= Seq::<int>::empty());
        assert(allocate_transition(s0, s2, fs.push(f)[0]) && allocation_run(
            s2,
            s2,
            fs.push(f).drop_first(),
        ));
    } else {
        let mid = choose|mid: GlobalFrameAllocator|
            #[trigger] allocate_transition(s0, mid, fs[0]) && allocation_run(
                mid,
                s1,
                fs.drop_first(),
            );
        lemma_allocation_run_snoc(mid, s1, s2, fs.drop_first(), f);
        assert(fs.push(f).drop_first() =~= fs.drop_first().push(f));
        assert(allocate_transition(s0, mid, fs.push(f)[0]) && allocation_run(
            mid,
            s2,
            fs.push(f).drop_first(),
        ));
    }
}

/// The allocator never hands a frame out twice: over any sequence of
/// `allocate_frame` calls with no interleaved `deallocate_frame`, the
/// returned frames are pairwise distinct, each lies in a firmware-usable
/// region, and none was in use when the run began.
pub proof fn lemma_never_double_allocate(
    s0: GlobalFrameAllocator,
    s_end: GlobalFrameAllocator,
    fs: Seq<int>,
)
    requires
        allocation_run(s0, s_end, fs),
    ensures
        forall|i: int, j: int| 0 <= i < j < fs.len() ==> fs[i] != fs[j],
        forall|i: int| 0 <= i < fs.len() ==> s0.spec_map().usable(#[trigger] fs[i]),
        forall|i: int| 0 <= i < fs.len() ==> 0 <= #[trigger] fs[i] < s0.spec_frame_count(),
        forall|i: int| 0 <= i < fs.len() ==> !s0.spec_in_use(#[trigger] fs[i]),
    decreases fs.len(),
{
    if fs.len() > 0 {
        let mid = choose|mid: GlobalFrameAllocator|
            #[trigger] allocate_transition(s0, mid, fs[0]) && allocation_run(
                mid,
                s_end,
                fs.drop_first(),
            );
        lemma_never_double_allocate(mid, s_end, fs.drop_first());
        let tail = fs.drop_first();
        assert forall|i: int| 0 <= i < fs.len() implies !s0.spec_in_use(#[trigger] fs[i])
            && s0.spec_map().usable(fs[i]) && 0 <= fs[i] < s0.spec_frame_count() by {
            if i > 0 {
                assert(fs[i] == tail[i - 1]);
                assert(!mid.spec_in_use(fs[i]));
            }
        }
        assert forall|i: int, j: int| 0 <= i < j < fs.len() implies fs[i] != fs[j] by {
            if i == 0 {
                assert(fs[j] == tail[j - 1]);
                assert(!mid.spec_in_use(fs[j]));
                assert(mid.spec_in_use(fs[0]));
            } else {
                assert(fs[i] == tail[i - 1] && fs[j] == tail[j - 1]);
            }
        }
    }
}

/// A frame outside every firmware-usable region — a reserved or
/// device-memory frame above all — is never returned to callers: no run
/// of allocations, whatever came before it, contains such a frame.
pub proof fn lemma_reserved_never_allocated(
    s0: GlobalFrameAllocator,
    s_end: GlobalFrameAllocator,
    fs: Seq<int>,
    f: int,
)
    requires
        allocation_run(s0, s_end, fs),
        !s0.spec_map().usable(f),
    ensures
        forall|i: int| 0 <= i < fs.len() ==> #[trigger] fs[i] != f,
{
    lemma_never_double_allocate(s0, s_end, fs);
}

/// How `GlobalFrameAllocator::init` relates the new allocator to the
/// bootstrap pass it consumed: same map, and a frame is in use exactly
/// when the bootstrap consumed it or its region type excludes it.
pub open spec fn initialized_from(a: GlobalFrameAllocator, bs: BootStrapAllocator) -> bool {
    &&& a.spec_map() == bs.memory_map
    &&& forall|f: int|
        0 <= f < a.spec_frame_count() ==> (#[trigger] a.spec_in_use(f) <==> (bs.spec_consumed(f)
            || init_marked(bs.memory_map, f)))
}

/// The bootstrap and steady-state allocators never disagree: every frame
/// the bootstrap pass consumed is marked used in the resulting allocator,
/// and no later run of allocations can return such a frame — no frame is
/// allocatable twice across the bootstrap-to-steady-state transition.
pub proof fn lemma_bootstrap_consistency(
    bs: BootStrapAllocator,
    a: GlobalFrameAllocator,
    a_end: GlobalFrameAllocator,
    fs: Seq<int>,
)
    requires
        bs.wf(),
        initialized_from(a, bs),
        allocation_run(a, a_end, fs),
    ensures
        forall|f: int| #[trigger] bs.spec_consumed(f) ==> a.spec_in_use(f),
        forall|i: int| 0 <= i < fs.len() ==> !bs.spec_consumed(#[trigger] fs[i]),
    decreases fs.len(),
{
    let m = bs.memory_map;
    assert forall|f: int| #[trigger] bs.spec_consumed(f) implies a.spec_in_use(f) by {
        let c = choose|c: int|
            0 <= c < m.regions().len() && (#[trigger] m.regions()[c]).start_frame as int <= f && f
                < m.regions()[c].start_frame as int + bs.used@[c] as int;
        assert(bs.used@[c] as int <= usable_size(m.regions()[c]));
        assert(f < m.regions()[c].end_frame as int);
        assert(m.regions()[c].end_frame <= m.regions()[m.regions().len() - 1].end_frame);
    }
    lemma_never_double_allocate(a, a_end, fs);
}

/// A frame the map classifies was classified by some region containing
/// it: the scan only ever answers out of a containing record.
pub proof fn lemma_ty_of_some_contained(m: MemoryMap, f: int, i: int)
    requires
        0 <= i,
        m.ty_of_from(f, i).is_some(),
    ensures
        exists|c: int|
            i <= c < m.regions().len() && (#[trigger] m.regions()[c]).spec_contains(f)
                && m.regions()[c].region_type == m.ty_of_from(f, i).unwrap(),
    decreases m.regions().len() - i,
{
    if i < m.regions().len() {
        if !m.regions()[i].spec_contains(f) {
            lemma_ty_of_some_contained(m, f, i + 1);
        }
    }
}

} // verus!
