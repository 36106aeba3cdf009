//! The bootstrap allocator: a minimal, short-lived allocator that hands out
//! the first untouched firmware-usable frames, used only to obtain the
//! frames that back the frame bitmap store before the real allocator
//! exists. It records, per firmware region, how many frames it consumed;
//! that record is replayed into the real allocator's bitmap so the two
//! allocators never disagree about which frames are taken.

use vstd::prelude::*;
use crate::MemError;
use crate::memory::addr::{Frame, PAGE_SIZE};
use crate::memory::memmap::{MemoryMap, MemoryRegion, MemoryRegionType};

verus! {

/// Base of the fixed virtual address window reserved for the frame bitmap
/// store.
pub const BITMAP_START: u64 = 0x6666_6666_0000;

/// Bits of bitmap storage provided by one 4 KiB frame.
pub const BITS_PER_FRAME: u64 = 0x8000;

/// How many frames a region contributes to general allocation.
pub open spec fn usable_size(r: MemoryRegion) -> int {
    if r.region_type == MemoryRegionType::Usable {
        r.end_frame as int - r.start_frame as int
    } else {
        0
    }
}

/// The number of usable frames in regions before index `i`.
pub open spec fn usable_prefix(m: MemoryMap, i: int) -> int
    decreases i,
{
    if i <= 0 {
        0
    } else {
        usable_prefix(m, i - 1) + usable_size(m.regions()[i - 1])
    }
}

/// The number of usable frames in the whole map.
pub open spec fn total_usable(m: MemoryMap) -> int {
    usable_prefix(m, m.regions().len() as int)
}

/// The frame number of the `n`-th usable frame, counting in address order
/// from region `i` on; `n` is relative to that starting region.
pub open spec fn nth_usable_from(m: MemoryMap, i: int, n: int) -> int
    decreases m.regions().len() - i,
{
    if i < 0 || i >= m.regions().len() {
        0
    } else if m.regions()[i].region_type == MemoryRegionType::Usable && n < usable_size(
        m.regions()[i],
    ) {
        m.regions()[i].start_frame as int + n
    } else {
        nth_usable_from(m, i + 1, n - usable_size(m.regions()[i]))
    }
}

/// The frame number of the `n`-th usable frame of the map, in address
/// order, counting from zero.
pub open spec fn nth_usable(m: MemoryMap, n: int) -> int {
    nth_usable_from(m, 0, n)
}

/// How many frames of region `b` are consumed once `next` usable frames
/// have been handed out in address order: none before the count reaches
/// the region, all of it after the count has passed it.
pub open spec fn region_used(m: MemoryMap, next: int, b: int) -> int {
    let lo = usable_prefix(m, b);
    let sz = usable_size(m.regions()[b]);
    if next <= lo {
        0
    } else if next >= lo + sz {
        sz
    } else {
        next - lo
    }
}

/// How many 4 KiB frames of storage the bitmap needs to give one bit to
/// every frame number below `end_frame`.
pub fn bitmap_frames_needed(end_frame: u64) -> (r: u64)
    requires
        end_frame <= 0x1_0000_0000u64,
    ensures
        r as int == (end_frame as int + BITS_PER_FRAME as int - 1) / BITS_PER_FRAME as int,
{
    (end_frame + BITS_PER_FRAME - 1) / BITS_PER_FRAME
}

/// The prefix sums of usable sizes never decrease.
pub proof fn lemma_usable_prefix_mono(m: MemoryMap, i: int, j: int)
    requires
        m.wf(),
        0 <= i <= j <= m.regions().len(),
    ensures
        usable_prefix(m, i) <= usable_prefix(m, j),
    decreases j - i,
{
    if i < j {
        assert(usable_size(m.regions()[j - 1]) >= 0);
        lemma_usable_prefix_mono(m, i, j - 1);
    }
}

/// No region's worth of usable frames can start before the region itself:
/// the usable frames preceding region `i` all fit below its start.
pub proof fn lemma_usable_prefix_le_start(m: MemoryMap, i: int)
    requires
        m.wf(),
        0 <= i < m.regions().len(),
    ensures
        usable_prefix(m, i) <= m.regions()[i].start_frame as int,
    decreases i,
{
    if i > 0 {
        lemma_usable_prefix_le_start(m, i - 1);
    }
}

/// The map cannot hold more usable frames than frames.
pub proof fn lemma_total_usable_le_frame_count(m: MemoryMap)
    requires
        m.wf(),
    ensures
        0 <= total_usable(m) <= m.frame_count(),
{
    let len = m.regions().len() as int;
    lemma_usable_prefix_mono(m, 0, len);
    if len > 0 {
        lemma_usable_prefix_le_start(m, len - 1);
    }
}

/// A frame inside some region is classified by that region: no earlier
/// region can contain it, because the regions are disjoint and ordered.
pub proof fn lemma_ty_of_containing_region(m: MemoryMap, b: int, f: int)
    requires
        m.wf(),
        0 <= b < m.regions().len(),
        m.regions()[b].spec_contains(f),
    ensures
        m.ty_of(f) == Some(m.regions()[b].region_type),
{
    lemma_ty_of_from_skips_to(m, 0, b, f);
}

proof fn lemma_ty_of_from_skips_to(m: MemoryMap, i: int, b: int, f: int)
    requires
        m.wf(),
        0 <= i <= b < m.regions().len(),
        m.regions()[b].spec_contains(f),
    ensures
        m.ty_of_from(f, i) == Some(m.regions()[b].region_type),
    decreases b - i,
{
    if i < b {
        assert(m.regions()[i].end_frame <= m.regions()[b].start_frame);
        lemma_ty_of_from_skips_to(m, i + 1, b, f);
    }
}

/// No frame lies in two distinct regions of a well-formed map.
pub proof fn lemma_regions_disjoint(m: MemoryMap, b: int, c: int, f: int)
    requires
        m.wf(),
        0 <= b < m.regions().len(),
        0 <= c < m.regions().len(),
        b != c,
        m.regions()[b].spec_contains(f),
    ensures
        !m.regions()[c].spec_contains(f),
{
    if b < c {
        assert(m.regions()[b].end_frame <= m.regions()[c].start_frame);
    } else {
        assert(m.regions()[c].end_frame <= m.regions()[b].start_frame);
    }
}

/// The bootstrap allocator: the firmware map, the count of usable frames
/// handed out so far, and the per-region consumption record that the real
/// allocator later replays.
pub struct BootStrapAllocator {
    pub memory_map: MemoryMap,
    pub next: u64,
    pub used: Vec<u64>,
}

impl BootStrapAllocator {
    /// Well-formedness: the consumption record has one entry per region
    /// and is exactly what handing out the first `next` usable frames in
    /// address order consumes.
    pub open spec fn wf(self) -> bool {
        &&& self.memory_map.wf()
        &&& self.used@.len() == self.memory_map.regions().len()
        &&& self.next as int <= total_usable(self.memory_map)
        &&& forall|b: int|
            0 <= b < self.used@.len() ==> (#[trigger] self.used@[b]) as int == region_used(
                self.memory_map,
                self.next as int,
                b,
            )
    }

    /// Whether this allocator has consumed frame `f`.
    pub open spec fn spec_consumed(self, f: int) -> bool {
        exists|b: int|
            0 <= b < self.memory_map.regions().len()
                && (#[trigger] self.memory_map.regions()[b]).start_frame as int <= f
                && f < self.memory_map.regions()[b].start_frame as int + self.used@[b] as int
    }

    /// A fresh bootstrap allocator over the given firmware map; nothing is
    /// consumed yet.
    pub fn new(memory_map: MemoryMap) -> (r: BootStrapAllocator)
        requires
            memory_map.wf(),
        ensures
            r.wf(),
            r.memory_map == memory_map,
            r.next == 0,
            forall|f: int| !r.spec_consumed(f),
    {
        let n = memory_map.len();
        let mut used: Vec<u64> = Vec::new();
        let mut k: usize = 0;
        while k < n
            invariant
                k <= n,
                used@.len() == k,
                forall|i: int| 0 <= i < k ==> used@[i] == 0u64,
            decreases n - k,
        {
            used.push(0u64);
            k = k + 1;
        }
        let r = BootStrapAllocator { memory_map, next: 0, used };
        proof {
            lemma_total_usable_le_frame_count(r.memory_map);
            assert forall|b: int| 0 <= b < r.used@.len() implies (#[trigger] r.used@[b]) as int
                == region_used(r.memory_map, 0, b) by {
                lemma_usable_prefix_mono(r.memory_map, 0, b);
            }
            assert forall|f: int| !r.spec_consumed(f) by {}
        }
        r
    }

    /// Hands out the next untouched firmware-usable frame, scanning the
    /// usable regions in address order and skipping every frame this same
    /// bootstrap pass has already consumed; `None` once every usable frame
    /// is consumed.
    pub fn allocate_frame(&mut self) -> (r: Option<Frame>)
        requires
            old(self).wf(),
        ensures
            final(self).wf(),
            final(self).memory_map == old(self).memory_map,
            r.is_some() <==> (old(self).next as int) < total_usable(old(self).memory_map),
            r.is_some() ==> {
                &&& r.unwrap().id() == nth_usable(old(self).memory_map, old(self).next as int)
                &&& final(self).next as int == old(self).next as int + 1
                &&& old(self).memory_map.usable(r.unwrap().id())
                &&& r.unwrap().id() < old(self).memory_map.frame_count()
                &&& !old(self).spec_consumed(r.unwrap().id())
                &&& forall|g: int|
                    #[trigger] final(self).spec_consumed(g) <==> (old(self).spec_consumed(g) || g
                        == r.unwrap().id())
            },
            r.is_none() ==> *final(self) == *old(self),
    {
        let ghost m = self.memory_map;
        let ghost next0 = self.next as int;
        let n = self.memory_map.len();
        let mut b: usize = 0;
        let mut remaining: u64 = self.next;
        while b < n
            invariant
                *self == *old(self),
                self.wf(),
                m == self.memory_map,
                next0 == self.next as int,
                b <= n,
                n == m.regions().len(),
                usable_prefix(m, b as int) <= next0,
                remaining as int == next0 - usable_prefix(m, b as int),
                nth_usable(m, next0) == nth_usable_from(m, b as int, remaining as int),
            decreases n - b,
        {
            let region = self.memory_map.region(b);
            if region.region_type == MemoryRegionType::Usable {
                let size = region.end_frame - region.start_frame;
                if remaining < size {
                    let number = region.start_frame + remaining;
                    let prev_used = self.used[b];
                    proof {
                        lemma_total_usable_le_frame_count(m);
                    }
                    self.used.set(b, prev_used + 1);
                    self.next = self.next + 1;
                    proof {
                        self.lemma_allocate_updates(*old(self), b as int, number as int);
                    }
                    return Some(Frame { number });
                }
                proof {
                    assert(usable_prefix(m, b as int + 1) == usable_prefix(m, b as int)
                        + usable_size(m.regions()[b as int]));
                }
                remaining = remaining - size;
            } else {
                proof {
                    assert(usable_prefix(m, b as int + 1) == usable_prefix(m, b as int));
                }
            }
            b = b + 1;
        }
        proof {
            assert(usable_prefix(m, n as int) == total_usable(m));
        }
        None
    }

    /// After handing out the frame `f` at the front of region `b`'s
    /// untouched frames — bumping that region's consumption record and the
    /// overall count by one — the allocator is still well formed, `f` is a
    /// fresh usable frame, and the consumed set grew by exactly `f`.
    proof fn lemma_allocate_updates(self, prev: BootStrapAllocator, b: int, f: int)
        requires
            prev.wf(),
            0 <= b < prev.memory_map.regions().len(),
            prev.memory_map.regions()[b].region_type == MemoryRegionType::Usable,
            usable_prefix(prev.memory_map, b) <= prev.next as int,
            prev.next as int - usable_prefix(prev.memory_map, b) < usable_size(
                prev.memory_map.regions()[b],
            ),
            f == prev.memory_map.regions()[b].start_frame as int + prev.next as int
                - usable_prefix(prev.memory_map, b),
            self.memory_map == prev.memory_map,
            self.next as int == prev.next as int + 1,
            self.used@ == prev.used@.update(b, (prev.used@[b] + 1) as u64),
            prev.used@[b] as int + 1 <= u64::MAX as int,
        ensures
            self.wf(),
            prev.memory_map.usable(f),
            f < prev.memory_map.frame_count(),
            !prev.spec_consumed(f),
            forall|g: int| #[trigger] self.spec_consumed(g) <==> (prev.spec_consumed(g) || g == f),
    {
        let m = prev.memory_map;
        let len = m.regions().len() as int;
        let next = prev.next as int;
        let lo = usable_prefix(m, b);
        // The allocator stays well formed: region `b`'s record grows by
        // one, every other region's record is already at the value the new
        // count asks for.
        assert(self.next as int <= total_usable(m)) by {
            lemma_usable_prefix_mono(m, b + 1, len);
        }
        assert forall|c: int| 0 <= c < self.used@.len() implies (#[trigger] self.used@[c]) as int
            == region_used(m, next + 1, c) by {
            if c < b {
                lemma_usable_prefix_mono(m, c + 1, b);
            } else if c > b {
                lemma_usable_prefix_mono(m, b + 1, c);
            }
        }
        // The frame is usable and within the tracked range.
        assert(m.regions()[b].spec_contains(f));
        lemma_ty_of_containing_region(m, b, f);
        assert(f < m.frame_count()) by {
            assert(m.regions()[b].end_frame <= m.regions()[len - 1].end_frame);
        }
        // The frame is fresh: region `b` had consumed only the frames
        // strictly below `f`, and no other region's consumed span can
        // reach into region `b`.
        assert(!prev.spec_consumed(f)) by {
            assert forall|c: int|
                0 <= c < len && (#[trigger] m.regions()[c]).start_frame as int <= f implies !(f
                < m.regions()[c].start_frame as int + prev.used@[c] as int) by {
                if c != b {
                    assert(prev.used@[c] as int <= usable_size(m.regions()[c]));
                    if prev.used@[c] as int > 0 {
                        assert(m.regions()[c].region_type == MemoryRegionType::Usable);
                        if f < m.regions()[c].start_frame as int + prev.used@[c] as int {
                            assert(m.regions()[c].spec_contains(f));
                            lemma_regions_disjoint(m, b, c, f);
                        }
                    }
                }
            }
        }
        // The consumed set grows by exactly `f`.
        assert forall|g: int| #[trigger] self.spec_consumed(g) implies (prev.spec_consumed(g) || g
            == f) by {
            let c = choose|c: int|
                0 <= c < len && (#[trigger] m.regions()[c]).start_frame as int <= g && g
                    < m.regions()[c].start_frame as int + self.used@[c] as int;
            if c != b || g < m.regions()[b].start_frame as int + prev.used@[b] as int {
                assert(prev.spec_consumed(g));
            }
        }
        assert forall|g: int| (prev.spec_consumed(g) || g == f) implies #[trigger] self.spec_consumed(
            g,
        ) by {
            if g == f {
                assert(m.regions()[b].start_frame as int <= g < m.regions()[b].start_frame as int
                    + self.used@[b] as int);
            } else {
                let c = choose|c: int|
                    0 <= c < len && (#[trigger] m.regions()[c]).start_frame as int <= g && g
                        < m.regions()[c].start_frame as int + prev.used@[c] as int;
                assert(m.regions()[c].start_frame as int <= g < m.regions()[c].start_frame as int
                    + self.used@[c] as int);
            }
        }
    }

    /// The number of usable frames this allocator can still hand out.
    pub fn frames_left(&self) -> (r: u64)
        requires
            self.wf(),
        ensures
            r as int == total_usable(self.memory_map) - self.next as int,
    {
        let ghost m = self.memory_map;
        let n = self.memory_map.len();
        let mut b: usize = 0;
        let mut total: u64 = 0;
        proof {
            lemma_total_usable_le_frame_count(m);
        }
        while b < n
            invariant
                b <= n,
                n == m.regions().len(),
                m == self.memory_map,
                self.wf(),
                total as int == usable_prefix(m, b as int),
                total as int <= total_usable(m),
                total_usable(m) <= m.frame_count(),
            decreases n - b,
        {
            let region = self.memory_map.region(b);
            proof {
                lemma_usable_prefix_mono(m, b as int + 1, n as int);
            }
            if region.region_type == MemoryRegionType::Usable {
                total = total + (region.end_frame - region.start_frame);
            }
            b = b + 1;
        }
        total - self.next
    }

    /// Obtains the frames that will back `count` pages of bitmap storage,
    /// each paired with its fixed virtual address in the reserved bitmap
    /// window, in window order. The caller installs each pair as a
    /// present and writable mapping. Fails with `FrameExhausted`, leaving
    /// the allocator untouched, exactly when fewer than `count` usable
    /// frames are left.
    pub fn allocate_bitmap_storage(&mut self, count: u64) -> (r: Result<
        Vec<(u64, Frame)>,
        MemError,
    >)
        requires
            old(self).wf(),
            count <= 0x1_0000_0000u64,
        ensures
            final(self).wf(),
            final(self).memory_map == old(self).memory_map,
            r.is_ok() <==> old(self).next as int + count as int <= total_usable(
                old(self).memory_map,
            ),
            r.is_err() ==> r == Err::<Vec<(u64, Frame)>, MemError>(MemError::FrameExhausted)
                && *final(self) == *old(self),
            r.is_ok() ==> {
                let v = r.unwrap();
                &&& v@.len() == count as int
                &&& forall|i: int|
                    0 <= i < count as int ==> (#[trigger] v@[i]).0 as int == BITMAP_START as int + i
                        * PAGE_SIZE as int
                &&& forall|i: int|
                    0 <= i < count as int ==> (#[trigger] v@[i]).1.id() == nth_usable(
                        old(self).memory_map,
                        old(self).next as int + i,
                    )
                &&& forall|i: int, j: int| 0 <= i < j < count as int ==> v@[i].1.id() != v@[j].1.id()
                &&& forall|i: int|
                    0 <= i < count as int ==> old(self).memory_map.usable((#[trigger] v@[i]).1.id())
                &&& final(self).next as int == old(self).next as int + count as int
                &&& forall|g: int|
                    #[trigger] final(self).spec_consumed(g) <==> (old(self).spec_consumed(g)
                        || exists|i: int|
                        0 <= i < count as int && g == #[trigger] nth_usable(
                            old(self).memory_map,
                            old(self).next as int + i,
                        ))
            },
    {
        let ghost m = self.memory_map;
        let ghost next0 = self.next as int;
        if self.frames_left() < count {
            return Err(MemError::FrameExhausted);
        }
        let mut out: Vec<(u64, Frame)> = Vec::new();
        let mut i: u64 = 0;
        while i < count
            invariant
                i <= count,
                count <= 0x1_0000_0000u64,
                self.wf(),
                m == self.memory_map,
                self.next as int == next0 + i as int,
                next0 + count as int <= total_usable(m),
                out@.len() == i as int,
                forall|k: int|
                    0 <= k < i as int ==> (#[trigger] out@[k]).0 as int == BITMAP_START as int + k
                        * PAGE_SIZE as int,
                forall|k: int|
                    0 <= k < i as int ==> (#[trigger] out@[k]).1.id() == nth_usable(m, next0 + k),
                forall|k: int| 0 <= k < i as int ==> m.usable((#[trigger] out@[k]).1.id()),
                forall|k: int| 0 <= k < i as int ==> self.spec_consumed((#[trigger] out@[k]).1.id()),
                forall|k: int, j: int| 0 <= k < j < i as int ==> out@[k].1.id() != out@[j].1.id(),
                forall|g: int|
                    #[trigger] self.spec_consumed(g) <==> (old(self).spec_consumed(g)
                        || exists|k: int|
                        0 <= k < i as int && g == #[trigger] nth_usable(m, next0 + k)),
            decreases count - i,
        {
            let vaddr = BITMAP_START + i * PAGE_SIZE;
            match self.allocate_frame() {
                Some(frame) => {
                    out.push((vaddr, frame));
                    i = i + 1;
                },
                None => {
                    // Unreachable: the capacity check above guarantees a
                    // frame for every iteration.
                    proof {
                        assert(false);
                    }
                    return Err(MemError::FrameExhausted);
                },
            }
        }
        Ok(out)
    }

    /// The per-region consumption record: how many frames of region `b`
    /// this allocator has handed out.
    pub fn region_used_count(&self, b: usize) -> (r: u64)
        requires
            b < self.used@.len(),
        ensures
            r == self.used@[b as int],
    {
        self.used[b]
    }
}

} // verus!
