//! The firmware memory map: an ordered sequence of physical-frame ranges,
//! each classified by the boot-stage firmware, handed to this core once and
//! read-only thereafter.

use vstd::prelude::*;

verus! {

/// Number of physical frames this core can track: enough for 16 TiB.
pub const MAX_FRAME_COUNT: u64 = 0x1_0000_0000;

/// The firmware's classification of a physical memory region.
#[derive(Clone, Copy, Debug, PartialEq, Eq, Structural)]
pub enum MemoryRegionType {
    /// General RAM, free for allocation.
    Usable,
    /// Firmware- or device-owned memory; never allocated, but mappable.
    Reserved,
    /// ACPI tables; becomes usable once the tables are parsed.
    AcpiReclaimable,
    /// The kernel stack set up by the boot stage.
    KernelStack,
    /// The zero page; left out of general allocation but mappable.
    FrameZero,
    /// Any other classification the firmware reports.
    Other,
}

/// One record of the firmware memory map: the frames
/// `[start_frame, end_frame)` and their classification.
#[derive(Clone, Copy, Debug, PartialEq, Eq, Structural)]
pub struct MemoryRegion {
    pub start_frame: u64,
    pub end_frame: u64,
    pub region_type: MemoryRegionType,
}

impl MemoryRegion {
    /// Whether the frame with number `f` lies in this region.
    pub open spec fn spec_contains(self, f: int) -> bool {
        self.start_frame as int <= f < self.end_frame as int
    }
}

/// The firmware memory map: regions in address order, pairwise disjoint.
#[derive(Debug)]
pub struct MemoryMap {
    regions: Vec<MemoryRegion>,
}

impl MemoryMap {
    /// The map's records, in the order the firmware reported them.
    pub closed spec fn regions(self) -> Seq<MemoryRegion> {
        self.regions@
    }

    /// Well-formedness: every region is a proper range, regions come in
    /// address order without overlap, and the whole map stays within the
    /// frame count this core can track.
    pub open spec fn wf(self) -> bool {
        &&& forall|i: int|
            0 <= i < self.regions().len() ==> (#[trigger] self.regions()[i]).start_frame
                <= self.regions()[i].end_frame
        &&& forall|i: int, j: int|
            0 <= i < j < self.regions().len() ==> (#[trigger] self.regions()[i]).end_frame <= (
            #[trigger] self.regions()[j]).start_frame
        &&& self.regions().len() > 0 ==> self.regions().last().end_frame <= MAX_FRAME_COUNT
    }

    /// The number of frames the map covers: everything below the end of its
    /// last region.
    pub open spec fn frame_count(self) -> int {
        if self.regions().len() == 0 {
            0
        } else {
            self.regions().last().end_frame as int
        }
    }

    /// The classification of frame `f` by the first region that contains
    /// it, scanning from region `i` on.
    pub open spec fn ty_of_from(self, f: int, i: int) -> Option<MemoryRegionType>
        decreases self.regions().len() - i,
    {
        if i < 0 || i >= self.regions().len() {
            None
        } else if self.regions()[i].spec_contains(f) {
            Some(self.regions()[i].region_type)
        } else {
            self.ty_of_from(f, i + 1)
        }
    }

    /// The classification of frame `f`: that of the region containing it,
    /// or `None` if no region does.
    pub open spec fn ty_of(self, f: int) -> Option<MemoryRegionType> {
        self.ty_of_from(f, 0)
    }

    /// Whether frame `f` lies in a firmware-usable region.
    pub open spec fn usable(self, f: int) -> bool {
        self.ty_of(f) == Some(MemoryRegionType::Usable)
    }

    /// An empty memory map.
    pub fn new() -> (r: MemoryMap)
        ensures
            r.wf(),
            r.regions() =~= Seq::<MemoryRegion>::empty(),
    {
        MemoryMap { regions: Vec::new() }
    }

    /// Appends a record, provided it keeps the map well formed: the range
    /// must be proper, lie within the trackable frame count, and start at
    /// or after the end of the previous record. Returns whether the record
    /// was accepted; a rejected record leaves the map unchanged.
    pub fn push_region(&mut self, region: MemoryRegion) -> (r: bool)
        requires
            old(self).wf(),
        ensures
            final(self).wf(),
            r <==> {
                &&& region.start_frame <= region.end_frame
                &&& region.end_frame <= MAX_FRAME_COUNT
                &&& (old(self).regions().len() == 0 || old(self).regions().last().end_frame
                    <= region.start_frame)
            },
            r ==> final(self).regions() =~= old(self).regions().push(region),
            !r ==> final(self).regions() =~= old(self).regions(),
    {
        let accept = region.start_frame <= region.end_frame && region.end_frame <= MAX_FRAME_COUNT
            && (self.regions.len() == 0 || self.regions[self.regions.len() - 1].end_frame
            <= region.start_frame);
        if accept {
            self.regions.push(region);
        }
        accept
    }

    /// The number of records in the map.
    pub fn len(&self) -> (r: usize)
        ensures
            r == self.regions().len(),
    {
        self.regions.len()
    }

    /// The record at index `i`.
    pub fn region(&self, i: usize) -> (r: MemoryRegion)
        requires
            i < self.regions().len(),
        ensures
            r == self.regions()[i as int],
    {
        self.regions[i]
    }

    /// Classifies frame `f` by containment: the type of the region whose
    /// range includes it, or `None` when the map has no such region.
    pub fn region_type_of(&self, f: u64) -> (r: Option<MemoryRegionType>)
        ensures
            r == self.ty_of(f as int),
    {
        let n = self.regions.len();
        let mut i: usize = 0;
        while i < n
            invariant
                i <= n,
                n == self.regions().len(),
                self.ty_of(f as int) == self.ty_of_from(f as int, i as int),
            decreases n - i,
        {
            let region = self.regions[i];
            if region.start_frame <= f && f < region.end_frame {
                return Some(region.region_type);
            }
            i = i + 1;
        }
        None
    }
}

} // verus!
