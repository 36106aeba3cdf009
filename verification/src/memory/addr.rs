//! Physical frames, virtual pages, and page-table flag bits.
//!
//! A frame or page is identified by its number: its 4 KiB-aligned start
//! address divided by the page size. Addresses themselves appear only at
//! the edges, where callers hand in raw firmware-supplied values.

use vstd::prelude::*;
use crate::MemError;

verus! {

/// Size in bytes of one physical frame and one virtual page.
pub const PAGE_SIZE: u64 = 0x1000;

/// Largest frame or page number whose start address still fits in `u64`.
pub const MAX_PAGE_NUMBER: u64 = 0xF_FFFF_FFFF_FFFF;

/// Page-table entry flag: the mapping is present.
pub const FLAG_PRESENT: u64 = 0x1;
/// Page-table entry flag: the mapping is writable.
pub const FLAG_WRITABLE: u64 = 0x2;
/// Page-table entry flag: writes go straight through the cache.
pub const FLAG_WRITE_THROUGH: u64 = 0x8;
/// Page-table entry flag: caching is disabled, as MMIO requires.
pub const FLAG_NO_CACHE: u64 = 0x10;

/// A 4 KiB-aligned unit of physical memory, identified by its number.
#[derive(Clone, Copy, Debug, PartialEq, Eq, Structural)]
pub struct Frame {
    pub number: u64,
}

/// A 4 KiB-aligned unit of virtual address space, identified by its number.
#[derive(Clone, Copy, Debug, PartialEq, Eq, Structural)]
pub struct Page {
    pub number: u64,
}

impl Frame {
    /// The frame's identity in specifications: its number as a mathematical
    /// integer.
    pub open spec fn id(self) -> int {
        self.number as int
    }

    /// The frame with the given number.
    pub fn from_number(number: u64) -> (r: Frame)
        ensures
            r.id() == number as int,
    {
        Frame { number }
    }

    /// The frame that starts exactly at `addr`; `UnalignedAddress` if `addr`
    /// is not 4 KiB-aligned.
    pub fn from_start_address(addr: u64) -> (r: Result<Frame, MemError>)
        ensures
            addr as int % PAGE_SIZE as int == 0 ==> r == Ok::<Frame, MemError>(
                Frame { number: (addr / PAGE_SIZE) as u64 },
            ),
            addr as int % PAGE_SIZE as int != 0 ==> r == Err::<Frame, MemError>(
                MemError::UnalignedAddress,
            ),
    {
        if addr % PAGE_SIZE == 0 {
            Ok(Frame { number: addr / PAGE_SIZE })
        } else {
            Err(MemError::UnalignedAddress)
        }
    }

    /// The frame that contains the byte at `addr`.
    pub fn containing_address(addr: u64) -> (r: Frame)
        ensures
            r.id() == addr as int / PAGE_SIZE as int,
    {
        Frame { number: addr / PAGE_SIZE }
    }

    /// The frame's start address.
    pub fn start_address(&self) -> (r: u64)
        requires
            self.id() <= MAX_PAGE_NUMBER as int,
        ensures
            r as int == self.id() * PAGE_SIZE as int,
    {
        self.number * PAGE_SIZE
    }
}

impl Page {
    /// The page's identity in specifications: its number as a mathematical
    /// integer.
    pub open spec fn id(self) -> int {
        self.number as int
    }

    /// The page with the given number.
    pub fn from_number(number: u64) -> (r: Page)
        ensures
            r.id() == number as int,
    {
        Page { number }
    }

    /// The page that starts exactly at `addr`; `UnalignedAddress` if `addr`
    /// is not 4 KiB-aligned.
    pub fn from_start_address(addr: u64) -> (r: Result<Page, MemError>)
        ensures
            addr as int % PAGE_SIZE as int == 0 ==> r == Ok::<Page, MemError>(
                Page { number: (addr / PAGE_SIZE) as u64 },
            ),
            addr as int % PAGE_SIZE as int != 0 ==> r == Err::<Page, MemError>(
                MemError::UnalignedAddress,
            ),
    {
        if addr % PAGE_SIZE == 0 {
            Ok(Page { number: addr / PAGE_SIZE })
        } else {
            Err(MemError::UnalignedAddress)
        }
    }

    /// The page that contains the byte at `addr`.
    pub fn containing_address(addr: u64) -> (r: Page)
        ensures
            r.id() == addr as int / PAGE_SIZE as int,
    {
        Page { number: addr / PAGE_SIZE }
    }

    /// The page's start address.
    pub fn start_address(&self) -> (r: u64)
        requires
            self.id() <= MAX_PAGE_NUMBER as int,
        ensures
            r as int == self.id() * PAGE_SIZE as int,
    {
        self.number * PAGE_SIZE
    }
}

} // verus!
