//! Physical-memory and address-space management core of a bare-metal x86-64
//! kernel: a bitmap frame allocator bootstrapped from the firmware memory
//! map, a paging context that serializes page-table mutation, and a
//! reference-counted identity-mapping registry used by hardware discovery.

use vstd::prelude::*;

pub mod acpi;
pub mod ahci;
pub mod allocator;
pub mod apic;
pub mod interrupts;
pub mod memory;
pub mod pci;
pub mod sata;

verus! {

/// Errors of the memory-management core.
///
/// Every one of these marks a fatal boot-time condition: the caller is
/// expected to halt with diagnostics rather than retry.
#[derive(Clone, Copy, Debug, PartialEq, Eq, Structural)]
pub enum MemError {
    /// No free, firmware-usable physical frame is left.
    FrameExhausted,
    /// The requested virtual page already has a mapping installed.
    PageAlreadyMapped,
    /// An unmap was requested for a page with no mapping: a double release.
    UnmapOfUnmappedPage,
    /// An address that had to be 4 KiB-aligned was not.
    UnalignedAddress,
    /// The frame's firmware region classification forbids the requested
    /// mapping policy (for example, general usable RAM as an MMIO target).
    UnsupportedRegionForMapping,
}

/// The exit codes handed to the emulator's debug exit device by the test
/// harness.
#[derive(Clone, Copy, Debug, PartialEq, Eq, Structural)]
pub enum QemuExitCode {
    Success,
    Failed,
}

impl QemuExitCode {
    /// The code word the exit device expects for this outcome.
    pub fn code(self) -> (r: u32)
        ensures
            self == QemuExitCode::Success ==> r == 0x10,
            self == QemuExitCode::Failed ==> r == 0x11,
    {
        match self {
            QemuExitCode::Success => 0x10,
            QemuExitCode::Failed => 0x11,
        }
    }
}

/// Something the test harness can run.
pub trait Testable {
    fn run(&self);
}

} // verus!
