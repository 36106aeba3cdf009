//! PCI configuration-space access, mechanism one: the address-word
//! encoding and the offset-alignment rule. The port reads and writes
//! themselves belong to the unverified hardware layer.

use vstd::prelude::*;

verus! {

/// The port of the configuration-address register.
pub const CONFIG_ADDRESS: u16 = 0xCF8;

/// The port of the configuration-data register.
pub const CONFIG_DATA: u16 = 0xCFC;

/// Configuration-space access through the legacy address and data ports.
pub struct ConfigSpaceMechanism1;

/// The word written to the configuration-address port to select a
/// function: the enable bit, then bus, device and function in their
/// fields.
pub fn config_address(bus: u8, device: u8, function: u8) -> (r: u32)
    requires
        device < 32,
        function < 8,
    ensures
        r == ((function as u32) << 8) | ((device as u32) << 11) | ((bus as u32) << 16) | (1u32
            << 31),
{
    ((function as u32) << 8) | ((device as u32) << 11) | ((bus as u32) << 16) | (1u32 << 31)
}

/// Whether a configuration-space offset is word-aligned; unaligned
/// offsets are a programming error that the access layer refuses.
pub fn offset_aligned(offset: u16) -> (r: bool)
    ensures
        r == (offset & 0b11 == 0),
{
    offset & 0b11 == 0
}

} // verus!
