//! SATA controller register layout: the capability and port register
//! words the driver reads, as plain values. Reading and writing the live
//! MMIO block belongs to the unverified hardware layer.

use vstd::prelude::*;

verus! {

/// What the interface-speed field of a capability word decodes to.
pub open spec fn spec_interface_speed(bits: u32) -> InterfaceSpeed {
    if bits == 1 {
        InterfaceSpeed::Gen1
    } else if bits == 2 {
        InterfaceSpeed::Gen2
    } else if bits == 3 {
        InterfaceSpeed::Gen3
    } else {
        InterfaceSpeed::Reserved
    }
}

/// The negotiated interface speed generation.
#[derive(Clone, Copy, Debug, PartialEq, Eq, Structural)]
pub enum InterfaceSpeed {
    Gen1,
    Gen2,
    Gen3,
    Reserved,
}

/// The host-bus adapter's capability register word.
#[derive(Clone, Copy, Debug, PartialEq, Eq, Structural)]
pub struct HBACapabilities {
    pub bits: u32,
}

impl HBACapabilities {
    /// Wraps a raw capability word.
    pub fn new(bits: u32) -> (r: HBACapabilities)
        ensures
            r.bits == bits,
    {
        HBACapabilities { bits }
    }

    /// The number of ports the adapter supports, zero-based.
    pub fn number_of_ports(&self) -> (r: u8)
        ensures
            r == (self.bits & 0b11111) as u8,
    {
        (self.bits & 0b11111) as u8
    }

    /// The number of command slots per port, zero-based.
    pub fn number_of_cmd_slots(&self) -> (r: u8)
        ensures
            r == ((self.bits >> 8) & 0b11111) as u8,
    {
        ((self.bits >> 8) & 0b11111) as u8
    }

    /// The highest interface speed the adapter supports.
    pub fn if_speed(&self) -> (r: InterfaceSpeed)
        ensures
            r == spec_interface_speed((self.bits >> 20) & 0b1111),
    {
        match (self.bits >> 20) & 0b1111 {
            1 => InterfaceSpeed::Gen1,
            2 => InterfaceSpeed::Gen2,
            3 => InterfaceSpeed::Gen3,
            _ => InterfaceSpeed::Reserved,
        }
    }
}

/// The global host-control register word.
#[derive(Clone, Copy, Debug, PartialEq, Eq, Structural)]
pub struct GlobalHBAControl {
    pub bits: u32,
}

/// One port's register block.
pub struct HBAPortRegisters {
    pub clb: u32,
    pub clbu: u32,
    pub fb: u32,
    pub fbu: u32,
    pub int_status: u32,
    pub int_enable: u32,
    pub cmd: u32,
    pub tfd: u32,
    pub sig: u32,
    pub ssts: u32,
    pub sctl: u32,
    pub serr: u32,
    pub sact: u32,
    pub cmd_issue: u32,
    pub sntf: u32,
    pub fbs: u32,
}

impl HBAPortRegisters {
    /// The command-list base address the two halves encode.
    pub open spec fn spec_cmd_list_addr(self) -> u64 {
        ((self.clbu as u64) << 32) | (self.clb as u64)
    }

    /// The received-FIS base address the two halves encode.
    pub open spec fn spec_fis_addr(self) -> u64 {
        ((self.fbu as u64) << 32) | (self.fb as u64)
    }

    /// The command-list base address.
    pub fn cmd_list_addr(&self) -> (r: u64)
        ensures
            r == self.spec_cmd_list_addr(),
    {
        ((self.clbu as u64) << 32) | (self.clb as u64)
    }

    /// Sets the command-list base address; the address must be 1 KiB
    /// aligned.
    pub fn set_cmd_list_addr(&mut self, addr: u64)
        requires
            addr & 0x3FF == 0,
        ensures
            final(self).spec_cmd_list_addr() == addr,
            final(self).spec_fis_addr() == old(self).spec_fis_addr(),
    {
        self.clb = addr as u32;
        self.clbu = (addr >> 32) as u32;
        proof {
            assert((((addr >> 32) as u32 as u64) << 32) | (addr as u32 as u64) == addr)
                by (bit_vector);
        }
    }

    /// The received-FIS base address.
    pub fn fis_addr(&self) -> (r: u64)
        ensures
            r == self.spec_fis_addr(),
    {
        ((self.fbu as u64) << 32) | (self.fb as u64)
    }
}

/// How many of the first `n` bits of `w` are set.
pub open spec fn spec_ones_below(w: u32, n: nat) -> int
    decreases n,
{
    if n == 0 {
        0
    } else {
        spec_ones_below(w, (n - 1) as nat) + if (w >> ((n - 1) as u32)) & 1 == 1 {
            1int
        } else {
            0int
        }
    }
}

/// The adapter-wide register block.
pub struct HBAMemoryRegisters {
    pub cap: HBACapabilities,
    pub ghc: GlobalHBAControl,
    pub int_status: u32,
    pub port_implemented: u32,
    pub version: u32,
    pub ccc_ctl: u32,
    pub ccc_ports: u32,
    pub em_loc: u32,
    pub em_ctl: u32,
    pub cap_ext: u32,
    pub bohc: u32,
}

impl HBAMemoryRegisters {
    /// The number of implemented ports: the set bits of the
    /// port-implemented word.
    pub fn port_count(&self) -> (r: u32)
        ensures
            r as int == spec_ones_below(self.port_implemented, 32),
    {
        let w = self.port_implemented;
        let mut i: u32 = 0;
        let mut count: u32 = 0;
        while i < 32
            invariant
                i <= 32,
                count as int == spec_ones_below(w, i as nat),
                count <= i,
            decreases 32 - i,
        {
            if (w >> i) & 1 == 1 {
                count = count + 1;
            }
            i = i + 1;
        }
        count
    }
}

} // verus!
