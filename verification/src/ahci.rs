//! AHCI host-bus-adapter register layout: capability, status and port
//! register words and the field decodings the driver reads. The values
//! here are plain register words; reading and writing the live MMIO
//! block belongs to the unverified hardware layer.

use vstd::prelude::*;

verus! {

pub const ATA_SIGNATURE: u32 = 0x00000101;
pub const ATAPI_SIGNATURE: u32 = 0xEB140101;
pub const SEMB_SIGNATURE: u32 = 0xC33C0101;
pub const PM_SIGNATURE: u32 = 0x96690101;

/// What the interface-speed field of a status or capability word decodes
/// to.
pub open spec fn spec_interface_speed(bits: u32) -> InterfaceSpeed {
    if bits == 1 {
        InterfaceSpeed::Gen1
    } else if bits == 2 {
        InterfaceSpeed::Gen2
    } else if bits == 3 {
        InterfaceSpeed::Gen3
    } else {
        InterfaceSpeed::Reserved
    }
}

/// What the interface-power-management field decodes to.
pub open spec fn spec_power_management(bits: u32) -> InterfacePowerManagement {
    if bits == 0 {
        InterfacePowerManagement::NoDevice
    } else if bits == 1 {
        InterfacePowerManagement::Active
    } else if bits == 2 {
        InterfacePowerManagement::Partial
    } else if bits == 6 {
        InterfacePowerManagement::Slumber
    } else if bits == 8 {
        InterfacePowerManagement::DevSleep
    } else {
        InterfacePowerManagement::Reserved
    }
}

/// What the device-detection field decodes to.
pub open spec fn spec_device_detection(bits: u32) -> DeviceDetection {
    if bits == 0 {
        DeviceDetection::NoDevice
    } else if bits == 1 {
        DeviceDetection::DeviceNoPhy
    } else if bits == 3 {
        DeviceDetection::Device
    } else if bits == 4 {
        DeviceDetection::InterfaceDisabled
    } else {
        DeviceDetection::Reserved
    }
}

/// The negotiated interface speed generation.
#[derive(Clone, Copy, Debug, PartialEq, Eq, Structural)]
pub enum InterfaceSpeed {
    Gen1,
    Gen2,
    Gen3,
    Reserved,
}

impl InterfaceSpeed {
    /// Decodes a raw interface-speed field.
    pub fn from_bits(bits: u32) -> (r: InterfaceSpeed)
        ensures
            r == spec_interface_speed(bits),
    {
        match bits {
            1 => InterfaceSpeed::Gen1,
            2 => InterfaceSpeed::Gen2,
            3 => InterfaceSpeed::Gen3,
            _ => InterfaceSpeed::Reserved,
        }
    }
}

/// The port's interface power-management state.
#[derive(Clone, Copy, Debug, PartialEq, Eq, Structural)]
pub enum InterfacePowerManagement {
    NoDevice,
    Active,
    Partial,
    Slumber,
    DevSleep,
    Reserved,
}

impl InterfacePowerManagement {
    /// Decodes a raw interface-power-management field.
    pub fn from_bits(bits: u32) -> (r: InterfacePowerManagement)
        ensures
            r == spec_power_management(bits),
    {
        match bits {
            0 => InterfacePowerManagement::NoDevice,
            1 => InterfacePowerManagement::Active,
            2 => InterfacePowerManagement::Partial,
            6 => InterfacePowerManagement::Slumber,
            8 => InterfacePowerManagement::DevSleep,
            _ => InterfacePowerManagement::Reserved,
        }
    }
}

/// The port's device-detection state.
#[derive(Clone, Copy, Debug, PartialEq, Eq, Structural)]
pub enum DeviceDetection {
    NoDevice,
    DeviceNoPhy,
    Device,
    InterfaceDisabled,
    Reserved,
}

impl DeviceDetection {
    /// Decodes a raw device-detection field.
    pub fn from_bits(bits: u32) -> (r: DeviceDetection)
        ensures
            r == spec_device_detection(bits),
    {
        match bits {
            0 => DeviceDetection::NoDevice,
            1 => DeviceDetection::DeviceNoPhy,
            3 => DeviceDetection::Device,
            4 => DeviceDetection::InterfaceDisabled,
            _ => DeviceDetection::Reserved,
        }
    }

    /// Whether a device is attached, with or without established
    /// communication.
    pub fn has_device(&self) -> (r: bool)
        ensures
            r == (*self == DeviceDetection::Device || *self == DeviceDetection::DeviceNoPhy),
    {
        match self {
            DeviceDetection::Device => true,
            DeviceDetection::DeviceNoPhy => true,
            _ => false,
        }
    }
}

/// The host-bus adapter's capability register word.
#[derive(Clone, Copy, Debug, PartialEq, Eq, Structural)]
pub struct HBACapabilities {
    pub bits: u32,
}

impl HBACapabilities {
    /// Wraps a raw capability word.
    pub fn new(bits: u32) -> (r: HBACapabilities)
        ensures
            r.bits == bits,
    {
        HBACapabilities { bits }
    }

    /// The raw register word.
    pub fn bits(&self) -> (r: u32)
        ensures
            r == self.bits,
    {
        self.bits
    }

    /// The number of ports the adapter supports, zero-based.
    pub fn number_of_ports(&self) -> (r: u8)
        ensures
            r == (self.bits & 0b11111) as u8,
    {
        (self.bits & 0b11111) as u8
    }

    /// The number of command slots per port, zero-based.
    pub fn number_of_cmd_slots(&self) -> (r: u8)
        ensures
            r == ((self.bits >> 8) & 0b11111) as u8,
    {
        ((self.bits >> 8) & 0b11111) as u8
    }

    /// The highest interface speed the adapter supports.
    pub fn if_speed(&self) -> (r: InterfaceSpeed)
        ensures
            r == spec_interface_speed((self.bits >> 20) & 0b1111),
    {
        InterfaceSpeed::from_bits((self.bits >> 20) & 0b1111)
    }
}

/// The global host-control register word.
#[derive(Clone, Copy, Debug, PartialEq, Eq, Structural)]
pub struct GlobalHBAControl {
    pub bits: u32,
}

/// A port's SATA-status register word.
#[derive(Clone, Copy, Debug, PartialEq, Eq, Structural)]
pub struct StatusPort {
    pub bits: u32,
}

impl StatusPort {
    /// Wraps a raw SATA-status word.
    pub fn new(bits: u32) -> (r: StatusPort)
        ensures
            r.bits == bits,
    {
        StatusPort { bits }
    }

    /// The current negotiated interface speed.
    pub fn if_speed(&self) -> (r: InterfaceSpeed)
        ensures
            r == spec_interface_speed((self.bits >> 4) & 0b1111),
    {
        InterfaceSpeed::from_bits((self.bits >> 4) & 0b1111)
    }

    /// The current power-management state.
    pub fn if_power_management(&self) -> (r: InterfacePowerManagement)
        ensures
            r == spec_power_management((self.bits >> 8) & 0b1111),
    {
        InterfacePowerManagement::from_bits((self.bits >> 8) & 0b1111)
    }

    /// The device-detection state.
    pub fn detection(&self) -> (r: DeviceDetection)
        ensures
            r == spec_device_detection(self.bits & 0b1111),
    {
        DeviceDetection::from_bits(self.bits & 0b1111)
    }
}

/// One port's register block.
pub struct HBAPortRegisters {
    clb: u32,
    clbu: u32,
    fb: u32,
    fbu: u32,
    pub int_status: u32,
    pub int_enable: u32,
    pub cmd: u32,
    pub tfd: u32,
    pub sig: u32,
    pub ssts: StatusPort,
    pub sctl: u32,
    pub serr: u32,
    pub sact: u32,
    pub cmd_issue: u32,
    pub sntf: u32,
    pub fbs: u32,
}

impl HBAPortRegisters {
    /// The command-list base address the two halves encode.
    pub closed spec fn spec_cmd_list_addr(self) -> u64 {
        ((self.clbu as u64) << 32) | (self.clb as u64)
    }

    /// The FIS base address the two halves encode.
    pub closed spec fn spec_fis_addr(self) -> u64 {
        ((self.fbu as u64) << 32) | (self.fb as u64)
    }

    /// A port register block with every word clear.
    pub fn new() -> (r: HBAPortRegisters)
        ensures
            r.spec_cmd_list_addr() == 0,
            r.spec_fis_addr() == 0,
    {
        let r = HBAPortRegisters {
            clb: 0,
            clbu: 0,
            fb: 0,
            fbu: 0,
            int_status: 0,
            int_enable: 0,
            cmd: 0,
            tfd: 0,
            sig: 0,
            ssts: StatusPort { bits: 0 },
            sctl: 0,
            serr: 0,
            sact: 0,
            cmd_issue: 0,
            sntf: 0,
            fbs: 0,
        };
        proof {
            assert(((0u64 << 32) | 0u64) == 0u64) by (bit_vector);
        }
        r
    }

    /// The command-list base address.
    pub fn cmd_list_addr(&self) -> (r: u64)
        ensures
            r == self.spec_cmd_list_addr(),
    {
        ((self.clbu as u64) << 32) | (self.clb as u64)
    }

    /// Sets the command-list base address; the address must be 1 KiB
    /// aligned.
    pub fn set_cmd_list_addr(&mut self, addr: u64)
        requires
            addr & 0x3FF == 0,
        ensures
            final(self).spec_cmd_list_addr() == addr,
            final(self).spec_fis_addr() == old(self).spec_fis_addr(),
    {
        self.clb = addr as u32;
        self.clbu = (addr >> 32) as u32;
        proof {
            assert((((addr >> 32) as u32 as u64) << 32) | (addr as u32 as u64) == addr)
                by (bit_vector);
        }
    }

    /// The received-FIS base address.
    pub fn fis_addr(&self) -> (r: u64)
        ensures
            r == self.spec_fis_addr(),
    {
        ((self.fbu as u64) << 32) | (self.fb as u64)
    }

    /// Sets the received-FIS base address; the address must be 1 KiB
    /// aligned.
    pub fn set_fb_list_addr(&mut self, addr: u64)
        requires
            addr & 0x3FF == 0,
        ensures
            final(self).spec_fis_addr() == addr,
            final(self).spec_cmd_list_addr() == old(self).spec_cmd_list_addr(),
    {
        self.fb = addr as u32;
        self.fbu = (addr >> 32) as u32;
        proof {
            assert((((addr >> 32) as u32 as u64) << 32) | (addr as u32 as u64) == addr)
                by (bit_vector);
        }
    }
}

/// How many of the first `n` bits of `w` are set.
pub open spec fn spec_ones_below(w: u32, n: nat) -> int
    decreases n,
{
    if n == 0 {
        0
    } else {
        spec_ones_below(w, (n - 1) as nat) + if (w >> ((n - 1) as u32)) & 1 == 1 {
            1int
        } else {
            0int
        }
    }
}

/// The adapter-wide register block.
pub struct HBAMemoryRegisters {
    pub cap: HBACapabilities,
    pub ghc: GlobalHBAControl,
    pub int_status: u32,
    pub port_implemented: u32,
    pub version: u32,
    pub ccc_ctl: u32,
    pub ccc_ports: u32,
    pub em_loc: u32,
    pub em_ctl: u32,
    pub cap_ext: u32,
    pub bohc: u32,
}

impl HBAMemoryRegisters {
    /// The number of implemented ports: the set bits of the
    /// port-implemented word.
    pub fn port_count(&self) -> (r: u32)
        ensures
            r as int == spec_ones_below(self.port_implemented, 32),
    {
        let w = self.port_implemented;
        let mut i: u32 = 0;
        let mut count: u32 = 0;
        while i < 32
            invariant
                i <= 32,
                count as int == spec_ones_below(w, i as nat),
                count <= i,
            decreases 32 - i,
        {
            if (w >> i) & 1 == 1 {
                count = count + 1;
            }
            i = i + 1;
        }
        count
    }
}

} // verus!
