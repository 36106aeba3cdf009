//! APIC and I/O APIC data: interrupt-source overrides, I/O APIC
//! descriptors, and the 64-bit redirection-table entry with its field
//! accessors. Reading and writing the live redirection registers belongs
//! to the unverified hardware layer.

use vstd::prelude::*;

verus! {

/// One interrupt-source override from the firmware tables: the ISA
/// interrupt is rerouted to the given global system interrupt.
#[derive(Clone, Copy, Debug, PartialEq, Eq, Structural)]
pub struct InterruptSourceOverride {
    pub isa_source: u8,
    pub global_system_interrupt: u32,
}

/// An I/O APIC as discovery reported it: where its registers live and
/// the first global system interrupt it handles.
#[derive(Clone, Copy, Debug, PartialEq, Eq, Structural)]
pub struct IOApic {
    pub base_address: u64,
    pub base_interrupt: u8,
}

impl IOApic {
    /// A descriptor for an I/O APIC at the given register base, handling
    /// interrupts from `base_interrupt` on.
    pub fn new(base_address: u64, base_interrupt: u8) -> (r: IOApic)
        ensures
            r.base_address == base_address,
            r.base_interrupt == base_interrupt,
    {
        IOApic { base_address, base_interrupt }
    }
}

/// The first override of `overrides` that reroutes `vector`, if any,
/// scanning from index `i`.
pub open spec fn override_of_from(overrides: Seq<InterruptSourceOverride>, vector: u8, i: int) -> Option<u8>
    decreases overrides.len() - i,
{
    if i < 0 || i >= overrides.len() {
        None
    } else if overrides[i].isa_source == vector {
        Some(overrides[i].global_system_interrupt as u8)
    } else {
        override_of_from(overrides, vector, i + 1)
    }
}

/// Which index the redirection-selection scan settles on: the scan skips
/// I/O APICs whose base lies above the vector and keeps the latest index
/// that strictly raised the running base, which starts at the first
/// descriptor's base.
pub open spec fn pick_ioapic_from(
    io_apics: Seq<IOApic>,
    vector: u8,
    i: int,
    idx: int,
    current_base: u8,
) -> int
    decreases io_apics.len() - i,
{
    if i < 0 || i >= io_apics.len() {
        idx
    } else if vector < io_apics[i].base_interrupt {
        pick_ioapic_from(io_apics, vector, i + 1, idx, current_base)
    } else if current_base < io_apics[i].base_interrupt {
        pick_ioapic_from(io_apics, vector, i + 1, i, io_apics[i].base_interrupt)
    } else {
        pick_ioapic_from(io_apics, vector, i + 1, idx, current_base)
    }
}

/// The APIC configuration: the firmware's interrupt-source overrides and
/// the discovered I/O APICs.
pub struct Apic {
    pub interrupt_source_overrides: Vec<InterruptSourceOverride>,
    pub io_apics: Vec<IOApic>,
}

impl Apic {
    /// The vector of an interrupt considering overrides: the first
    /// override for the vector decides, else the vector stands.
    pub fn get_interrupt_source(&self, vector: u8) -> (r: u8)
        ensures
            r == match override_of_from(self.interrupt_source_overrides@, vector, 0) {
                Some(v) => v,
                None => vector,
            },
    {
        let n = self.interrupt_source_overrides.len();
        let mut i: usize = 0;
        while i < n
            invariant
                i <= n,
                n == self.interrupt_source_overrides@.len(),
                override_of_from(self.interrupt_source_overrides@, vector, 0) == override_of_from(
                    self.interrupt_source_overrides@,
                    vector,
                    i as int,
                ),
            decreases n - i,
        {
            let o = self.interrupt_source_overrides[i];
            if o.isa_source == vector {
                return o.global_system_interrupt as u8;
            }
            i = i + 1;
        }
        vector
    }

    /// The index of the I/O APIC that handles the interrupt vector, by
    /// the selection scan over the descriptors' base interrupts.
    pub fn get_interrupt_ioapic(&self, vector: u8) -> (r: usize)
        requires
            self.io_apics@.len() > 0,
        ensures
            r as int == pick_ioapic_from(self.io_apics@, vector, 0, 0, self.io_apics@[0].base_interrupt),
            r < self.io_apics@.len(),
    {
        let mut idx: usize = 0;
        let mut current_base: u8 = self.io_apics[0].base_interrupt;
        let n = self.io_apics.len();
        let mut i: usize = 0;
        while i < n
            invariant
                i <= n,
                n == self.io_apics@.len(),
                n > 0,
                idx < n,
                pick_ioapic_from(self.io_apics@, vector, 0, 0, self.io_apics@[0].base_interrupt)
                    == pick_ioapic_from(
                    self.io_apics@,
                    vector,
                    i as int,
                    idx as int,
                    current_base,
                ),
            decreases n - i,
        {
            let io = self.io_apics[i];
            if !(vector < io.base_interrupt) && current_base < io.base_interrupt {
                idx = i;
                current_base = io.base_interrupt;
            }
            i = i + 1;
        }
        idx
    }
}

/// What the delivery-mode field of a redirection entry decodes to.
pub open spec fn spec_delivery_mode(bits: u64) -> DeliveryMode {
    if bits == 0 {
        DeliveryMode::Normal
    } else if bits == 1 {
        DeliveryMode::LowPriority
    } else if bits == 2 {
        DeliveryMode::SMInterrupt
    } else if bits == 4 {
        DeliveryMode::NMInterrupt
    } else if bits == 5 {
        DeliveryMode::Init
    } else if bits == 7 {
        DeliveryMode::External
    } else {
        DeliveryMode::Reserved
    }
}

/// The field encoding of a delivery mode; reserved modes have none.
pub open spec fn spec_mode_bits(mode: DeliveryMode) -> u64 {
    match mode {
        DeliveryMode::Normal => 0,
        DeliveryMode::LowPriority => 1,
        DeliveryMode::SMInterrupt => 2,
        DeliveryMode::NMInterrupt => 4,
        DeliveryMode::Init => 5,
        DeliveryMode::External => 7,
        DeliveryMode::Reserved => 0,
    }
}

/// How an interrupt is delivered to its destination.
#[derive(Clone, Copy, Debug, PartialEq, Eq, Structural)]
pub enum DeliveryMode {
    Normal,
    LowPriority,
    SMInterrupt,
    NMInterrupt,
    Init,
    External,
    Reserved,
}

/// One 64-bit redirection-table entry of an I/O APIC.
pub struct RedirEntry {
    bits: u64,
}

impl RedirEntry {
    /// The raw entry word.
    pub closed spec fn spec_bits(self) -> u64 {
        self.bits
    }

    /// An entry carrying only the vector.
    pub fn new(vector: u8) -> (r: RedirEntry)
        ensures
            r.spec_bits() == vector as u64,
    {
        RedirEntry { bits: vector as u64 }
    }

    /// Wraps a raw entry word read from the redirection table.
    pub fn from_bits(bits: u64) -> (r: RedirEntry)
        ensures
            r.spec_bits() == bits,
    {
        RedirEntry { bits }
    }

    /// The raw entry word, as the hardware layer writes it back.
    pub fn bits(&self) -> (r: u64)
        ensures
            r == self.spec_bits(),
    {
        self.bits
    }

    /// The interrupt vector.
    pub fn vector(&self) -> (r: u8)
        ensures
            r == (self.spec_bits() & 0xFF) as u8,
    {
        (self.bits & 0xFF) as u8
    }

    /// Ors the vector's bits into the vector field.
    pub fn set_vector(&mut self, vector: u8)
        ensures
            final(self).spec_bits() == old(self).spec_bits() | (vector as u64),
    {
        self.bits = self.bits | (vector as u64);
    }

    /// The delivery mode.
    pub fn delivery_mode(&self) -> (r: DeliveryMode)
        ensures
            r == spec_delivery_mode((self.spec_bits() >> 8) & 0b111),
    {
        let bits = (self.bits >> 8) & 0b111;
        match bits {
            0 => DeliveryMode::Normal,
            1 => DeliveryMode::LowPriority,
            2 => DeliveryMode::SMInterrupt,
            4 => DeliveryMode::NMInterrupt,
            5 => DeliveryMode::Init,
            7 => DeliveryMode::External,
            _ => DeliveryMode::Reserved,
        }
    }

    /// Writes the delivery-mode field by flipping it and or-ing the new
    /// encoding in; a reserved mode cannot be written.
    pub fn set_delivery_mode(&mut self, mode: DeliveryMode)
        requires
            mode != DeliveryMode::Reserved,
        ensures
            final(self).spec_bits() == (old(self).spec_bits() ^ (0b111u64 << 8)) | (spec_mode_bits(
                mode,
            ) << 8),
    {
        let bits: u64 = match mode {
            DeliveryMode::Normal => 0,
            DeliveryMode::LowPriority => 1,
            DeliveryMode::SMInterrupt => 2,
            DeliveryMode::NMInterrupt => 4,
            DeliveryMode::Init => 5,
            DeliveryMode::External => 7,
            DeliveryMode::Reserved => 0,
        };
        self.bits = self.bits ^ (0b111u64 << 8);
        self.bits = self.bits | (bits << 8);
    }

    /// True for logical destination mode, false for physical.
    pub fn logical_mode(&self) -> (r: bool)
        ensures
            r == ((self.spec_bits() >> 11) & 0b1 != 0),
    {
        (self.bits >> 11) & 0b1 != 0
    }

    /// Writes the destination-mode bit by flipping it and or-ing the new
    /// value in.
    pub fn set_logical_mode(&mut self, mode: bool)
        ensures
            final(self).spec_bits() == (old(self).spec_bits() ^ (0b1u64 << 11)) | ((if mode {
                1u64
            } else {
                0u64
            }) << 11),
    {
        self.bits = self.bits ^ (0b1u64 << 11);
        self.bits = self.bits | ((if mode {
            1u64
        } else {
            0u64
        }) << 11);
    }

    /// Whether the entry is busy delivering.
    pub fn is_busy(&self) -> (r: bool)
        ensures
            r == ((self.spec_bits() >> 12) & 0b1 != 0),
    {
        (self.bits >> 12) & 0b1 != 0
    }

    /// True when low is the active polarity, false when high is.
    pub fn low_is_active(&self) -> (r: bool)
        ensures
            r == ((self.spec_bits() >> 13) & 0b1 != 0),
    {
        (self.bits >> 13) & 0b1 != 0
    }

    /// Writes the polarity bit by flipping it and or-ing the new value
    /// in.
    pub fn set_low_is_active(&mut self, mode: bool)
        ensures
            final(self).spec_bits() == (old(self).spec_bits() ^ (0b1u64 << 13)) | ((if mode {
                1u64
            } else {
                0u64
            }) << 13),
    {
        self.bits = self.bits ^ (0b1u64 << 13);
        self.bits = self.bits | ((if mode {
            1u64
        } else {
            0u64
        }) << 13);
    }

    /// For level-triggered interrupts only: whether the local APIC has
    /// sent an end-of-interrupt (true), or has only received the
    /// interrupt (false).
    pub fn lapic_responded(&self) -> (r: bool)
        ensures
            r == ((self.spec_bits() >> 14) & 0b1 == 0),
    {
        (self.bits >> 14) & 0b1 == 0
    }

    /// True for level-sensitive triggering, false for edge-sensitive.
    pub fn level_sensitive(&self) -> (r: bool)
        ensures
            r == ((self.spec_bits() >> 15) & 0b1 != 0),
    {
        (self.bits >> 15) & 0b1 != 0
    }

    /// Writes the trigger-mode bit by flipping it and or-ing the new
    /// value in.
    pub fn set_level_sensitive(&mut self, mode: bool)
        ensures
            final(self).spec_bits() == (old(self).spec_bits() ^ (0b1u64 << 15)) | ((if mode {
                1u64
            } else {
                0u64
            }) << 15),
    {
        self.bits = self.bits ^ (0b1u64 << 15);
        self.bits = self.bits | ((if mode {
            1u64
        } else {
            0u64
        }) << 15);
    }

    /// Whether the interrupt is masked.
    pub fn masked(&self) -> (r: bool)
        ensures
            r == ((self.spec_bits() >> 16) & 0b1 != 0),
    {
        (self.bits >> 16) & 0b1 != 0
    }

    /// Writes the mask bit by flipping it and or-ing the new value in.
    pub fn set_masked(&mut self, mode: bool)
        ensures
            final(self).spec_bits() == (old(self).spec_bits() ^ (0b1u64 << 16)) | ((if mode {
                1u64
            } else {
                0u64
            }) << 16),
    {
        self.bits = self.bits ^ (0b1u64 << 16);
        self.bits = self.bits | ((if mode {
            1u64
        } else {
            0u64
        }) << 16);
    }

    /// The destination APIC id.
    pub fn destination_id(&self) -> (r: u8)
        ensures
            r == ((self.spec_bits() >> 56) & 0xF) as u8,
    {
        ((self.bits >> 56) & 0xF) as u8
    }
}

} // verus!
