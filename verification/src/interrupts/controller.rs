//! The interrupt-controller state machine: which controller owns the
//! interrupt lines, and what an end-of-interrupt notification must do.
//! The port and register writes that carry the decisions out belong to
//! the unverified hardware layer.

use vstd::prelude::*;

verus! {

/// The active interrupt controller: the chained legacy pair, or the APIC
/// after handover.
#[derive(Clone, Copy, Debug, PartialEq, Eq, Structural)]
pub enum InterruptController {
    Pics { pic1_offset: u8, pic2_offset: u8 },
    Apic { base_address: u64 },
}

/// What acknowledging an interrupt requires of the hardware layer:
/// nothing, an end-of-interrupt to the first legacy controller, to both
/// chained controllers, or to the APIC at its register base.
#[derive(Clone, Copy, Debug, PartialEq, Eq, Structural)]
pub enum EndOfInterrupt {
    Nothing,
    Pic1,
    Both,
    Apic { base_address: u64 },
}

impl InterruptController {
    /// The boot-time state: the chained legacy controllers at the given
    /// vector offsets.
    pub fn new(pic1_offset: u8, pic2_offset: u8) -> (r: InterruptController)
        ensures
            r == (InterruptController::Pics { pic1_offset, pic2_offset }),
    {
        InterruptController::Pics { pic1_offset, pic2_offset }
    }

    /// Records the handover to the APIC at the given register base; the
    /// hardware layer then reinitializes the controller it names.
    pub fn apic_handover(&mut self, base_address: u64)
        ensures
            *final(self) == (InterruptController::Apic { base_address }),
    {
        *self = InterruptController::Apic { base_address };
    }

    /// What acknowledging interrupt `id` requires: an interrupt owned by
    /// the chained controller acknowledges both, one owned by the first
    /// controller acknowledges it alone, anything else nothing; after
    /// handover, the APIC is acknowledged.
    pub fn end_of_interrupt(&self, id: u8) -> (r: EndOfInterrupt)
        ensures
            r == match *self {
                InterruptController::Pics { pic1_offset, pic2_offset } => {
                    if pic2_offset <= id && (id as int) < pic2_offset as int + 8 {
                        EndOfInterrupt::Both
                    } else if pic1_offset <= id && (id as int) < pic1_offset as int + 8 {
                        EndOfInterrupt::Pic1
                    } else {
                        EndOfInterrupt::Nothing
                    }
                },
                InterruptController::Apic { base_address } => EndOfInterrupt::Apic { base_address },
            },
    {
        match self {
            InterruptController::Pics { pic1_offset, pic2_offset } => {
                let p1 = *pic1_offset;
                let p2 = *pic2_offset;
                if p2 <= id && (id as u16) < (p2 as u16) + 8 {
                    EndOfInterrupt::Both
                } else if p1 <= id && (id as u16) < (p1 as u16) + 8 {
                    EndOfInterrupt::Pic1
                } else {
                    EndOfInterrupt::Nothing
                }
            },
            InterruptController::Apic { base_address } => EndOfInterrupt::Apic {
                base_address: *base_address,
            },
        }
    }
}

} // verus!
