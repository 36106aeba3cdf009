//! Interrupt numbering and the controller-state machine. Installing the
//! descriptor table and the port writes that drive the controllers
//! belong to the unverified hardware layer.

use vstd::prelude::*;

pub mod controller;

verus! {

/// The vector where the first controller's interrupts start.
pub const PIC_1_OFFSET: u8 = 32;

/// The vector where the chained controller's interrupts start.
pub const PIC_2_OFFSET: u8 = PIC_1_OFFSET + 8;

/// The interrupts this core routes.
#[derive(Clone, Copy, Debug, PartialEq, Eq, Structural)]
pub enum InterruptIndex {
    Timer,
    Keyboard,
}

impl InterruptIndex {
    /// The interrupt's vector number.
    pub fn as_u8(self) -> (r: u8)
        ensures
            self == InterruptIndex::Timer ==> r == PIC_1_OFFSET,
            self == InterruptIndex::Keyboard ==> r == PIC_1_OFFSET + 1,
    {
        match self {
            InterruptIndex::Timer => PIC_1_OFFSET,
            InterruptIndex::Keyboard => PIC_1_OFFSET + 1,
        }
    }
}

} // verus!
