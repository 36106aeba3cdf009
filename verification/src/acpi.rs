//! ACPI sleep-state handling: the sleep states, their AML object names,
//! and the decoding of sleep-typ values and PM1 control-port commands.
//! Walking the firmware tables and the port writes themselves belong to
//! the unverified hardware layer, which maps table memory through the
//! mapping registry.

use vstd::prelude::*;

verus! {

/// The sleep-enable bit of the PM1 control registers.
pub const SLP_EN: u16 = 0x2000;

/// An ACPI system sleep state.
#[derive(Clone, Copy, Debug, PartialEq, Eq, Structural)]
pub enum SleepState {
    S1,
    S2,
    S3,
    S4,
    S5,
}

impl SleepState {
    /// The name of the AML object describing this sleep state.
    pub fn as_aml_name(&self) -> (r: &'static str)
        ensures
            *self == SleepState::S1 ==> r@ == "\\_S1"@,
            *self == SleepState::S2 ==> r@ == "\\_S2"@,
            *self == SleepState::S3 ==> r@ == "\\_S3"@,
            *self == SleepState::S4 ==> r@ == "\\_S4"@,
            *self == SleepState::S5 ==> r@ == "\\_S5"@,
    {
        match self {
            SleepState::S1 => "\\_S1",
            SleepState::S2 => "\\_S2",
            SleepState::S3 => "\\_S3",
            SleepState::S4 => "\\_S4",
            SleepState::S5 => "\\_S5",
        }
    }
}

/// Splits the integer that a sleep-state AML package carries into the
/// two sleep-typ values: the low three bits for PM1a, the three bits
/// above the second byte boundary for PM1b.
pub fn sleep_typ_values(res: u64) -> (r: (u16, u16))
    ensures
        r.0 == (res as u16) & 0b111,
        r.1 == ((res >> 8) as u16) & 0b111,
{
    ((res as u16) & 0b111, ((res >> 8) as u16) & 0b111)
}

/// The word written to a PM1 control port to enter a sleep state: the
/// sleep-typ value in its field with the sleep-enable bit set.
pub fn slp_command(slp_typ: u16) -> (r: u16)
    requires
        slp_typ <= 0b111,
    ensures
        r == SLP_EN | (slp_typ << 10),
{
    SLP_EN | (slp_typ << 10)
}

} // verus!
