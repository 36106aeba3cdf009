//! The steady-state frame allocator and the bootstrap allocator that
//! stands it up.

pub mod bitmap;
pub mod bootstrap;
pub mod global;
