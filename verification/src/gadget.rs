//! The chips of the circuit: each owns a slice of shared columns and emits
//! gate applications and copy constraints through the synthesis interface.

pub mod add;
pub mod merkle;
pub mod poseidon;
