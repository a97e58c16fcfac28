//! Constraint layer for an anonymous-signaling protocol.
//!
//! A prover demonstrates, without revealing a secret identity, that it
//! controls a commitment registered in a Merkle tree of identities and that
//! it can derive a deterministic nullifier bound to a public context value.
//!
//! The crate models the constraint-synthesis interface of an arithmetization
//! engine: chips assign witness cells, emit polynomial gate applications and
//! copy (equality) constraints, and bind designated cells to public instance
//! slots.  Every chip operation is verified: its contract states the witness
//! values it produces and exactly when the emitted constraints are satisfied.
//! The sponge permutation used for hashing is an opaque oracle, called behind
//! a trusted wrapper and named by an uninterpreted digest function.

use vstd::prelude::*;

pub mod field;
pub mod primitives;
pub mod synth;
pub mod utils;
pub mod gadget;
pub mod circuit;

verus! {

/// Depth of the membership Merkle tree.
pub const MERKLE_DEPTH: usize = 4;

/// Instance-column slot holding the public external context value.
pub const EXTERNAL_NULLIFIER: usize = 0;

/// Instance-column slot holding the nullifier hash.
pub const NULLIFIER_HASH: usize = 1;

/// Instance-column slot holding the Merkle root.
pub const ROOT: usize = 2;

} // verus!
