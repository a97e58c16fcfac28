//! The sponge permutation oracle, specified at its interface.
//!
//! The circuit treats the hash as an opaque keyed permutation with a fixed
//! width: two field elements in, one digest out.  Its value is given a name,
//! [`poseidon_digest`], fixed by the outside implementation; the library
//! states nothing about the digest on particular inputs, only that it is a
//! function of the two absorbed field values alone.

use vstd::prelude::*;
use halo2_gadgets::poseidon::primitives::{ConstantLength, P128Pow5T3};
use pasta_curves::group::ff::PrimeField;
use pasta_curves::Fp;
use crate::field::Felt;

verus! {

/// The digest of a two-element sponge hash, a pure function of the two
/// absorbed field values, computed by the outside permutation oracle.
pub uninterp spec fn poseidon_digest(a: nat, b: nat) -> nat;

/// Relies on `halo2_gadgets::poseidon::primitives::Hash` with the
/// `P128Pow5T3` specification over the Pallas base field: hashing a
/// fixed-length two-element message is deterministic arithmetic over the two
/// field values, and `to_repr` returns the canonical form of the digest.
#[verifier::external_body]
fn poseidon_impl(a: &Felt, b: &Felt) -> (r: Felt)
    requires
        a.wf(),
        b.wf(),
    ensures
        r.wf(),
        r@ == poseidon_digest(a@, b@),
{
    let x = Fp::from_raw([a.l0, a.l1, a.l2, a.l3]);
    let y = Fp::from_raw([b.l0, b.l1, b.l2, b.l3]);
    let d = halo2_gadgets::poseidon::primitives::Hash::<Fp, P128Pow5T3, ConstantLength<2>, 3, 2>::init().hash([x, y]);
    let t: [u8; 32] = d.to_repr();
    Felt {
        l0: u64::from_le_bytes(t[0..8].try_into().unwrap()),
        l1: u64::from_le_bytes(t[8..16].try_into().unwrap()),
        l2: u64::from_le_bytes(t[16..24].try_into().unwrap()),
        l3: u64::from_le_bytes(t[24..32].try_into().unwrap()),
    }
}

/// Hash a two-element message with the sponge oracle, outside the circuit.
///
/// This is the plain reference computation against which the in-circuit
/// digests are stated.
pub fn poseidon_hash(a: &Felt, b: &Felt) -> (r: Felt)
    requires
        a.wf(),
        b.wf(),
    ensures
        r.wf(),
        r@ == poseidon_digest(a@, b@),
{
    poseidon_impl(a, b)
}

} // verus!
