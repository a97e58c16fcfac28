//! End-to-end behaviour of the top-level circuit: the happy path against the
//! correct public instance vector, rejection of perturbed public values, and
//! fatal failure on any missing witness.

use semaphore_circuit::circuit::SemaphoreCircuit;
use semaphore_circuit::field::Felt;
use semaphore_circuit::gadget::merkle::compute_merkle_root;
use semaphore_circuit::primitives::poseidon_hash;
use semaphore_circuit::synth::{ConstraintSys, Synthesizer};
use semaphore_circuit::MERKLE_DEPTH;

fn f(x: u64) -> Felt {
    Felt::from_u64(x)
}

fn sample_circuit() -> SemaphoreCircuit {
    SemaphoreCircuit {
        identity_trapdoor: Some(f(2)),
        identity_nullifier: Some(f(3)),
        external_nullifier: Some(f(5)),
        position_bits: Some([f(0), f(1), f(0), f(1)]),
        path: Some([f(1), f(1), f(1), f(1)]),
    }
}

fn synthesized(circuit: &SemaphoreCircuit) -> Synthesizer {
    let mut meta = ConstraintSys::new();
    let config = SemaphoreCircuit::configure(&mut meta);
    let mut s = Synthesizer::new();
    circuit.synthesize(&config, &mut s).unwrap();
    s
}

fn expected_instance(circuit: &SemaphoreCircuit) -> Vec<Felt> {
    let trapdoor = circuit.identity_trapdoor.unwrap();
    let seed = circuit.identity_nullifier.unwrap();
    let context = circuit.external_nullifier.unwrap();
    let commitment = poseidon_hash(&trapdoor, &seed);
    let nullifier = poseidon_hash(&seed, &context);
    let root = compute_merkle_root(
        &commitment,
        &circuit.path.unwrap(),
        &circuit.position_bits.unwrap(),
    );
    vec![context, nullifier, root]
}

#[test]
fn end_to_end_accepts_correct_instance() {
    let circuit = sample_circuit();
    let s = synthesized(&circuit);
    let instance = expected_instance(&circuit);
    assert!(s.check(&instance));
}

#[test]
fn end_to_end_rejects_each_perturbed_slot() {
    let circuit = sample_circuit();
    let s = synthesized(&circuit);
    let instance = expected_instance(&circuit);
    for slot in 0..3 {
        let mut perturbed = instance.clone();
        perturbed[slot] = perturbed[slot].add(&f(1));
        assert!(!s.check(&perturbed), "slot {} accepted a perturbed value", slot);
    }
}

#[test]
fn end_to_end_rejects_short_instance() {
    let circuit = sample_circuit();
    let s = synthesized(&circuit);
    let mut instance = expected_instance(&circuit);
    instance.pop();
    assert!(!s.check(&instance));
    assert!(!s.check(&Vec::new()));
}

#[test]
fn nonboolean_direction_bit_fails_verification() {
    let mut circuit = sample_circuit();
    circuit.position_bits = Some([f(2), f(0), f(0), f(0)]);
    let s = synthesized(&circuit);
    // Even the correctly recomputed instance vector is rejected: the boolean
    // gate is violated.
    let instance = expected_instance(&circuit);
    assert!(!s.check(&instance));
}

#[test]
fn nullifier_is_deterministic_across_identities() {
    let mut other = sample_circuit();
    other.identity_trapdoor = Some(f(77));
    other.path = Some([f(6), f(6), f(6), f(6)]);

    let first = sample_circuit();
    let s1 = synthesized(&first);
    let s2 = synthesized(&other);

    // One nullifier, computed once from (seed, context), satisfies both runs
    // in slot 1, each with its own context and root.
    let shared_nullifier = poseidon_hash(&f(3), &f(5));
    let mut inst1 = expected_instance(&first);
    let mut inst2 = expected_instance(&other);
    inst1[1] = shared_nullifier;
    inst2[1] = shared_nullifier;
    assert!(s1.check(&inst1));
    assert!(s2.check(&inst2));
}

#[test]
fn missing_witness_is_fatal() {
    let base = sample_circuit();
    let mut meta = ConstraintSys::new();
    let config = SemaphoreCircuit::configure(&mut meta);

    let mut no_trapdoor = base;
    no_trapdoor.identity_trapdoor = None;
    let mut no_seed = base;
    no_seed.identity_nullifier = None;
    let mut no_context = base;
    no_context.external_nullifier = None;
    let mut no_bits = base;
    no_bits.position_bits = None;
    let mut no_path = base;
    no_path.path = None;

    for broken in [no_trapdoor, no_seed, no_context, no_bits, no_path] {
        let mut s = Synthesizer::new();
        assert!(broken.synthesize(&config, &mut s).is_err());
    }
}

#[test]
fn without_witnesses_cannot_synthesize() {
    let circuit = sample_circuit().without_witnesses();
    let mut meta = ConstraintSys::new();
    let config = SemaphoreCircuit::configure(&mut meta);
    let mut s = Synthesizer::new();
    assert!(circuit.synthesize(&config, &mut s).is_err());
}

#[test]
fn path_depth_is_fixed() {
    assert_eq!(MERKLE_DEPTH, 4);
    let circuit = sample_circuit();
    assert_eq!(circuit.position_bits.unwrap().len(), MERKLE_DEPTH);
}
