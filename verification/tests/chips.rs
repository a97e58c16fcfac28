//! Chip-level behaviour: the hash oracle, the swap and boolean gates, the
//! addition gate, and the Merkle path fold against its plain reference.

use semaphore_circuit::circuit::SemaphoreCircuit;
use semaphore_circuit::field::Felt;
use semaphore_circuit::gadget::add::AddInstruction;
use semaphore_circuit::gadget::merkle::{compute_merkle_root, MerkleInstructions, MerklePath};
use semaphore_circuit::primitives::poseidon_hash;
use semaphore_circuit::synth::{Cell, ConstraintSys, CopyConstraint, Gate, Synthesizer};
use semaphore_circuit::utils::{CellValue, UtilitiesInstructions, Var};
use semaphore_circuit::circuit::Config;

fn f(x: u64) -> Felt {
    Felt::from_u64(x)
}

fn setup() -> (Config, Synthesizer) {
    let mut meta = ConstraintSys::new();
    let config = SemaphoreCircuit::configure(&mut meta);
    (config, Synthesizer::new())
}

#[test]
fn var_pairs_cell_and_value() {
    let c = Cell { index: 3 };
    let v = CellValue::new(c, Some(f(8)));
    assert_eq!(v.cell(), c);
    assert_eq!(v.value(), Some(f(8)));
}

#[test]
fn poseidon_hash_deterministic() {
    assert_eq!(poseidon_hash(&f(3), &f(5)), poseidon_hash(&f(3), &f(5)));
}

#[test]
fn poseidon_hash_separates_contexts() {
    assert_ne!(poseidon_hash(&f(3), &f(5)), poseidon_hash(&f(3), &f(6)));
    assert_ne!(poseidon_hash(&f(3), &f(5)), poseidon_hash(&f(5), &f(3)));
}

#[test]
fn poseidon_hash_is_not_identity() {
    let d = poseidon_hash(&f(3), &f(5));
    assert_ne!(d, f(3));
    assert_ne!(d, f(5));
}

#[test]
fn hash_layer_keeps_order_for_bit_zero() {
    let (config, mut s) = setup();
    let circ = SemaphoreCircuit::default();
    let leaf = circ.load_private(&mut s, config.advices[0], Some(f(9))).unwrap();
    let chip = config.construct_merkle_chip();
    let d = chip.hash_layer(&mut s, leaf, Some(f(4)), Some(f(0)), 0).unwrap();
    assert_eq!(d.value.unwrap(), poseidon_hash(&f(9), &f(4)));
    assert!(s.check(&Vec::new()));
}

#[test]
fn hash_layer_swaps_for_bit_one() {
    let (config, mut s) = setup();
    let circ = SemaphoreCircuit::default();
    let leaf = circ.load_private(&mut s, config.advices[0], Some(f(9))).unwrap();
    let chip = config.construct_merkle_chip();
    let d = chip.hash_layer(&mut s, leaf, Some(f(4)), Some(f(1)), 0).unwrap();
    assert_eq!(d.value.unwrap(), poseidon_hash(&f(4), &f(9)));
    assert!(s.check(&Vec::new()));
}

#[test]
fn bool_gate_rejects_bit_two() {
    let (config, mut s) = setup();
    let circ = SemaphoreCircuit::default();
    let leaf = circ.load_private(&mut s, config.advices[0], Some(f(9))).unwrap();
    let chip = config.construct_merkle_chip();
    let d = chip.hash_layer(&mut s, leaf, Some(f(4)), Some(f(2)), 0);
    // The layer still assembles: constraint violations surface only at
    // verification time.
    assert!(d.is_ok());
    assert!(!s.check(&Vec::new()));
}

#[test]
fn hash_layer_demands_witnesses() {
    let (config, mut s) = setup();
    let circ = SemaphoreCircuit::default();
    let leaf = circ.load_private(&mut s, config.advices[0], Some(f(9))).unwrap();
    let chip = config.construct_merkle_chip();
    assert!(chip.hash_layer(&mut s, leaf, None, Some(f(0)), 0).is_err());
    assert!(chip.hash_layer(&mut s, leaf, Some(f(4)), None, 0).is_err());
}

#[test]
fn add_chip_adds_and_satisfies_its_gate() {
    let (config, mut s) = setup();
    let circ = SemaphoreCircuit::default();
    let a = circ.load_private(&mut s, config.advices[0], Some(f(2))).unwrap();
    let b = circ.load_private(&mut s, config.advices[1], Some(f(3))).unwrap();
    let chip = config.add_chip();
    let out = chip.add(&mut s, a, b).unwrap();
    assert_eq!(out.value.unwrap(), f(5));
    assert!(s.check(&Vec::new()));
}

#[test]
fn load_private_demands_a_witness() {
    let (config, mut s) = setup();
    let circ = SemaphoreCircuit::default();
    assert!(circ.load_private(&mut s, config.advices[0], None).is_err());
}

#[test]
fn calculate_root_matches_plain_recomputation() {
    let (config, mut s) = setup();
    let circ = SemaphoreCircuit::default();
    // Leaf and siblings are themselves digests of known preimages.
    let leaf_val = poseidon_hash(&f(7), &f(8));
    let sibs = [
        poseidon_hash(&f(1), &f(1)),
        poseidon_hash(&f(2), &f(2)),
        poseidon_hash(&f(3), &f(3)),
        poseidon_hash(&f(4), &f(4)),
    ];
    let bits = [f(0), f(1), f(0), f(1)];
    let leaf = circ.load_private(&mut s, config.advices[0], Some(leaf_val)).unwrap();
    let path = MerklePath {
        chip: config.construct_merkle_chip(),
        leaf_pos: Some(bits),
        path: Some(sibs),
    };
    let root = path.calculate_root(&mut s, leaf).unwrap();

    // Reference: the library's plain fold.
    let reference = compute_merkle_root(&leaf_val, &sibs, &bits);
    assert_eq!(root.value.unwrap(), reference);

    // Reference: hashing the selected pairs by hand, outside the circuit.
    let mut node = leaf_val;
    for layer in 0..4 {
        let (l, r) = if bits[layer] == f(0) { (node, sibs[layer]) } else { (sibs[layer], node) };
        node = poseidon_hash(&l, &r);
    }
    assert_eq!(root.value.unwrap(), node);
    assert!(s.check(&Vec::new()));
}

#[test]
fn checker_rejects_an_unsatisfied_add_gate() {
    let (config, mut s) = setup();
    let circ = SemaphoreCircuit::default();
    let a = circ.load_private(&mut s, config.advices[0], Some(f(2))).unwrap();
    let b = circ.load_private(&mut s, config.advices[1], Some(f(3))).unwrap();
    let wrong = circ.load_private(&mut s, config.advices[0], Some(f(7))).unwrap();
    assert!(s.check(&Vec::new()));
    s.gates.push(Gate::Add { lhs: a.cell, rhs: b.cell, out: wrong.cell });
    assert!(!s.check(&Vec::new()));
}

#[test]
fn checker_rejects_a_copy_between_unequal_cells() {
    let (config, mut s) = setup();
    let circ = SemaphoreCircuit::default();
    let a = circ.load_private(&mut s, config.advices[0], Some(f(2))).unwrap();
    let b = circ.load_private(&mut s, config.advices[1], Some(f(3))).unwrap();
    s.copies.push(CopyConstraint { a: a.cell, b: b.cell });
    assert!(!s.check(&Vec::new()));
}
