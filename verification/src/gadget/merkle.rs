//! The Merkle chip: per-layer boolean and conditional-swap gates composed
//! with one sponge absorb/squeeze cycle, and the path driver that folds a
//! fixed-depth authentication path from a leaf commitment to a root.

use vstd::prelude::*;
use vstd::arithmetic::div_mod::{
    lemma_mod_bound, lemma_mod_multiples_vanish, lemma_mod_self_0, lemma_small_mod,
    lemma_sub_mod_noop,
};
use crate::field::{fmul, fsub, p, Felt};
use crate::primitives::{poseidon_digest, poseidon_hash};
use crate::synth::{
    bool_poly, swap_poly, Cell, ConstraintSys, CopyConstraint, Error, Gate, Synthesizer,
};
use crate::utils::CellValue;
use crate::gadget::poseidon::{Hasher, PoseidonChip, PoseidonConfig};
use crate::MERKLE_DEPTH;

verus! {

/// The algebraic selection rule of the swap gate: a zero bit keeps the node
/// on the left, any other bit swaps node and sibling.
pub open spec fn swap_pair(node: nat, sibling: nat, bit: nat) -> (nat, nat) {
    if bit == 0 {
        (node, sibling)
    } else {
        (sibling, node)
    }
}

/// The root obtained by folding a path of siblings and direction bits over
/// the sponge digest, leaf first.
pub open spec fn merkle_root(leaf: nat, sibs: Seq<nat>, bits: Seq<nat>) -> nat
    decreases sibs.len(),
{
    if sibs.len() == 0 || bits.len() == 0 {
        leaf
    } else {
        merkle_root(
            poseidon_digest(
                swap_pair(leaf, sibs[0], bits[0]).0,
                swap_pair(leaf, sibs[0], bits[0]).1,
            ),
            sibs.drop_first(),
            bits.drop_first(),
        )
    }
}

/// Every direction bit is 0 or 1.
pub open spec fn bits_boolean(bits: Seq<nat>) -> bool {
    forall|i: int| 0 <= i < bits.len() ==> (#[trigger] bits[i]) == 0 || bits[i] == 1
}

/// Every direction bit passes the boolean gate.
pub open spec fn bits_valid(bits: Seq<nat>) -> bool {
    forall|i: int| 0 <= i < bits.len() ==> bool_poly(#[trigger] bits[i]) == 0
}

/// For a boolean direction bit, the selection rule picks `(a, b)` when the
/// bit is 0 and `(b, a)` when it is 1, and the swap-gate polynomial vanishes
/// on the selected assignment.
pub proof fn lemma_swap_selection(a: nat, b: nat, bit: nat)
    requires
        a < p(),
        b < p(),
        bit == 0 || bit == 1,
    ensures
        bit == 0 ==> swap_pair(a, b, bit) == (a, b),
        bit == 1 ==> swap_pair(a, b, bit) == (b, a),
        swap_poly(a, b, bit, swap_pair(a, b, bit).0, swap_pair(a, b, bit).1) == 0,
{
    lemma_mod_self_0(p() as int);
    if bit == 0 {
        assert(fsub(a, a) == 0);
        assert(fsub(b, b) == 0);
        let t = fmul(2, fsub(b, a));
        assert(fmul(0, t) == 0) by {
            lemma_small_mod(0, p());
        }
        assert(fsub(0, 0) == 0);
    } else {
        let d = fsub(b, a);
        assert(d < p()) by {
            lemma_mod_bound((b + p() - a) as int, p() as int);
        }
        let t = fmul(2, d);
        assert(t < p()) by {
            lemma_mod_bound(2 * (d as int), p() as int);
        }
        assert(fmul(1, t) == t) by {
            lemma_small_mod(t, p());
        }
        // (2d mod p + p - d) mod p == d
        assert(fsub(t, d) == d) by {
            lemma_mod_multiples_vanish(1, (2 * (d as int)) % (p() as int) - d, p() as int);
            lemma_sub_mod_noop(2 * (d as int), d as int, p() as int);
            lemma_small_mod(d, p());
        }
        assert(fsub(d, d) == 0);
    }
}

/// The boolean gate vanishes on the bits the protocol allows, 0 and 1, and
/// rejects the assignment 2: its polynomial is then the nonzero value
/// `p - 2`.
pub proof fn lemma_bool_gate(bit: nat)
    requires
        bit == 0 || bit == 1 || bit == 2,
    ensures
        (bit == 0 || bit == 1) ==> bool_poly(bit) == 0,
        bit == 2 ==> bool_poly(bit) != 0,
{
    lemma_mod_self_0(p() as int);
    if bit == 0 {
        assert(fsub(1, 0) == 1) by {
            lemma_mod_multiples_vanish(1, 1, p() as int);
            lemma_small_mod(1, p());
        }
        assert(fmul(0, 1) == 0) by {
            lemma_small_mod(0, p());
        }
    } else if bit == 1 {
        assert(fsub(1, 1) == 0);
        assert(fmul(1, 0) == 0) by {
            lemma_small_mod(0, p());
        }
    } else {
        assert(fsub(1, 2) == p() - 1) by {
            lemma_small_mod((p() - 1) as nat, p());
        }
        assert(fmul(2, (p() - 1) as nat) == p() - 2) by {
            assert(2 * ((p() - 1) as nat) == p() + (p() - 2));
            lemma_mod_multiples_vanish(1, (p() - 2) as int, p() as int);
            lemma_small_mod((p() - 2) as nat, p());
        }
    }
}

/// Round trip, unrolled: folding a full-depth path is exactly the iterated
/// hash of the selected pairs, the recomputation a verifier performs in
/// plain arithmetic outside the circuit.  `MerklePath::calculate_root` and
/// [`compute_merkle_root`] both ensure this fold, so the in-circuit root
/// equals the plain recomputation on every valid path.
pub proof fn lemma_root_round_trip(leaf: nat, sibs: Seq<nat>, bits: Seq<nat>)
    requires
        sibs.len() == MERKLE_DEPTH,
        bits.len() == MERKLE_DEPTH,
    ensures
        ({
            let n0 = poseidon_digest(
                swap_pair(leaf, sibs[0], bits[0]).0,
                swap_pair(leaf, sibs[0], bits[0]).1,
            );
            let n1 = poseidon_digest(
                swap_pair(n0, sibs[1], bits[1]).0,
                swap_pair(n0, sibs[1], bits[1]).1,
            );
            let n2 = poseidon_digest(
                swap_pair(n1, sibs[2], bits[2]).0,
                swap_pair(n1, sibs[2], bits[2]).1,
            );
            let n3 = poseidon_digest(
                swap_pair(n2, sibs[3], bits[3]).0,
                swap_pair(n2, sibs[3], bits[3]).1,
            );
            merkle_root(leaf, sibs, bits) == n3
        }),
{
    let s1 = sibs.drop_first();
    let b1 = bits.drop_first();
    let s2 = s1.drop_first();
    let b2 = b1.drop_first();
    let s3 = s2.drop_first();
    let b3 = b2.drop_first();
    assert(s1[0] == sibs[1] && s2[0] == sibs[2] && s3[0] == sibs[3]);
    assert(b1[0] == bits[1] && b2[0] == bits[2] && b3[0] == bits[3]);
    let n0 = poseidon_digest(
        swap_pair(leaf, sibs[0], bits[0]).0,
        swap_pair(leaf, sibs[0], bits[0]).1,
    );
    let n1 = poseidon_digest(swap_pair(n0, sibs[1], bits[1]).0, swap_pair(n0, sibs[1], bits[1]).1);
    let n2 = poseidon_digest(swap_pair(n1, sibs[2], bits[2]).0, swap_pair(n1, sibs[2], bits[2]).1);
    let n3 = poseidon_digest(swap_pair(n2, sibs[3], bits[3]).0, swap_pair(n2, sibs[3], bits[3]).1);
    assert(merkle_root(leaf, sibs, bits) == merkle_root(n0, s1, b1));
    assert(merkle_root(n0, s1, b1) == merkle_root(n1, s2, b2));
    assert(merkle_root(n1, s2, b2) == merkle_root(n2, s3, b3));
    assert(merkle_root(n2, s3, b3) == merkle_root(n3, s3.drop_first(), b3.drop_first()));
    assert(s3.drop_first().len() == 0);
    assert(merkle_root(n3, s3.drop_first(), b3.drop_first()) == n3);
}

/// Splitting a prefix fold one layer later.
proof fn lemma_bits_take_step(bits: Seq<nat>, i: int)
    requires
        0 <= i < bits.len(),
    ensures
        bits_valid(bits.take(i + 1)) == (bits_valid(bits.take(i)) && bool_poly(bits[i]) == 0),
        bits_boolean(bits.take(i + 1)) == (bits_boolean(bits.take(i)) && (bits[i] == 0 || bits[i]
            == 1)),
{
    let t1 = bits.take(i + 1);
    let t0 = bits.take(i);
    assert(t1[i] == bits[i]);
    if bits_valid(t0) && bool_poly(bits[i]) == 0 {
        assert forall|j: int| 0 <= j < t1.len() implies bool_poly(#[trigger] t1[j]) == 0 by {
            if j < i {
                assert(t0[j] == bits[j]);
                assert(bool_poly(t0[j]) == 0);
            }
        }
    }
    if bits_valid(t1) {
        assert forall|j: int| 0 <= j < t0.len() implies bool_poly(#[trigger] t0[j]) == 0 by {
            assert(t1[j] == bits[j]);
            assert(bool_poly(t1[j]) == 0);
        }
    }
    if bits_boolean(t0) && (bits[i] == 0 || bits[i] == 1) {
        assert forall|j: int| 0 <= j < t1.len() implies (#[trigger] t1[j]) == 0 || t1[j] == 1 by {
            if j < i {
                assert(t0[j] == bits[j]);
            }
        }
    }
    if bits_boolean(t1) {
        assert forall|j: int| 0 <= j < t0.len() implies (#[trigger] t0[j]) == 0 || t0[j] == 1 by {
            assert(t1[j] == bits[j]);
        }
    }
}

/// The column and selector handles of the Merkle chip, together with the
/// oracle configuration its hash step drives.
#[derive(Clone, Copy, Debug)]
pub struct MerkleConfig {
    pub advice: [usize; 3],
    pub s_bool: usize,
    pub s_swap: usize,
    pub hash_config: PoseidonConfig,
}

/// An instance of the Merkle chip.
#[derive(Clone, Copy, Debug)]
pub struct MerkleChip {
    pub config: MerkleConfig,
}

/// The per-layer instruction of the Merkle chip.
pub trait MerkleInstructions {
    /// Fold one tree layer: witness the current node, the sibling and the
    /// direction bit, enable the boolean and swap gates, select the
    /// left/right order by the same rule in the witness domain, and hash the
    /// selected pair through one sponge cycle.
    ///
    /// The node cell is copy-constrained to the caller's cell at every
    /// layer, including layer 0: leaving layer 0 unbound would let a prover
    /// substitute an unrelated leaf for the commitment, so the binding is a
    /// soundness requirement rather than an option.  The contract states the
    /// emitted record exactly: eight cells in order (node, sibling, bit,
    /// left, right, the two absorbed message cells, the digest), the three
    /// copy constraints (node to the caller's cell, and the selected pair to
    /// the absorbed cells), and the boolean, swap and sponge gates over
    /// those cells.
    ///
    /// Fails exactly when the sibling or the bit carries no witness value.
    fn hash_layer(
        &self,
        s: &mut Synthesizer,
        leaf_or_digest: CellValue,
        sibling: Option<Felt>,
        position_bit: Option<Felt>,
        layer: usize,
    ) -> (r: Result<CellValue, Error>)
        requires
            old(s).wf(),
            leaf_or_digest.tracks(*old(s)),
            leaf_or_digest.value is Some,
            sibling matches Some(f) ==> f.wf(),
            position_bit matches Some(f) ==> f.wf(),
        ensures
            final(s).wf(),
            r is Ok <==> (sibling is Some && position_bit is Some),
            !(sibling is Some && position_bit is Some) ==> *final(s) == *old(s),
            r matches Ok(d) ==> ({
                let node = leaf_or_digest.val();
                let sib = (sibling->0)@;
                let bit = (position_bit->0)@;
                &&& d.tracks(*final(s))
                &&& d.value is Some
                &&& d.val() == poseidon_digest(
                    swap_pair(node, sib, bit).0,
                    swap_pair(node, sib, bit).1,
                )
                &&& d.cell.index == old(s).cells@.len() + 7
                &&& final(s).copies@ == old(s).copies@.push(
                    (CopyConstraint {
                        a: leaf_or_digest.cell,
                        b: (Cell { index: old(s).cells@.len() as usize }),
                    }),
                ).push(
                    (CopyConstraint {
                        a: (Cell { index: (old(s).cells@.len() + 3) as usize }),
                        b: (Cell { index: (old(s).cells@.len() + 5) as usize }),
                    }),
                ).push(
                    (CopyConstraint {
                        a: (Cell { index: (old(s).cells@.len() + 4) as usize }),
                        b: (Cell { index: (old(s).cells@.len() + 6) as usize }),
                    }),
                )
                &&& final(s).gates@ == old(s).gates@.push(
                    (Gate::Bool { bit: (Cell { index: (old(s).cells@.len() + 2) as usize }) }),
                ).push(
                    (Gate::Swap {
                        a: (Cell { index: old(s).cells@.len() as usize }),
                        b: (Cell { index: (old(s).cells@.len() + 1) as usize }),
                        bit: (Cell { index: (old(s).cells@.len() + 2) as usize }),
                        l: (Cell { index: (old(s).cells@.len() + 3) as usize }),
                        r: (Cell { index: (old(s).cells@.len() + 4) as usize }),
                    }),
                ).push(
                    (Gate::Sponge {
                        l: (Cell { index: (old(s).cells@.len() + 5) as usize }),
                        r: (Cell { index: (old(s).cells@.len() + 6) as usize }),
                        out: (Cell { index: (old(s).cells@.len() + 7) as usize }),
                    }),
                )
                &&& final(s).cells@.len() == old(s).cells@.len() + 8
                &&& (forall|i: int|
                    0 <= i < old(s).cells@.len() ==> final(s).cells@[i] == old(s).cells@[i])
                &&& final(s).bindings@ == old(s).bindings@
                &&& final(s).copies_ok() == old(s).copies_ok()
                &&& ((bit == 0 || bit == 1) ==> final(s).gates_ok() == old(s).gates_ok())
                &&& (final(s).gates_ok() ==> old(s).gates_ok() && bool_poly(bit) == 0)
                &&& (forall|inst: Seq<nat>|
                    final(s).bindings_ok(inst) == old(s).bindings_ok(inst))
            }),
    ;
}

impl MerkleChip {
    /// Declare the boolean gate on the bit column and the swap gate over the
    /// two value columns and the bit column, enabling equality on all three.
    pub fn configure(
        meta: &mut ConstraintSys,
        advice: [usize; 3],
        hash_config: PoseidonConfig,
    ) -> (c: MerkleConfig)
        requires
            old(meta).selectors < usize::MAX - 1,
        ensures
            c.advice == advice,
            c.hash_config == hash_config,
            c.s_bool == old(meta).selectors,
            c.s_swap == old(meta).selectors + 1,
            final(meta).advice_cols == old(meta).advice_cols,
            final(meta).fixed_cols == old(meta).fixed_cols,
            final(meta).instance_cols == old(meta).instance_cols,
            final(meta).selectors == old(meta).selectors + 2,
    {
        meta.enable_equality(advice[0]);
        meta.enable_equality(advice[1]);
        meta.enable_equality(advice[2]);
        let s_bool = meta.selector();
        let s_swap = meta.selector();
        MerkleConfig { advice, s_bool, s_swap, hash_config }
    }

    /// Construct a chip instance from a shared configuration.
    pub fn construct(config: MerkleConfig) -> (c: MerkleChip)
        ensures
            c.config == config,
    {
        MerkleChip { config }
    }

    /// The configuration the chip was constructed from.
    pub fn config(&self) -> (c: &MerkleConfig)
        ensures
            c == self.config,
    {
        &self.config
    }
}

impl MerkleInstructions for MerkleChip {
    #[allow(unused_variables)]
    fn hash_layer(
        &self,
        s: &mut Synthesizer,
        leaf_or_digest: CellValue,
        sibling: Option<Felt>,
        position_bit: Option<Felt>,
        layer: usize,
    ) -> (r: Result<CellValue, Error>) {
        let node_f = match sibling {
            Some(_) => match position_bit {
                Some(_) => leaf_or_digest.value.unwrap(),
                None => { return Err(Error::SynthesisError); },
            },
            None => { return Err(Error::SynthesisError); },
        };
        let sib_f = sibling.unwrap();
        let bit_f = position_bit.unwrap();
        proof {
            assert(old(s).cells@[leaf_or_digest.cell.index as int].value == Some(node_f));
        }
        let config = self.config;
        let node_cell = s.assign(config.advice[0], node_f);
        s.copy_constrain(leaf_or_digest.cell, node_cell);
        let sib_cell = s.assign(config.advice[1], sib_f);
        let bit_cell = s.assign(config.advice[2], bit_f);
        let bool_gate = Gate::Bool { bit: bit_cell };
        let ghost s_bool_pre = *s;
        s.push_gate(bool_gate);
        let z = Felt::zero();
        proof {
            crate::field::lemma_value_order(bit_f, z);
        }
        let (l_f, r_f) = if bit_f == z {
            (node_f, sib_f)
        } else {
            (sib_f, node_f)
        };
        let l_cell = s.assign(config.advice[0], l_f);
        let r_cell = s.assign(config.advice[1], r_f);
        let swap_gate = Gate::Swap { a: node_cell, b: sib_cell, bit: bit_cell, l: l_cell, r: r_cell };
        let ghost s_swap_pre = *s;
        s.push_gate(swap_gate);
        proof {
            assert(crate::synth::gate_holds(bool_gate, s_bool_pre.cells@) == (bool_poly(bit_f@)
                == 0));
            assert(crate::synth::gate_holds(swap_gate, s_swap_pre.cells@) == (swap_poly(
                node_f@,
                sib_f@,
                bit_f@,
                l_f@,
                r_f@,
            ) == 0));
            if bit_f@ == 0 || bit_f@ == 1 {
                lemma_bool_gate(bit_f@);
                lemma_swap_selection(node_f@, sib_f@, bit_f@);
            }
        }
        let chip = PoseidonChip::construct(config.hash_config);
        let hasher = Hasher::init(chip);
        let loaded = hasher.absorb(
            s,
            [
                CellValue { cell: l_cell, value: Some(l_f) },
                CellValue { cell: r_cell, value: Some(r_f) },
            ],
        ).unwrap();
        proof {
            assert(node_cell == (Cell { index: old(s).cells@.len() as usize }));
            assert(sib_cell == (Cell { index: (old(s).cells@.len() + 1) as usize }));
            assert(bit_cell == (Cell { index: (old(s).cells@.len() + 2) as usize }));
            assert(l_cell == (Cell { index: (old(s).cells@.len() + 3) as usize }));
            assert(r_cell == (Cell { index: (old(s).cells@.len() + 4) as usize }));
            assert(loaded.l.cell == (Cell { index: (old(s).cells@.len() + 5) as usize }));
            assert(loaded.r.cell == (Cell { index: (old(s).cells@.len() + 6) as usize }));
        }
        let digest = loaded.squeeze(s).unwrap();
        proof {
            assert(digest.cell == (Cell { index: (old(s).cells@.len() + 7) as usize }));
        }
        Ok(digest)
    }
}

/// An authentication path of fixed depth, ordered from the leaf to the root,
/// together with the chip that folds it.
#[derive(Clone, Copy, Debug)]
pub struct MerklePath {
    pub chip: MerkleChip,
    pub leaf_pos: Option<[Felt; MERKLE_DEPTH]>,
    pub path: Option<[Felt; MERKLE_DEPTH]>,
}

impl MerklePath {
    /// Both the siblings and the direction bits are present and canonical.
    pub open spec fn wf_path(self) -> bool {
        &&& self.path is Some
        &&& self.leaf_pos is Some
        &&& forall|i: int|
            0 <= i < MERKLE_DEPTH ==> (#[trigger] (self.path->0)@[i]).wf() && (
            self.leaf_pos->0)@[i].wf()
    }

    /// The sibling values along the path.
    pub open spec fn sib_vals(self) -> Seq<nat> {
        (self.path->0)@.map_values(|f: Felt| f@)
    }

    /// The direction-bit values along the path.
    pub open spec fn bit_vals(self) -> Seq<nat> {
        (self.leaf_pos->0)@.map_values(|f: Felt| f@)
    }

    /// Fold the path from the leaf to the root, layer 0 through the last,
    /// feeding each layer's digest into the next layer.
    ///
    /// The path and position bits must be present: a missing sequence is a
    /// shape mismatch, a fatal configuration error that the requires
    /// excludes.
    pub fn calculate_root(&self, s: &mut Synthesizer, leaf: CellValue) -> (r: Result<
        CellValue,
        Error,
    >)
        requires
            old(s).wf(),
            self.wf_path(),
            leaf.tracks(*old(s)),
            leaf.value is Some,
        ensures
            final(s).wf(),
            r is Ok,
            r matches Ok(root) ==> ({
                &&& root.tracks(*final(s))
                &&& root.value is Some
                &&& root.val() == merkle_root(leaf.val(), self.sib_vals(), self.bit_vals())
                &&& final(s).cells@.len() >= old(s).cells@.len()
                &&& (forall|i: int|
                    0 <= i < old(s).cells@.len() ==> final(s).cells@[i] == old(s).cells@[i])
                &&& final(s).bindings@ == old(s).bindings@
                &&& final(s).copies_ok() == old(s).copies_ok()
                &&& (bits_boolean(self.bit_vals()) ==> final(s).gates_ok() == old(s).gates_ok())
                &&& (final(s).gates_ok() ==> old(s).gates_ok() && bits_valid(self.bit_vals()))
                &&& (forall|inst: Seq<nat>|
                    final(s).bindings_ok(inst) == old(s).bindings_ok(inst))
            }),
    {
        let path_arr = self.path.unwrap();
        let pos_arr = self.leaf_pos.unwrap();
        let ghost sibs = self.sib_vals();
        let ghost bits = self.bit_vals();
        let mut node = leaf;
        let mut layer: usize = 0;
        proof {
            assert(sibs.skip(0) =~= sibs);
            assert(bits.skip(0) =~= bits);
        }
        while layer < MERKLE_DEPTH
            invariant
                self.wf_path(),
                s.wf(),
                layer <= MERKLE_DEPTH,
                path_arr == self.path->0,
                pos_arr == self.leaf_pos->0,
                sibs == self.sib_vals(),
                bits == self.bit_vals(),
                node.tracks(*s),
                node.value is Some,
                merkle_root(node.val(), sibs.skip(layer as int), bits.skip(layer as int))
                    == merkle_root(leaf.val(), sibs, bits),
                s.cells@.len() >= old(s).cells@.len(),
                forall|i: int|
                    0 <= i < old(s).cells@.len() ==> s.cells@[i] == old(s).cells@[i],
                s.bindings@ == old(s).bindings@,
                s.copies_ok() == old(s).copies_ok(),
                bits_boolean(bits.take(layer as int)) ==> s.gates_ok() == old(s).gates_ok(),
                s.gates_ok() ==> old(s).gates_ok() && bits_valid(bits.take(layer as int)),
                forall|inst: Seq<nat>| s.bindings_ok(inst) == old(s).bindings_ok(inst),
            decreases MERKLE_DEPTH - layer,
        {
            let sib = path_arr[layer];
            let bit = pos_arr[layer];
            proof {
                assert((self.path->0)@[layer as int].wf());
                assert((self.leaf_pos->0)@[layer as int].wf());
            }
            let ghost s_pre = *s;
            let res = self.chip.hash_layer(s, node, Some(sib), Some(bit), layer);
            node = res.unwrap();
            proof {
                assert(sibs.skip(layer as int).drop_first() =~= sibs.skip(layer as int + 1));
                assert(bits.skip(layer as int).drop_first() =~= bits.skip(layer as int + 1));
                assert(sibs.skip(layer as int)[0] == sibs[layer as int]);
                assert(bits.skip(layer as int)[0] == bits[layer as int]);
                assert(sibs[layer as int] == sib@);
                assert(bits[layer as int] == bit@);
                lemma_bits_take_step(bits, layer as int);
            }
            layer = layer + 1;
        }
        proof {
            assert(sibs.skip(MERKLE_DEPTH as int).len() == 0);
            assert(bits.take(MERKLE_DEPTH as int) =~= bits);
        }
        Ok(node)
    }
}

/// Recompute the root in plain arithmetic outside the circuit: the reference
/// computation for the round-trip property.  Its contract names the same
/// fold, `merkle_root`, that `MerklePath::calculate_root` ensures for the
/// in-circuit digest, so the two agree on every valid path.
pub fn compute_merkle_root(
    leaf: &Felt,
    siblings: &[Felt; MERKLE_DEPTH],
    bits: &[Felt; MERKLE_DEPTH],
) -> (r: Felt)
    requires
        leaf.wf(),
        forall|i: int|
            0 <= i < MERKLE_DEPTH ==> (#[trigger] siblings@[i]).wf() && bits@[i].wf(),
    ensures
        r.wf(),
        r@ == merkle_root(
            leaf@,
            siblings@.map_values(|f: Felt| f@),
            bits@.map_values(|f: Felt| f@),
        ),
{
    let ghost sibs = siblings@.map_values(|f: Felt| f@);
    let ghost bitsv = bits@.map_values(|f: Felt| f@);
    let mut node = *leaf;
    let mut layer: usize = 0;
    proof {
        assert(sibs.skip(0) =~= sibs);
        assert(bitsv.skip(0) =~= bitsv);
    }
    while layer < MERKLE_DEPTH
        invariant
            layer <= MERKLE_DEPTH,
            node.wf(),
            forall|i: int|
                0 <= i < MERKLE_DEPTH ==> (#[trigger] siblings@[i]).wf() && bits@[i].wf(),
            sibs == siblings@.map_values(|f: Felt| f@),
            bitsv == bits@.map_values(|f: Felt| f@),
            merkle_root(node@, sibs.skip(layer as int), bitsv.skip(layer as int)) == merkle_root(
                leaf@,
                sibs,
                bitsv,
            ),
        decreases MERKLE_DEPTH - layer,
    {
        let sib = siblings[layer];
        let bit = bits[layer];
        let z = Felt::zero();
        proof {
            crate::field::lemma_value_order(bit, z);
        }
        let (l_f, r_f) = if bit == z {
            (node, sib)
        } else {
            (sib, node)
        };
        let next = poseidon_hash(&l_f, &r_f);
        proof {
            assert(sibs.skip(layer as int).drop_first() =~= sibs.skip(layer as int + 1));
            assert(bitsv.skip(layer as int).drop_first() =~= bitsv.skip(layer as int + 1));
            assert(sibs.skip(layer as int)[0] == sibs[layer as int]);
            assert(bitsv.skip(layer as int)[0] == bitsv[layer as int]);
        }
        node = next;
        layer = layer + 1;
    }
    proof {
        assert(sibs.skip(MERKLE_DEPTH as int).len() == 0);
    }
    node
}

} // verus!
