//! The top-level circuit: witness the identity secrets, derive the identity
//! commitment and the nullifier through the sponge oracle, fold the Merkle
//! path from the commitment to the root, and expose (external context,
//! nullifier, root) against the three public instance slots.

use vstd::prelude::*;
use crate::field::Felt;
use crate::primitives::poseidon_digest;
use crate::synth::{ConstraintSys, Error, Synthesizer};
use crate::utils::{CellValue, UtilitiesInstructions};
use crate::gadget::add::{AddChip, AddConfig};
use crate::gadget::merkle::{
    bits_boolean, bits_valid, merkle_root, MerkleChip, MerkleConfig, MerklePath,
};
use crate::gadget::poseidon::{Hasher, PoseidonChip, PoseidonConfig};
use crate::{EXTERNAL_NULLIFIER, MERKLE_DEPTH, NULLIFIER_HASH, ROOT};

verus! {

/// The columns and sub-chip configurations the circuit was configured with.
/// Immutable after configuration and shared by value: several chip instances
/// may be constructed from the same configuration without coordination.
#[derive(Clone, Copy, Debug)]
pub struct Config {
    pub advices: [usize; 4],
    pub instance: usize,
    pub add_config: AddConfig,
    pub merkle_config: MerkleConfig,
    pub poseidon_config: PoseidonConfig,
}

impl Config {
    /// An addition chip over this configuration.
    pub fn add_chip(&self) -> (c: AddChip)
        ensures
            c.config == self.add_config,
    {
        AddChip::construct(self.add_config)
    }

    /// An addition chip over this configuration.
    pub fn construct_add_chip(&self) -> (c: AddChip)
        ensures
            c.config == self.add_config,
    {
        AddChip::construct(self.add_config)
    }

    /// A Merkle chip over this configuration.
    pub fn construct_merkle_chip(&self) -> (c: MerkleChip)
        ensures
            c.config == self.merkle_config,
    {
        MerkleChip::construct(self.merkle_config)
    }

    /// A sponge-oracle chip over this configuration.
    pub fn construct_poseidon_chip(&self) -> (c: PoseidonChip)
        ensures
            c.config == self.poseidon_config,
    {
        PoseidonChip::construct(self.poseidon_config)
    }
}

/// The private inputs of one proof.  Each is absent until the prover
/// supplies it; synthesis with any input absent fails rather than defaulting
/// the value.
#[derive(Clone, Copy, Debug)]
pub struct SemaphoreCircuit {
    pub identity_trapdoor: Option<Felt>,
    pub identity_nullifier: Option<Felt>,
    pub external_nullifier: Option<Felt>,
    pub position_bits: Option<[Felt; MERKLE_DEPTH]>,
    pub path: Option<[Felt; MERKLE_DEPTH]>,
}

impl Default for SemaphoreCircuit {
    /// The circuit with no witnesses supplied.
    fn default() -> (c: SemaphoreCircuit)
        ensures
            c.identity_trapdoor is None,
            c.identity_nullifier is None,
            c.external_nullifier is None,
            c.position_bits is None,
            c.path is None,
    {
        SemaphoreCircuit {
            identity_trapdoor: None,
            identity_nullifier: None,
            external_nullifier: None,
            position_bits: None,
            path: None,
        }
    }
}

impl UtilitiesInstructions for SemaphoreCircuit {
    type Var = CellValue;
}

impl SemaphoreCircuit {
    /// Every private input was supplied.
    pub open spec fn witnesses_present(self) -> bool {
        &&& self.identity_trapdoor is Some
        &&& self.identity_nullifier is Some
        &&& self.external_nullifier is Some
        &&& self.position_bits is Some
        &&& self.path is Some
    }

    /// Every supplied input is a canonical field element.
    pub open spec fn inputs_wf(self) -> bool {
        &&& (self.identity_trapdoor matches Some(f) ==> f.wf())
        &&& (self.identity_nullifier matches Some(f) ==> f.wf())
        &&& (self.external_nullifier matches Some(f) ==> f.wf())
        &&& (self.position_bits matches Some(arr) ==> forall|i: int|
            0 <= i < MERKLE_DEPTH ==> (#[trigger] arr@[i]).wf())
        &&& (self.path matches Some(arr) ==> forall|i: int|
            0 <= i < MERKLE_DEPTH ==> (#[trigger] arr@[i]).wf())
    }

    /// The identity commitment: the digest of trapdoor and nullifier seed.
    pub open spec fn commitment_value(self) -> nat {
        poseidon_digest((self.identity_trapdoor->0)@, (self.identity_nullifier->0)@)
    }

    /// The nullifier: the digest of nullifier seed and external context.
    pub open spec fn nullifier_value(self) -> nat {
        poseidon_digest((self.identity_nullifier->0)@, (self.external_nullifier->0)@)
    }

    /// The public external context value.
    pub open spec fn context_value(self) -> nat {
        (self.external_nullifier->0)@
    }

    /// The direction bits along the Merkle path.
    pub open spec fn bit_values(self) -> Seq<nat> {
        (self.position_bits->0)@.map_values(|f: Felt| f@)
    }

    /// The sibling values along the Merkle path.
    pub open spec fn sibling_values(self) -> Seq<nat> {
        (self.path->0)@.map_values(|f: Felt| f@)
    }

    /// The Merkle root derived from the commitment and the path.
    pub open spec fn root_value(self) -> nat {
        merkle_root(self.commitment_value(), self.sibling_values(), self.bit_values())
    }

    /// The public instance vector the circuit owes: slot 0 the external
    /// context, slot 1 the nullifier, slot 2 the root.  The order is part of
    /// the protocol.
    pub open spec fn instance_matches(self, inst: Seq<nat>) -> bool {
        &&& inst.len() >= 3
        &&& inst[EXTERNAL_NULLIFIER as int] == self.context_value()
        &&& inst[NULLIFIER_HASH as int] == self.nullifier_value()
        &&& inst[ROOT as int] == self.root_value()
    }

    /// The circuit shape without any witness, for structure-only passes.
    pub fn without_witnesses(&self) -> (c: SemaphoreCircuit)
        ensures
            c.identity_trapdoor is None,
            c.identity_nullifier is None,
            c.external_nullifier is None,
            c.position_bits is None,
            c.path is None,
    {
        SemaphoreCircuit::default()
    }

    /// Declare all columns and gates once: four advice columns with equality
    /// enabled, the instance column, the addition gate, the sponge oracle's
    /// columns, and the Merkle gates driving that oracle.
    pub fn configure(meta: &mut ConstraintSys) -> (c: Config)
        requires
            old(meta).advice_cols <= usize::MAX - 4,
            old(meta).fixed_cols <= usize::MAX - 6,
            old(meta).instance_cols < usize::MAX,
            old(meta).selectors <= usize::MAX - 3,
        ensures
            c.advices@[0] == old(meta).advice_cols,
            c.advices@[1] == old(meta).advice_cols + 1,
            c.advices@[2] == old(meta).advice_cols + 2,
            c.advices@[3] == old(meta).advice_cols + 3,
            c.instance == old(meta).instance_cols,
            c.add_config.advice@[0] == c.advices@[0],
            c.add_config.advice@[1] == c.advices@[1],
            c.add_config.s_add == old(meta).selectors,
            c.merkle_config.advice@[0] == c.advices@[0],
            c.merkle_config.advice@[1] == c.advices@[1],
            c.merkle_config.advice@[2] == c.advices@[2],
            c.merkle_config.s_bool == old(meta).selectors + 1,
            c.merkle_config.s_swap == old(meta).selectors + 2,
            c.merkle_config.hash_config == c.poseidon_config,
            c.poseidon_config.state@[0] == c.advices@[0],
            c.poseidon_config.state@[1] == c.advices@[1],
            c.poseidon_config.state@[2] == c.advices@[2],
            c.poseidon_config.partial == c.advices@[3],
            c.poseidon_config.rc_a@[0] == old(meta).fixed_cols,
            c.poseidon_config.rc_a@[1] == old(meta).fixed_cols + 1,
            c.poseidon_config.rc_a@[2] == old(meta).fixed_cols + 2,
            c.poseidon_config.rc_b@[0] == old(meta).fixed_cols + 3,
            c.poseidon_config.rc_b@[1] == old(meta).fixed_cols + 4,
            c.poseidon_config.rc_b@[2] == old(meta).fixed_cols + 5,
            final(meta).advice_cols == old(meta).advice_cols + 4,
            final(meta).fixed_cols == old(meta).fixed_cols + 6,
            final(meta).instance_cols == old(meta).instance_cols + 1,
            final(meta).selectors == old(meta).selectors + 3,
    {
        let a0 = meta.advice_column();
        let a1 = meta.advice_column();
        let a2 = meta.advice_column();
        let a3 = meta.advice_column();
        let advices = [a0, a1, a2, a3];
        let instance = meta.instance_column();
        meta.enable_equality(instance);
        meta.enable_equality(a0);
        meta.enable_equality(a1);
        meta.enable_equality(a2);
        meta.enable_equality(a3);
        let add_config = AddChip::configure(meta, [a0, a1]);
        let f0 = meta.fixed_column();
        let f1 = meta.fixed_column();
        let f2 = meta.fixed_column();
        let f3 = meta.fixed_column();
        let f4 = meta.fixed_column();
        let f5 = meta.fixed_column();
        let rc_a = [f0, f1, f2];
        let rc_b = [f3, f4, f5];
        let poseidon_config = PoseidonChip::configure(meta, [a0, a1, a2], a3, rc_a, rc_b);
        let merkle_config = MerkleChip::configure(meta, [a0, a1, a2], poseidon_config);
        Config { advices, instance, add_config, merkle_config, poseidon_config }
    }

    /// One witness-carrying synthesis pass.
    ///
    /// Succeeds exactly when every private input was supplied; a missing
    /// witness is fatal and leaves the synthesizer untouched.  On success the
    /// recorded constraints are satisfied by a public instance vector exactly
    /// when that vector carries the circuit's context, nullifier and root in
    /// the protocol's slot order — provided the direction bits are boolean;
    /// and any satisfying vector both matches those values and certifies that
    /// every direction bit passes the boolean gate.
    #[verifier::rlimit(100)]
    pub fn synthesize(&self, config: &Config, s: &mut Synthesizer) -> (r: Result<(), Error>)
        requires
            old(s).wf(),
            old(s).is_empty(),
            self.inputs_wf(),
        ensures
            final(s).wf(),
            r is Ok <==> self.witnesses_present(),
            !self.witnesses_present() ==> *final(s) == *old(s),
            r is Ok ==> ({
                &&& (bits_boolean(self.bit_values()) ==> (forall|inst: Seq<nat>|
                    final(s).satisfied_by(inst) <==> self.instance_matches(inst)))
                &&& (forall|inst: Seq<nat>|
                    #[trigger] final(s).satisfied_by(inst) ==> (bits_valid(self.bit_values())
                        && self.instance_matches(inst)))
            }),
    {
        if self.identity_trapdoor.is_none() || self.identity_nullifier.is_none()
            || self.external_nullifier.is_none() || self.position_bits.is_none()
            || self.path.is_none() {
            return Err(Error::SynthesisError);
        }
        let identity_trapdoor = self.load_private(s, config.advices[0], self.identity_trapdoor)
            .unwrap();
        let identity_nullifier = self.load_private(s, config.advices[0], self.identity_nullifier)
            .unwrap();
        let external_nullifier = self.load_private(s, config.advices[0], self.external_nullifier)
            .unwrap();

        let hasher = Hasher::init(config.construct_poseidon_chip());
        let loaded = hasher.absorb(s, [identity_trapdoor, identity_nullifier]).unwrap();
        let identity_commitment = loaded.squeeze(s).unwrap();

        let hasher2 = Hasher::init(config.construct_poseidon_chip());
        let loaded2 = hasher2.absorb(s, [identity_nullifier, external_nullifier]).unwrap();
        let nullifier_hash = loaded2.squeeze(s).unwrap();

        let merkle_inputs = MerklePath {
            chip: config.construct_merkle_chip(),
            leaf_pos: self.position_bits,
            path: self.path,
        };
        let ghost s_before_root = *s;
        let calculated_root = merkle_inputs.calculate_root(s, identity_commitment).unwrap();
        proof {
            assert(merkle_inputs.sib_vals() == self.sibling_values());
            assert(merkle_inputs.bit_vals() == self.bit_values());
            assert(calculated_root.val() == self.root_value());
        }
        self.constrain_public(s, external_nullifier, EXTERNAL_NULLIFIER).unwrap();
        self.constrain_public(s, nullifier_hash, NULLIFIER_HASH).unwrap();
        self.constrain_public(s, calculated_root, ROOT).unwrap();
        Ok(())
    }
}

/// The nullifier is a function of the nullifier seed and the external
/// context alone: two circuits agreeing on both derive the same nullifier,
/// so the same identity signals at most once per context without being
/// identified.
pub proof fn lemma_nullifier_deterministic(c1: SemaphoreCircuit, c2: SemaphoreCircuit)
    requires
        c1.identity_nullifier == c2.identity_nullifier,
        c1.external_nullifier == c2.external_nullifier,
    ensures
        c1.nullifier_value() == c2.nullifier_value(),
{
}

} // verus!
