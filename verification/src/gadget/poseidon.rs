//! In-circuit use of the sponge permutation oracle.
//!
//! The oracle is configured with state, partial-round and round-constant
//! columns and driven for one absorb/squeeze cycle per [`Hasher`] instance.
//! The hasher and the absorbed message are consumed by value, so a second
//! absorption through the same instance cannot compile: the sponge's state
//! columns are single-use per region in this design.
//!
//! What the oracle's own constraint set enforces internally is out of scope;
//! it is specified at its interface by the recorded sponge gate, which binds
//! the output cell to the named digest of the two absorbed cells.

use vstd::prelude::*;
use crate::primitives::{poseidon_digest, poseidon_hash};
use crate::synth::{Cell, ConstraintSys, CopyConstraint, Error, Gate, Synthesizer};
use crate::utils::CellValue;

verus! {

/// The column handles the oracle was configured with.
#[derive(Clone, Copy, Debug)]
pub struct PoseidonConfig {
    pub state: [usize; 3],
    pub partial: usize,
    pub rc_a: [usize; 3],
    pub rc_b: [usize; 3],
}

/// A constructed instance of the oracle's chip.
#[derive(Clone, Copy, Debug)]
pub struct PoseidonChip {
    pub config: PoseidonConfig,
}

impl PoseidonChip {
    /// Bind the oracle to its state, partial-round and round-constant
    /// columns, enabling equality on the state columns it exchanges values
    /// through.
    pub fn configure(
        meta: &mut ConstraintSys,
        state: [usize; 3],
        partial: usize,
        rc_a: [usize; 3],
        rc_b: [usize; 3],
    ) -> (c: PoseidonConfig)
        ensures
            c.state == state,
            c.partial == partial,
            c.rc_a == rc_a,
            c.rc_b == rc_b,
            *final(meta) == *old(meta),
    {
        meta.enable_equality(state[0]);
        meta.enable_equality(state[1]);
        meta.enable_equality(state[2]);
        PoseidonConfig { state, partial, rc_a, rc_b }
    }

    /// Construct a chip instance from a shared configuration.
    pub fn construct(config: PoseidonConfig) -> (c: PoseidonChip)
        ensures
            c.config == config,
    {
        PoseidonChip { config }
    }

    /// The configuration the chip was constructed from.
    pub fn config(&self) -> (c: &PoseidonConfig)
        ensures
            c == self.config,
    {
        &self.config
    }
}

/// One absorb/squeeze use of the oracle.  Constructing a hasher binds one
/// use; absorbing consumes it.
pub struct Hasher {
    pub config: PoseidonConfig,
}

/// A two-element message witnessed into the sponge's input cells, ready to
/// be squeezed.  Squeezing consumes it.
pub struct LoadedMessage {
    pub config: PoseidonConfig,
    pub l: CellValue,
    pub r: CellValue,
}

impl Hasher {
    /// Bind one use of the oracle to a chip instance.
    pub fn init(chip: PoseidonChip) -> (h: Hasher)
        ensures
            h.config == chip.config,
    {
        Hasher { config: chip.config }
    }

    /// Witness the two message elements into the sponge's input cells,
    /// constrained equal to the caller's cells.
    ///
    /// Fails exactly when a message element carries no witness value.
    pub fn absorb(self, s: &mut Synthesizer, msg: [CellValue; 2]) -> (r: Result<
        LoadedMessage,
        Error,
    >)
        requires
            old(s).wf(),
            msg@[0].tracks(*old(s)),
            msg@[1].tracks(*old(s)),
        ensures
            final(s).wf(),
            r is Ok <==> (msg@[0].value is Some && msg@[1].value is Some),
            !(msg@[0].value is Some && msg@[1].value is Some) ==> *final(s) == *old(s),
            r matches Ok(lm) ==> ({
                &&& lm.l.tracks(*final(s))
                &&& lm.r.tracks(*final(s))
                &&& lm.l.value == msg@[0].value
                &&& lm.r.value == msg@[1].value
                &&& lm.l.cell.index == old(s).cells@.len()
                &&& lm.r.cell.index == old(s).cells@.len() + 1
                &&& lm.config == self.config
                &&& final(s).copies@ == old(s).copies@.push(
                    (CopyConstraint { a: msg@[0].cell, b: lm.l.cell }),
                ).push((CopyConstraint { a: msg@[1].cell, b: lm.r.cell }))
                &&& final(s).cells@.len() == old(s).cells@.len() + 2
                &&& (forall|i: int|
                    0 <= i < old(s).cells@.len() ==> final(s).cells@[i] == old(s).cells@[i])
                &&& final(s).gates@ == old(s).gates@
                &&& final(s).bindings@ == old(s).bindings@
                &&& final(s).gates_ok() == old(s).gates_ok()
                &&& final(s).copies_ok() == old(s).copies_ok()
                &&& (forall|inst: Seq<nat>|
                    final(s).bindings_ok(inst) == old(s).bindings_ok(inst))
            }),
    {
        let m0 = msg[0];
        let m1 = msg[1];
        if m0.value.is_none() || m1.value.is_none() {
            return Err(Error::SynthesisError);
        }
        let l = crate::utils::copy(s, self.config.state[0], &m0).unwrap();
        let r = crate::utils::copy(s, self.config.state[1], &m1).unwrap();
        Ok(LoadedMessage { config: self.config, l, r })
    }
}

impl LoadedMessage {
    /// Drive the oracle's permutation over the absorbed message and return
    /// the digest cell, bound to the named digest of the two inputs by the
    /// recorded sponge gate.
    pub fn squeeze(self, s: &mut Synthesizer) -> (r: Result<CellValue, Error>)
        requires
            old(s).wf(),
            self.l.tracks(*old(s)),
            self.r.tracks(*old(s)),
            self.l.value is Some,
            self.r.value is Some,
        ensures
            final(s).wf(),
            r is Ok,
            r matches Ok(d) ==> ({
                &&& d.tracks(*final(s))
                &&& d.value is Some
                &&& d.val() == poseidon_digest(self.l.val(), self.r.val())
                &&& d.cell.index == old(s).cells@.len()
                &&& final(s).gates@ == old(s).gates@.push(
                    (Gate::Sponge {
                        l: self.l.cell,
                        r: self.r.cell,
                        out: (Cell { index: old(s).cells@.len() as usize }),
                    }),
                )
                &&& final(s).cells@.len() == old(s).cells@.len() + 1
                &&& (forall|i: int|
                    0 <= i < old(s).cells@.len() ==> final(s).cells@[i] == old(s).cells@[i])
                &&& final(s).copies@ == old(s).copies@
                &&& final(s).bindings@ == old(s).bindings@
                &&& final(s).gates_ok() == old(s).gates_ok()
                &&& final(s).copies_ok() == old(s).copies_ok()
                &&& (forall|inst: Seq<nat>|
                    final(s).bindings_ok(inst) == old(s).bindings_ok(inst))
            }),
    {
        let lf = self.l.value.unwrap();
        let rf = self.r.value.unwrap();
        proof {
            assert(old(s).cells@[self.l.cell.index as int].value == Some(lf));
            assert(old(s).cells@[self.r.cell.index as int].value == Some(rf));
        }
        let d = poseidon_hash(&lf, &rf);
        let out = s.assign(self.config.state[0], d);
        let g = Gate::Sponge { l: self.l.cell, r: self.r.cell, out };
        s.push_gate(g);
        proof {
            assert(crate::synth::gate_holds(g, s.cells@));
        }
        Ok(CellValue { cell: out, value: Some(d) })
    }
}

} // verus!
