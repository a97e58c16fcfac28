//! The addition chip: a two-column gate enforcing `lhs + rhs = out`.
//!
//! It served as the mock commitment combiner in early design iterations and
//! remains available beside the sponge-based hash chip.

use vstd::prelude::*;
use crate::field::{fadd, Felt};
use crate::synth::{Cell, ConstraintSys, CopyConstraint, Error, Gate, Synthesizer};
use crate::utils::{copy, CellValue};

verus! {

/// The columns and selector the addition gate was configured with.  Shared
/// by value across every chip instance constructed from it.
#[derive(Clone, Copy, Debug)]
pub struct AddConfig {
    pub advice: [usize; 2],
    pub s_add: usize,
}

/// An instance of the addition chip.
#[derive(Clone, Copy, Debug)]
pub struct AddChip {
    pub config: AddConfig,
}

/// The addition instruction: witness two values into the chip's columns,
/// constrain them equal to the caller's cells, and return their sum.
pub trait AddInstruction {
    /// Assign `a` and `b` into the two designated cells of a fresh region,
    /// constrain them equal to the caller's cells, enable the addition gate,
    /// and assign the sum into the output cell.
    ///
    /// Fails exactly when a required witness value is absent.
    fn add(&self, s: &mut Synthesizer, a: CellValue, b: CellValue) -> (r: Result<CellValue, Error>)
        requires
            old(s).wf(),
            a.tracks(*old(s)),
            b.tracks(*old(s)),
        ensures
            final(s).wf(),
            r is Ok <==> (a.value is Some && b.value is Some),
            !(a.value is Some && b.value is Some) ==> *final(s) == *old(s),
            r matches Ok(out) ==> ({
                &&& out.tracks(*final(s))
                &&& out.value is Some
                &&& out.val() == fadd(a.val(), b.val())
                &&& out.cell.index == old(s).cells@.len() + 2
                &&& final(s).copies@ == old(s).copies@.push(
                    (CopyConstraint {
                        a: a.cell,
                        b: (Cell { index: old(s).cells@.len() as usize }),
                    }),
                ).push(
                    (CopyConstraint {
                        a: b.cell,
                        b: (Cell { index: (old(s).cells@.len() + 1) as usize }),
                    }),
                )
                &&& final(s).gates@ == old(s).gates@.push(
                    (Gate::Add {
                        lhs: (Cell { index: old(s).cells@.len() as usize }),
                        rhs: (Cell { index: (old(s).cells@.len() + 1) as usize }),
                        out: (Cell { index: (old(s).cells@.len() + 2) as usize }),
                    }),
                )
                &&& final(s).cells@.len() == old(s).cells@.len() + 3
                &&& (forall|i: int|
                    0 <= i < old(s).cells@.len() ==> final(s).cells@[i] == old(s).cells@[i])
                &&& final(s).bindings@ == old(s).bindings@
                &&& final(s).gates_ok() == old(s).gates_ok()
                &&& final(s).copies_ok() == old(s).copies_ok()
                &&& (forall|inst: Seq<nat>|
                    final(s).bindings_ok(inst) == old(s).bindings_ok(inst))
            }),
    ;
}

impl AddChip {
    /// Declare the addition gate over two advice columns: active rows
    /// constrain `advice[0] + advice[1]` on the current row to equal
    /// `advice[0]` on the next row.  Equality is enabled on both columns so
    /// the assigned cells can be copy-constrained to the caller's.
    pub fn configure(meta: &mut ConstraintSys, advice: [usize; 2]) -> (c: AddConfig)
        requires
            old(meta).selectors < usize::MAX,
        ensures
            c.advice == advice,
            c.s_add == old(meta).selectors,
            final(meta).advice_cols == old(meta).advice_cols,
            final(meta).fixed_cols == old(meta).fixed_cols,
            final(meta).instance_cols == old(meta).instance_cols,
            final(meta).selectors == old(meta).selectors + 1,
    {
        meta.enable_equality(advice[0]);
        meta.enable_equality(advice[1]);
        let s_add = meta.selector();
        AddConfig { advice, s_add }
    }

    /// Construct a chip instance from a shared configuration.
    pub fn construct(config: AddConfig) -> (c: AddChip)
        ensures
            c.config == config,
    {
        AddChip { config }
    }

    /// The configuration the chip was constructed from.
    pub fn config(&self) -> (c: &AddConfig)
        ensures
            c == self.config,
    {
        &self.config
    }
}

impl AddInstruction for AddChip {
    fn add(&self, s: &mut Synthesizer, a: CellValue, b: CellValue) -> (r: Result<
        CellValue,
        Error,
    >) {
        let av = match a.value {
            Some(f) => f,
            None => { return Err(Error::SynthesisError); },
        };
        let bv = match b.value {
            Some(f) => f,
            None => { return Err(Error::SynthesisError); },
        };
        proof {
            assert(old(s).cells@[a.cell.index as int].value == Some(av));
            assert(old(s).cells@[b.cell.index as int].value == Some(bv));
        }
        let lhs = copy(s, self.config.advice[0], &a).unwrap();
        let rhs = copy(s, self.config.advice[1], &b).unwrap();
        let sum = av.add(&bv);
        let out = s.assign(self.config.advice[0], sum);
        let g = Gate::Add { lhs: lhs.cell, rhs: rhs.cell, out };
        s.push_gate(g);
        proof {
            assert(crate::synth::gate_holds(g, s.cells@));
            assert(lhs.cell == (Cell { index: old(s).cells@.len() as usize }));
            assert(rhs.cell == (Cell { index: (old(s).cells@.len() + 1) as usize }));
            assert(out == (Cell { index: (old(s).cells@.len() + 2) as usize }));
        }
        Ok(CellValue { cell: out, value: Some(sum) })
    }
}

} // verus!
