//! Utilities shared by every chip and by the top-level circuit: witnessed
//! values, loading a private value, exposing a value as a public instance,
//! and copying a value into a fresh constrained cell.

use vstd::prelude::*;
use crate::field::Felt;
use crate::synth::{
    binding_holds, cell_known, cell_val, Cell, CellRecord, CopyConstraint, Error,
    InstanceBinding, Synthesizer,
};

verus! {

/// A witnessed value: a cell handle in the constraint grid plus the witness
/// value it was assigned, absent in a structure-only pass.  Once assigned,
/// the handle is immutable and is the only legal target of later equality
/// constraints on the value.
#[derive(Clone, Copy, Debug)]
pub struct CellValue {
    pub cell: Cell,
    pub value: Option<Felt>,
}

impl CellValue {
    /// The handle points at an assigned cell of `s` that carries exactly this
    /// value.
    pub open spec fn tracks(self, s: Synthesizer) -> bool {
        &&& self.cell.index < s.cells@.len()
        &&& s.cells@[self.cell.index as int].value == self.value
    }

    /// A witness value is present.
    pub open spec fn valued(self) -> bool {
        self.value is Some
    }

    /// The witnessed field value.
    pub open spec fn val(self) -> nat {
        (self.value->0)@
    }
}

/// The interface of a witnessed variable: construction from a cell handle
/// and an optional value, and access to both.
pub trait Var: Sized + Copy {
    /// The cell handle, as seen by contracts.
    spec fn spec_cell(&self) -> Cell;

    /// The optional witness value, as seen by contracts.
    spec fn spec_value(&self) -> Option<Felt>;

    /// Pair a cell handle with its witness value.
    fn new(cell: Cell, value: Option<Felt>) -> (r: Self)
        ensures
            r.spec_cell() == cell,
            r.spec_value() == value,
    ;

    /// The cell handle.
    fn cell(&self) -> (c: Cell)
        ensures
            c == self.spec_cell(),
    ;

    /// The optional witness value.
    fn value(&self) -> (v: Option<Felt>)
        ensures
            v == self.spec_value(),
    ;
}

impl Var for CellValue {
    open spec fn spec_cell(&self) -> Cell {
        self.cell
    }

    open spec fn spec_value(&self) -> Option<Felt> {
        self.value
    }

    fn new(cell: Cell, value: Option<Felt>) -> (r: Self) {
        CellValue { cell, value }
    }

    fn cell(&self) -> (c: Cell) {
        self.cell
    }

    fn value(&self) -> (v: Option<Felt>) {
        self.value
    }
}

/// Operations every chip and the top-level circuit rely on.
pub trait UtilitiesInstructions {
    /// The witnessed-variable type the implementer works with.
    type Var: Var;

    /// Witness a private value into a fresh cell of column `col`.
    ///
    /// Fails exactly when no value is supplied: a missing witness is fatal
    /// and never silently defaulted.
    fn load_private(&self, s: &mut Synthesizer, col: usize, value: Option<Felt>) -> (r: Result<
        Self::Var,
        Error,
    >)
        requires
            old(s).wf(),
            value matches Some(f) ==> f.wf(),
        ensures
            final(s).wf(),
            r is Ok <==> value is Some,
            value is None ==> *final(s) == *old(s),
            r matches Ok(v) ==> ({
                &&& v.spec_value() == value
                &&& v.spec_cell().index == old(s).cells@.len()
                &&& cell_known(final(s).cells@, v.spec_cell())
                &&& cell_val(final(s).cells@, v.spec_cell()) == (value->0)@
                &&& final(s).cells@ == old(s).cells@.push((CellRecord { col, value }))
                &&& final(s).cells@.len() == old(s).cells@.len() + 1
                &&& (forall|i: int|
                    0 <= i < old(s).cells@.len() ==> final(s).cells@[i] == old(s).cells@[i])
                &&& final(s).gates@ == old(s).gates@
                &&& final(s).copies@ == old(s).copies@
                &&& final(s).bindings@ == old(s).bindings@
                &&& final(s).gates_ok() == old(s).gates_ok()
                &&& final(s).copies_ok() == old(s).copies_ok()
                &&& (forall|inst: Seq<nat>|
                    final(s).bindings_ok(inst) == old(s).bindings_ok(inst))
            }),
    {
        match value {
            Some(f) => {
                let c = s.assign(col, f);
                Ok(Var::new(c, Some(f)))
            },
            None => Err(Error::SynthesisError),
        }
    }

    /// Constrain a witnessed value equal to the public instance slot `row`.
    fn constrain_public(&self, s: &mut Synthesizer, var: Self::Var, row: usize) -> (r: Result<
        (),
        Error,
    >)
        requires
            old(s).wf(),
            var.spec_cell().index < old(s).cells@.len(),
        ensures
            final(s).wf(),
            r is Ok,
            final(s).cells@ == old(s).cells@,
            final(s).gates@ == old(s).gates@,
            final(s).copies@ == old(s).copies@,
            final(s).gates_ok() == old(s).gates_ok(),
            final(s).copies_ok() == old(s).copies_ok(),
            forall|inst: Seq<nat>|
                final(s).bindings_ok(inst) == (old(s).bindings_ok(inst) && binding_holds(
                    (InstanceBinding { cell: var.spec_cell(), slot: row }),
                    old(s).cells@,
                    inst,
                )),
    {
        let c = var.cell();
        s.bind_instance(c, row);
        Ok(())
    }
}

/// Assign the source's value into a fresh cell of column `col` and constrain
/// the two cells equal, so the chip never silently re-derives a value.
///
/// Fails exactly when the source carries no witness value.
pub fn copy(s: &mut Synthesizer, col: usize, source: &CellValue) -> (r: Result<CellValue, Error>)
    requires
        old(s).wf(),
        source.tracks(*old(s)),
    ensures
        final(s).wf(),
        r is Ok <==> source.value is Some,
        source.value is None ==> *final(s) == *old(s),
        r matches Ok(cv) ==> ({
            &&& cv.cell.index == old(s).cells@.len()
            &&& cv.value == source.value
            &&& cv.tracks(*final(s))
            &&& final(s).cells@ == old(s).cells@.push((CellRecord { col, value: source.value }))
            &&& final(s).cells@.len() == old(s).cells@.len() + 1
            &&& (forall|i: int|
                0 <= i < old(s).cells@.len() ==> final(s).cells@[i] == old(s).cells@[i])
            &&& final(s).gates@ == old(s).gates@
            &&& final(s).copies@ == old(s).copies@.push(
                (CopyConstraint { a: source.cell, b: cv.cell }),
            )
            &&& final(s).bindings@ == old(s).bindings@
            &&& final(s).gates_ok() == old(s).gates_ok()
            &&& final(s).copies_ok() == old(s).copies_ok()
            &&& (forall|inst: Seq<nat>| final(s).bindings_ok(inst) == old(s).bindings_ok(inst))
        }),
{
    match source.value {
        Some(f) => {
            proof {
                assert(old(s).cells@[source.cell.index as int].value == Some(f));
            }
            let c = s.assign(col, f);
            s.copy_constrain(source.cell, c);
            Ok(CellValue { cell: c, value: Some(f) })
        },
        None => Err(Error::SynthesisError),
    }
}

} // verus!
