//! Model of the constraint-synthesis interface of the arithmetization engine.
//!
//! A [`Synthesizer`] records what a circuit emits during one witness-carrying
//! synthesis pass: assigned cells, polynomial gate applications, copy
//! (equality) constraints, and bindings of cells to public instance slots.
//! [`Synthesizer::check`] then decides, and its contract states exactly,
//! whether a public instance vector satisfies everything that was emitted —
//! the same judgment the engine's mock verifier makes.
//!
//! Row placement and selector activation are the engine's floor planner's
//! business and are out of scope here: a recorded gate application stands for
//! a row on which the corresponding selector is enabled.

use vstd::prelude::*;
use vstd::seq_lib::*;
use crate::field::{Felt, fadd, fsub, fmul};
use crate::primitives::{poseidon_digest, poseidon_hash};

verus! {

/// A synthesis failure: a witness value was required but absent.
#[derive(Clone, Copy, Debug, PartialEq, Eq, Structural)]
pub enum Error {
    SynthesisError,
}

/// Handle to one assigned cell of the witness grid.
#[derive(Clone, Copy, Debug, PartialEq, Eq, Structural)]
pub struct Cell {
    pub index: usize,
}

/// One assigned cell: the advice column it was assigned in and its witness
/// value, if one was supplied in this pass.
#[derive(Clone, Copy, Debug)]
pub struct CellRecord {
    pub col: usize,
    pub value: Option<Felt>,
}

/// A copy (equality) constraint between two cells, enforced by the engine's
/// permutation argument.
#[derive(Clone, Copy, Debug)]
pub struct CopyConstraint {
    pub a: Cell,
    pub b: Cell,
}

/// A binding of a cell to a slot of the public instance column.
#[derive(Clone, Copy, Debug)]
pub struct InstanceBinding {
    pub cell: Cell,
    pub slot: usize,
}

/// One application of a gate polynomial to assigned cells.
pub enum Gate {
    /// `lhs + rhs - out = 0`
    Add { lhs: Cell, rhs: Cell, out: Cell },
    /// `bit * (1 - bit) = 0`
    Bool { bit: Cell },
    /// `bit * 2 * (b - a) - (l - a) - (b - r) = 0`
    Swap { a: Cell, b: Cell, bit: Cell, l: Cell, r: Cell },
    /// `out = H(l, r)`: the constraint set the sponge oracle emits for one
    /// absorb/squeeze cycle, specified at its interface.
    Sponge { l: Cell, r: Cell, out: Cell },
}

/// The boolean-validity gate polynomial.
pub open spec fn bool_poly(bit: nat) -> nat {
    fmul(bit, fsub(1, bit))
}

/// The conditional-swap gate polynomial.
pub open spec fn swap_poly(a: nat, b: nat, bit: nat, l: nat, r: nat) -> nat {
    fsub(fsub(fmul(bit, fmul(2, fsub(b, a))), fsub(l, a)), fsub(b, r))
}

/// Whether a cell handle points at an assigned cell carrying a value.
pub open spec fn cell_known(cells: Seq<CellRecord>, c: Cell) -> bool {
    c.index < cells.len() && cells[c.index as int].value is Some
}

/// The field value held by a known cell.
pub open spec fn cell_val(cells: Seq<CellRecord>, c: Cell) -> nat {
    cells[c.index as int].value->0@
}

/// Whether one gate application is satisfied by the assigned cells.
pub open spec fn gate_holds(g: Gate, cells: Seq<CellRecord>) -> bool {
    match g {
        Gate::Add { lhs, rhs, out } => {
            &&& cell_known(cells, lhs)
            &&& cell_known(cells, rhs)
            &&& cell_known(cells, out)
            &&& fadd(cell_val(cells, lhs), cell_val(cells, rhs)) == cell_val(cells, out)
        },
        Gate::Bool { bit } => {
            &&& cell_known(cells, bit)
            &&& bool_poly(cell_val(cells, bit)) == 0
        },
        Gate::Swap { a, b, bit, l, r } => {
            &&& cell_known(cells, a)
            &&& cell_known(cells, b)
            &&& cell_known(cells, bit)
            &&& cell_known(cells, l)
            &&& cell_known(cells, r)
            &&& swap_poly(
                cell_val(cells, a),
                cell_val(cells, b),
                cell_val(cells, bit),
                cell_val(cells, l),
                cell_val(cells, r),
            ) == 0
        },
        Gate::Sponge { l, r, out } => {
            &&& cell_known(cells, l)
            &&& cell_known(cells, r)
            &&& cell_known(cells, out)
            &&& cell_val(cells, out) == poseidon_digest(cell_val(cells, l), cell_val(cells, r))
        },
    }
}

/// Whether a copy constraint is satisfied: both cells are assigned equal
/// values.
pub open spec fn copy_holds(cc: CopyConstraint, cells: Seq<CellRecord>) -> bool {
    &&& cell_known(cells, cc.a)
    &&& cell_known(cells, cc.b)
    &&& cell_val(cells, cc.a) == cell_val(cells, cc.b)
}

/// Whether an instance binding is satisfied by a public instance vector.
pub open spec fn binding_holds(b: InstanceBinding, cells: Seq<CellRecord>, inst: Seq<nat>) -> bool {
    &&& cell_known(cells, b.cell)
    &&& b.slot < inst.len()
    &&& inst[b.slot as int] == cell_val(cells, b.cell)
}

/// Whether all cells a gate refers to exist.
pub open spec fn gate_in_range(g: Gate, n: nat) -> bool {
    match g {
        Gate::Add { lhs, rhs, out } => lhs.index < n && rhs.index < n && out.index < n,
        Gate::Bool { bit } => bit.index < n,
        Gate::Swap { a, b, bit, l, r } => {
            a.index < n && b.index < n && bit.index < n && l.index < n && r.index < n
        },
        Gate::Sponge { l, r, out } => l.index < n && r.index < n && out.index < n,
    }
}

/// The recorded output of one synthesis pass.
pub struct Synthesizer {
    pub cells: Vec<CellRecord>,
    pub copies: Vec<CopyConstraint>,
    pub gates: Vec<Gate>,
    pub bindings: Vec<InstanceBinding>,
}

impl Synthesizer {
    /// Every constraint refers to assigned cells, and every assigned value is
    /// a canonical field element.
    pub open spec fn wf(self) -> bool {
        &&& forall|i: int|
            0 <= i < self.gates@.len() ==> gate_in_range(
                #[trigger] self.gates@[i],
                self.cells@.len(),
            )
        &&& forall|i: int|
            0 <= i < self.copies@.len() ==> (#[trigger] self.copies@[i]).a.index
                < self.cells@.len() && self.copies@[i].b.index < self.cells@.len()
        &&& forall|i: int|
            0 <= i < self.bindings@.len() ==> (#[trigger] self.bindings@[i]).cell.index
                < self.cells@.len()
        &&& forall|i: int|
            0 <= i < self.cells@.len() ==> ((#[trigger] self.cells@[i]).value matches Some(f)
                ==> f.wf())
    }

    /// Nothing has been recorded yet.
    pub open spec fn is_empty(self) -> bool {
        &&& self.cells@.len() == 0
        &&& self.copies@.len() == 0
        &&& self.gates@.len() == 0
        &&& self.bindings@.len() == 0
    }

    /// All recorded gate applications are satisfied.
    pub open spec fn gates_ok(self) -> bool {
        forall|i: int|
            0 <= i < self.gates@.len() ==> gate_holds(#[trigger] self.gates@[i], self.cells@)
    }

    /// All recorded copy constraints are satisfied.
    pub open spec fn copies_ok(self) -> bool {
        forall|i: int|
            0 <= i < self.copies@.len() ==> copy_holds(#[trigger] self.copies@[i], self.cells@)
    }

    /// All recorded instance bindings are satisfied by `inst`.
    pub open spec fn bindings_ok(self, inst: Seq<nat>) -> bool {
        forall|i: int|
            0 <= i < self.bindings@.len() ==> binding_holds(
                #[trigger] self.bindings@[i],
                self.cells@,
                inst,
            )
    }

    /// The judgment of the engine's verifier: every emitted constraint is
    /// satisfied by the witness, with the public values taken from `inst`.
    pub open spec fn satisfied_by(self, inst: Seq<nat>) -> bool {
        &&& self.gates_ok()
        &&& self.copies_ok()
        &&& self.bindings_ok(inst)
    }

    /// A fresh, empty synthesis record.
    pub fn new() -> (s: Synthesizer)
        ensures
            s.wf(),
            s.is_empty(),
    {
        Synthesizer { cells: Vec::new(), copies: Vec::new(), gates: Vec::new(), bindings: Vec::new() }
    }

    /// Assign a fresh cell in the given advice column, carrying `value`.
    pub fn assign(&mut self, col: usize, value: Felt) -> (c: Cell)
        requires
            old(self).wf(),
            value.wf(),
        ensures
            final(self).wf(),
            c.index == old(self).cells@.len(),
            final(self).cells@ == old(self).cells@.push(
                (CellRecord { col, value: Some(value) }),
            ),
            final(self).copies@ == old(self).copies@,
            final(self).gates@ == old(self).gates@,
            final(self).bindings@ == old(self).bindings@,
            cell_known(final(self).cells@, c),
            cell_val(final(self).cells@, c) == value@,
            final(self).gates_ok() == old(self).gates_ok(),
            final(self).copies_ok() == old(self).copies_ok(),
            forall|inst: Seq<nat>|
                final(self).bindings_ok(inst) == old(self).bindings_ok(inst),
    {
        let c = Cell { index: self.cells.len() };
        self.cells.push(CellRecord { col, value: Some(value) });
        proof {
            lemma_constraints_preserved_by_push(
                *old(self),
                *self,
                (CellRecord { col, value: Some(value) }),
            );
        }
        c
    }

    /// Record a copy constraint between two assigned cells.
    pub fn copy_constrain(&mut self, a: Cell, b: Cell)
        requires
            old(self).wf(),
            a.index < old(self).cells@.len(),
            b.index < old(self).cells@.len(),
        ensures
            final(self).wf(),
            final(self).cells@ == old(self).cells@,
            final(self).gates@ == old(self).gates@,
            final(self).bindings@ == old(self).bindings@,
            final(self).copies@ == old(self).copies@.push((CopyConstraint { a, b })),
            final(self).gates_ok() == old(self).gates_ok(),
            final(self).copies_ok() == (old(self).copies_ok() && copy_holds(
                (CopyConstraint { a, b }),
                old(self).cells@,
            )),
            forall|inst: Seq<nat>|
                final(self).bindings_ok(inst) == old(self).bindings_ok(inst),
    {
        self.copies.push(CopyConstraint { a, b });
        proof {
            let cc = CopyConstraint { a, b };
            assert forall|i: int| 0 <= i < old(self).copies@.len() implies #[trigger] self.copies@[i]
                == old(self).copies@[i] by {}
            assert(self.copies@[self.copies@.len() - 1] == cc);
            if old(self).copies_ok() && copy_holds(cc, old(self).cells@) {
                assert forall|i: int| 0 <= i < self.copies@.len() implies copy_holds(
                    #[trigger] self.copies@[i],
                    self.cells@,
                ) by {
                    if i < old(self).copies@.len() {
                        assert(copy_holds(old(self).copies@[i], old(self).cells@));
                    }
                }
            }
            if self.copies_ok() {
                assert(copy_holds(cc, old(self).cells@));
                assert forall|i: int| 0 <= i < old(self).copies@.len() implies copy_holds(
                    #[trigger] old(self).copies@[i],
                    old(self).cells@,
                ) by {
                    assert(self.copies@[i] == old(self).copies@[i]);
                    assert(copy_holds(self.copies@[i], self.cells@));
                }
            }
        }
    }

    /// Record one gate application over assigned cells.
    pub fn push_gate(&mut self, g: Gate)
        requires
            old(self).wf(),
            gate_in_range(g, old(self).cells@.len()),
        ensures
            final(self).wf(),
            final(self).cells@ == old(self).cells@,
            final(self).copies@ == old(self).copies@,
            final(self).bindings@ == old(self).bindings@,
            final(self).gates@ == old(self).gates@.push(g),
            final(self).gates_ok() == (old(self).gates_ok() && gate_holds(g, old(self).cells@)),
            final(self).copies_ok() == old(self).copies_ok(),
            forall|inst: Seq<nat>|
                final(self).bindings_ok(inst) == old(self).bindings_ok(inst),
    {
        self.gates.push(g);
        proof {
            assert forall|i: int| 0 <= i < old(self).gates@.len() implies #[trigger] self.gates@[i]
                == old(self).gates@[i] by {}
            assert(self.gates@[self.gates@.len() - 1] == g);
            if old(self).gates_ok() && gate_holds(g, old(self).cells@) {
                assert forall|i: int| 0 <= i < self.gates@.len() implies gate_holds(
                    #[trigger] self.gates@[i],
                    self.cells@,
                ) by {
                    if i < old(self).gates@.len() {
                        assert(gate_holds(old(self).gates@[i], old(self).cells@));
                    }
                }
            }
            if self.gates_ok() {
                assert(gate_holds(g, old(self).cells@));
                assert forall|i: int| 0 <= i < old(self).gates@.len() implies gate_holds(
                    #[trigger] old(self).gates@[i],
                    old(self).cells@,
                ) by {
                    assert(self.gates@[i] == old(self).gates@[i]);
                    assert(gate_holds(self.gates@[i], self.cells@));
                }
            }
        }
    }

    /// Bind an assigned cell to a public instance slot.
    pub fn bind_instance(&mut self, c: Cell, slot: usize)
        requires
            old(self).wf(),
            c.index < old(self).cells@.len(),
        ensures
            final(self).wf(),
            final(self).cells@ == old(self).cells@,
            final(self).copies@ == old(self).copies@,
            final(self).gates@ == old(self).gates@,
            final(self).bindings@ == old(self).bindings@.push((InstanceBinding { cell: c, slot })),
            final(self).gates_ok() == old(self).gates_ok(),
            final(self).copies_ok() == old(self).copies_ok(),
            forall|inst: Seq<nat>|
                final(self).bindings_ok(inst) == (old(self).bindings_ok(inst) && binding_holds(
                    (InstanceBinding { cell: c, slot }),
                    old(self).cells@,
                    inst,
                )),
    {
        self.bindings.push(InstanceBinding { cell: c, slot });
        proof {
            let nb = InstanceBinding { cell: c, slot };
            assert forall|i: int| 0 <= i < old(self).bindings@.len() implies #[trigger] self.bindings@[i]
                == old(self).bindings@[i] by {}
            assert(self.bindings@[self.bindings@.len() - 1] == nb);
            assert forall|inst: Seq<nat>|
                self.bindings_ok(inst) == (old(self).bindings_ok(inst) && binding_holds(
                    nb,
                    old(self).cells@,
                    inst,
                )) by {
                if old(self).bindings_ok(inst) && binding_holds(nb, old(self).cells@, inst) {
                    assert forall|i: int| 0 <= i < self.bindings@.len() implies binding_holds(
                        #[trigger] self.bindings@[i],
                        self.cells@,
                        inst,
                    ) by {
                        if i < old(self).bindings@.len() {
                            assert(binding_holds(old(self).bindings@[i], old(self).cells@, inst));
                        }
                    }
                }
                if self.bindings_ok(inst) {
                    assert(binding_holds(nb, old(self).cells@, inst));
                    assert forall|i: int| 0 <= i < old(self).bindings@.len() implies binding_holds(
                        #[trigger] old(self).bindings@[i],
                        old(self).cells@,
                        inst,
                    ) by {
                        assert(self.bindings@[i] == old(self).bindings@[i]);
                        assert(binding_holds(self.bindings@[i], self.cells@, inst));
                    }
                }
            }
        }
    }
}

/// Appending a cell leaves every earlier constraint as it was: each one
/// reads only cells that already existed.
proof fn lemma_constraints_preserved_by_push(pre: Synthesizer, post: Synthesizer, x: CellRecord)
    requires
        pre.wf(),
        post.cells@ == pre.cells@.push(x),
        post.copies@ == pre.copies@,
        post.gates@ == pre.gates@,
        post.bindings@ == pre.bindings@,
    ensures
        post.gates_ok() == pre.gates_ok(),
        post.copies_ok() == pre.copies_ok(),
        forall|inst: Seq<nat>| post.bindings_ok(inst) == pre.bindings_ok(inst),
{
    assert forall|i: int| 0 <= i < pre.gates@.len() implies gate_holds(
        #[trigger] pre.gates@[i],
        post.cells@,
    ) == gate_holds(pre.gates@[i], pre.cells@) by {
        lemma_gate_holds_push(pre.gates@[i], pre.cells@, x);
    }
    assert forall|i: int| 0 <= i < pre.copies@.len() implies copy_holds(
        #[trigger] pre.copies@[i],
        post.cells@,
    ) == copy_holds(pre.copies@[i], pre.cells@) by {
        let cc = pre.copies@[i];
        assert(post.cells@[cc.a.index as int] == pre.cells@[cc.a.index as int]);
        assert(post.cells@[cc.b.index as int] == pre.cells@[cc.b.index as int]);
    }
    assert forall|inst: Seq<nat>| post.bindings_ok(inst) == pre.bindings_ok(inst) by {
        assert forall|i: int| 0 <= i < pre.bindings@.len() implies binding_holds(
            #[trigger] pre.bindings@[i],
            post.cells@,
            inst,
        ) == binding_holds(pre.bindings@[i], pre.cells@, inst) by {
            let b = pre.bindings@[i];
            assert(post.cells@[b.cell.index as int] == pre.cells@[b.cell.index as int]);
        }
    }
}

/// A gate within range reads the same cells before and after an append.
proof fn lemma_gate_holds_push(g: Gate, cells: Seq<CellRecord>, x: CellRecord)
    requires
        gate_in_range(g, cells.len()),
    ensures
        gate_holds(g, cells.push(x)) == gate_holds(g, cells),
{
    let post = cells.push(x);
    assert forall|c: Cell| c.index < cells.len() implies #[trigger] post[c.index as int]
        == cells[c.index as int] by {}
}

impl Synthesizer {
    /// The value carried by an assigned cell, if one was supplied.
    fn get_val(&self, c: Cell) -> (r: Option<Felt>)
        requires
            self.wf(),
            c.index < self.cells@.len(),
        ensures
            r is Some <==> cell_known(self.cells@, c),
            r matches Some(f) ==> f.wf() && f@ == cell_val(self.cells@, c),
    {
        self.cells[c.index].value
    }

    /// Evaluate one gate application against the assigned cells.
    fn eval_gate(&self, g: &Gate) -> (ok: bool)
        requires
            self.wf(),
            gate_in_range(*g, self.cells@.len()),
        ensures
            ok == gate_holds(*g, self.cells@),
    {
        match g {
            Gate::Add { lhs, rhs, out } => {
                let av = self.get_val(*lhs);
                let bv = self.get_val(*rhs);
                let ov = self.get_val(*out);
                if av.is_none() || bv.is_none() || ov.is_none() {
                    return false;
                }
                let a = av.unwrap();
                let b = bv.unwrap();
                let o = ov.unwrap();
                let sum = a.add(&b);
                let eq = sum == o;
                proof {
                    crate::field::lemma_value_order(sum, o);
                }
                eq
            },
            Gate::Bool { bit } => {
                let bvo = self.get_val(*bit);
                if bvo.is_none() {
                    return false;
                }
                let bv = bvo.unwrap();
                let one = Felt::one();
                let m = bv.mul(&one.sub(&bv));
                let z = Felt::zero();
                let eq = m == z;
                proof {
                    crate::field::lemma_value_order(m, z);
                }
                eq
            },
            Gate::Swap { a, b, bit, l, r } => {
                let av = self.get_val(*a);
                let bv = self.get_val(*b);
                let bitv = self.get_val(*bit);
                let lv = self.get_val(*l);
                let rv = self.get_val(*r);
                if av.is_none() || bv.is_none() || bitv.is_none() || lv.is_none()
                    || rv.is_none() {
                    return false;
                }
                let af = av.unwrap();
                let bf = bv.unwrap();
                let bitf = bitv.unwrap();
                let lf = lv.unwrap();
                let rf = rv.unwrap();
                let two = Felt::from_u64(2);
                let t1 = bitf.mul(&two.mul(&bf.sub(&af)));
                let t2 = lf.sub(&af);
                let t3 = bf.sub(&rf);
                let v = t1.sub(&t2).sub(&t3);
                let z = Felt::zero();
                let eq = v == z;
                proof {
                    crate::field::lemma_value_order(v, z);
                }
                eq
            },
            Gate::Sponge { l, r, out } => {
                let lv = self.get_val(*l);
                let rv = self.get_val(*r);
                let ov = self.get_val(*out);
                if lv.is_none() || rv.is_none() || ov.is_none() {
                    return false;
                }
                let lf = lv.unwrap();
                let rf = rv.unwrap();
                let of = ov.unwrap();
                let d = poseidon_hash(&lf, &rf);
                let eq = d == of;
                proof {
                    crate::field::lemma_value_order(d, of);
                }
                eq
            },
        }
    }

    /// Evaluate one copy constraint.
    fn eval_copy(&self, cc: &CopyConstraint) -> (ok: bool)
        requires
            self.wf(),
            cc.a.index < self.cells@.len(),
            cc.b.index < self.cells@.len(),
        ensures
            ok == copy_holds(*cc, self.cells@),
    {
        let av = self.get_val(cc.a);
        let bv = self.get_val(cc.b);
        if av.is_none() || bv.is_none() {
            return false;
        }
        let a = av.unwrap();
        let b = bv.unwrap();
        let eq = a == b;
        proof {
            crate::field::lemma_value_order(a, b);
        }
        eq
    }

    /// Evaluate one instance binding against a public instance vector.
    fn eval_binding(&self, b: &InstanceBinding, instance: &Vec<Felt>) -> (ok: bool)
        requires
            self.wf(),
            b.cell.index < self.cells@.len(),
            forall|i: int| 0 <= i < instance@.len() ==> (#[trigger] instance@[i]).wf(),
        ensures
            ok == binding_holds(*b, self.cells@, instance@.map_values(|f: Felt| f@)),
    {
        let ghost inst = instance@.map_values(|f: Felt| f@);
        if b.slot >= instance.len() {
            return false;
        }
        let vv = self.get_val(b.cell);
        if vv.is_none() {
            return false;
        }
        let v = vv.unwrap();
        let iv = instance[b.slot];
        let eq = iv == v;
        proof {
            crate::field::lemma_value_order(iv, v);
            assert(inst[b.slot as int] == instance@[b.slot as int]@);
        }
        eq
    }

    /// Decide whether the public instance vector satisfies every recorded
    /// constraint: the judgment the engine's mock verifier makes.
    pub fn check(&self, instance: &Vec<Felt>) -> (ok: bool)
        requires
            self.wf(),
            forall|i: int| 0 <= i < instance@.len() ==> (#[trigger] instance@[i]).wf(),
        ensures
            ok == self.satisfied_by(instance@.map_values(|f: Felt| f@)),
    {
        let ghost inst = instance@.map_values(|f: Felt| f@);
        let mut i: usize = 0;
        while i < self.gates.len()
            invariant
                self.wf(),
                i <= self.gates@.len(),
                forall|j: int| 0 <= j < i ==> gate_holds(#[trigger] self.gates@[j], self.cells@),
            decreases self.gates@.len() - i,
        {
            if !self.eval_gate(&self.gates[i]) {
                proof {
                    assert(!gate_holds(self.gates@[i as int], self.cells@));
                }
                return false;
            }
            i = i + 1;
        }
        let mut j: usize = 0;
        while j < self.copies.len()
            invariant
                self.wf(),
                j <= self.copies@.len(),
                forall|k: int| 0 <= k < j ==> copy_holds(#[trigger] self.copies@[k], self.cells@),
            decreases self.copies@.len() - j,
        {
            if !self.eval_copy(&self.copies[j]) {
                proof {
                    assert(!copy_holds(self.copies@[j as int], self.cells@));
                }
                return false;
            }
            j = j + 1;
        }
        let mut k: usize = 0;
        while k < self.bindings.len()
            invariant
                self.wf(),
                k <= self.bindings@.len(),
                forall|i2: int| 0 <= i2 < instance@.len() ==> (#[trigger] instance@[i2]).wf(),
                inst == instance@.map_values(|f: Felt| f@),
                forall|m: int|
                    0 <= m < k ==> binding_holds(#[trigger] self.bindings@[m], self.cells@, inst),
            decreases self.bindings@.len() - k,
        {
            if !self.eval_binding(&self.bindings[k], instance) {
                proof {
                    assert(!binding_holds(self.bindings@[k as int], self.cells@, inst));
                }
                return false;
            }
            k = k + 1;
        }
        true
    }
}


/// Configuration-time interface of the engine: column and selector handles
/// are identified by allocation order.  Equality constraints are always
/// permitted in the model; `enable_equality` mirrors the engine's interface.
pub struct ConstraintSys {
    pub advice_cols: usize,
    pub fixed_cols: usize,
    pub instance_cols: usize,
    pub selectors: usize,
}

impl ConstraintSys {
    /// A fresh configuration with no columns allocated.
    pub fn new() -> (m: ConstraintSys)
        ensures
            m.advice_cols == 0,
            m.fixed_cols == 0,
            m.instance_cols == 0,
            m.selectors == 0,
    {
        ConstraintSys { advice_cols: 0, fixed_cols: 0, instance_cols: 0, selectors: 0 }
    }

    /// Allocate a fresh advice (witness) column.
    pub fn advice_column(&mut self) -> (c: usize)
        requires
            old(self).advice_cols < usize::MAX,
        ensures
            c == old(self).advice_cols,
            final(self).advice_cols == old(self).advice_cols + 1,
            final(self).fixed_cols == old(self).fixed_cols,
            final(self).instance_cols == old(self).instance_cols,
            final(self).selectors == old(self).selectors,
    {
        let c = self.advice_cols;
        self.advice_cols = self.advice_cols + 1;
        c
    }

    /// Allocate a fresh fixed (constant) column.
    pub fn fixed_column(&mut self) -> (c: usize)
        requires
            old(self).fixed_cols < usize::MAX,
        ensures
            c == old(self).fixed_cols,
            final(self).fixed_cols == old(self).fixed_cols + 1,
            final(self).advice_cols == old(self).advice_cols,
            final(self).instance_cols == old(self).instance_cols,
            final(self).selectors == old(self).selectors,
    {
        let c = self.fixed_cols;
        self.fixed_cols = self.fixed_cols + 1;
        c
    }

    /// Allocate a fresh instance (public input) column.
    pub fn instance_column(&mut self) -> (c: usize)
        requires
            old(self).instance_cols < usize::MAX,
        ensures
            c == old(self).instance_cols,
            final(self).instance_cols == old(self).instance_cols + 1,
            final(self).advice_cols == old(self).advice_cols,
            final(self).fixed_cols == old(self).fixed_cols,
            final(self).selectors == old(self).selectors,
    {
        let c = self.instance_cols;
        self.instance_cols = self.instance_cols + 1;
        c
    }

    /// Allocate a fresh selector.
    pub fn selector(&mut self) -> (c: usize)
        requires
            old(self).selectors < usize::MAX,
        ensures
            c == old(self).selectors,
            final(self).selectors == old(self).selectors + 1,
            final(self).advice_cols == old(self).advice_cols,
            final(self).fixed_cols == old(self).fixed_cols,
            final(self).instance_cols == old(self).instance_cols,
    {
        let c = self.selectors;
        self.selectors = self.selectors + 1;
        c
    }

    /// Permit equality (copy) constraints on a column.
    pub fn enable_equality(&mut self, col: usize)
        ensures
            *final(self) == *old(self),
    {
        let _unused: usize = col;
    }
}


} // verus!
