//! Prime-field elements for the circuit's native field.
//!
//! A `Felt` holds a canonical little-endian 64-bit limb representation of an
//! integer below the field modulus `p`.  Addition, subtraction and negation
//! are implemented and verified here; multiplication is delegated to the
//! field implementation of an outside curve library behind a trusted wrapper,
//! with the exact contract `r@ == (a@ * b@) % p()`.

use vstd::prelude::*;
use vstd::arithmetic::div_mod::{lemma_fundamental_div_mod, lemma_small_mod, lemma_mod_multiples_vanish};
use pasta_curves::group::ff::PrimeField;

verus! {

/// Lowest limb of the modulus.
pub const P_LIMB_0: u64 = 0x992d30ed00000001;
/// Second limb of the modulus.
pub const P_LIMB_1: u64 = 0x224698fc094cf91b;
/// Third limb of the modulus.
pub const P_LIMB_2: u64 = 0x0000000000000000;
/// Highest limb of the modulus.
pub const P_LIMB_3: u64 = 0x4000000000000000;

/// 2^64, the limb radix.
pub const RADIX: u128 = 0x10000000000000000;

/// The field modulus: the order of the base field of the Pallas curve.
pub open spec fn p() -> nat {
    0x40000000000000000000000000000000224698fc094cf91b992d30ed00000001nat
}

/// A field element as four 64-bit little-endian limbs.
///
/// Well-formed elements (`wf`) are canonical: their integer value is below
/// the modulus, so structural equality coincides with field equality.
#[derive(Clone, Copy, Debug, PartialEq, Eq, Structural)]
pub struct Felt {
    pub l0: u64,
    pub l1: u64,
    pub l2: u64,
    pub l3: u64,
}

impl View for Felt {
    type V = nat;

    open spec fn view(&self) -> nat {
        (self.l0
            + (self.l1 as nat) * 0x10000000000000000nat
            + (self.l2 as nat) * 0x100000000000000000000000000000000nat
            + (self.l3 as nat) * 0x1000000000000000000000000000000000000000000000000nat) as nat
    }
}

/// Modular addition of field values.
pub open spec fn fadd(a: nat, b: nat) -> nat {
    (a + b) % p()
}

/// Modular subtraction of field values.
pub open spec fn fsub(a: nat, b: nat) -> nat {
    ((a + p() - b) % (p() as int)) as nat
}

/// Modular multiplication of field values.
pub open spec fn fmul(a: nat, b: nat) -> nat {
    (a * b) % p()
}

/// Modular negation of field values.
pub open spec fn fneg(a: nat) -> nat {
    (((p() - a) % (p() as int))) as nat
}

/// Lexicographic limb order, highest limb first.
pub open spec fn lex_lt(a: Felt, b: Felt) -> bool {
    a.l3 < b.l3
        || (a.l3 == b.l3 && (a.l2 < b.l2
            || (a.l2 == b.l2 && (a.l1 < b.l1
                || (a.l1 == b.l1 && a.l0 < b.l0)))))
}

/// The limb order decides the value order, and equal values have equal limbs:
/// the representation is injective.
pub proof fn lemma_value_order(a: Felt, b: Felt)
    ensures
        a@ < b@ <==> lex_lt(a, b),
        a@ == b@ <==> (a.l0 == b.l0 && a.l1 == b.l1 && a.l2 == b.l2 && a.l3 == b.l3),
{
    if a.l3 < b.l3 {
        assert(a@ < b@);
    } else if b.l3 < a.l3 {
        assert(b@ < a@);
    } else if a.l2 < b.l2 {
        assert(a@ < b@);
    } else if b.l2 < a.l2 {
        assert(b@ < a@);
    } else if a.l1 < b.l1 {
        assert(a@ < b@);
    } else if b.l1 < a.l1 {
        assert(b@ < a@);
    }
}

impl Felt {
    /// Canonical form: the value is reduced below the modulus.
    pub open spec fn wf(self) -> bool {
        self@ < p()
    }

    /// The element with the given small value.
    pub fn from_u64(x: u64) -> (r: Felt)
        ensures
            r.wf(),
            r@ == x,
    {
        let r = Felt { l0: x, l1: 0, l2: 0, l3: 0 };
        proof {
            assert(r@ == x);
        }
        r
    }

    /// The additive identity.
    pub fn zero() -> (r: Felt)
        ensures
            r.wf(),
            r@ == 0,
    {
        Felt::from_u64(0)
    }

    /// The multiplicative identity.
    pub fn one() -> (r: Felt)
        ensures
            r.wf(),
            r@ == 1,
    {
        Felt::from_u64(1)
    }

    /// Modular addition.
    pub fn add(&self, other: &Felt) -> (r: Felt)
        requires
            self.wf(),
            other.wf(),
        ensures
            r.wf(),
            r@ == fadd(self@, other@),
    {
        let t = add_limbs(self, other);
        reduce_once(&t)
    }

    /// Modular subtraction.
    pub fn sub(&self, other: &Felt) -> (r: Felt)
        requires
            self.wf(),
            other.wf(),
        ensures
            r.wf(),
            r@ == fsub(self@, other@),
    {
        if geq(self, other) {
            let r = sub_limbs(self, other);
            proof {
                lemma_small_mod((self@ - other@) as nat, p());
                lemma_mod_multiples_vanish(1, self@ - other@, p() as int);
            }
            r
        } else {
            let t = add_limbs(self, &modulus_limbs());
            let r = sub_limbs(&t, other);
            proof {
                lemma_small_mod((self@ + p() - other@) as nat, p());
            }
            r
        }
    }

    /// Modular negation.
    pub fn neg(&self) -> (r: Felt)
        requires
            self.wf(),
        ensures
            r.wf(),
            r@ == fneg(self@),
    {
        Felt::zero().sub(self)
    }

    /// Doubling, a special case of addition.
    pub fn double(&self) -> (r: Felt)
        requires
            self.wf(),
        ensures
            r.wf(),
            r@ == fadd(self@, self@),
    {
        self.add(self)
    }

    /// Modular multiplication.
    ///
    /// The product is computed by the outside field implementation; the
    /// wrapper's contract pins the result to `(a * b) % p` exactly.
    pub fn mul(&self, other: &Felt) -> (r: Felt)
        requires
            self.wf(),
            other.wf(),
        ensures
            r.wf(),
            r@ == fmul(self@, other@),
    {
        mul_impl(self, other)
    }
}

/// The modulus itself as limbs (not a well-formed element).
fn modulus_limbs() -> (r: Felt)
    ensures
        r@ == p(),
{
    let r = Felt { l0: P_LIMB_0, l1: P_LIMB_1, l2: P_LIMB_2, l3: P_LIMB_3 };
    proof {
        assert(r@ == p());
    }
    r
}

/// 256-bit comparison via the limb order.
fn geq(a: &Felt, b: &Felt) -> (r: bool)
    ensures
        r == (a@ >= b@),
{
    proof {
        lemma_value_order(*a, *b);
    }
    if a.l3 != b.l3 {
        a.l3 > b.l3
    } else if a.l2 != b.l2 {
        a.l2 > b.l2
    } else if a.l1 != b.l1 {
        a.l1 > b.l1
    } else {
        a.l0 >= b.l0
    }
}

/// Exact 256-bit addition of two limb vectors whose sum fits in 256 bits.
fn add_limbs(a: &Felt, b: &Felt) -> (r: Felt)
    requires
        a@ + b@ < 0x10000000000000000000000000000000000000000000000000000000000000000nat,
    ensures
        r@ == a@ + b@,
{
    let s0: u128 = (a.l0 as u128) + (b.l0 as u128);
    let d0: u64 = (s0 % RADIX) as u64;
    let c0: u64 = (s0 / RADIX) as u64;
    let s1: u128 = (a.l1 as u128) + (b.l1 as u128) + (c0 as u128);
    let d1: u64 = (s1 % RADIX) as u64;
    let c1: u64 = (s1 / RADIX) as u64;
    let s2: u128 = (a.l2 as u128) + (b.l2 as u128) + (c1 as u128);
    let d2: u64 = (s2 % RADIX) as u64;
    let c2: u64 = (s2 / RADIX) as u64;
    let s3: u128 = (a.l3 as u128) + (b.l3 as u128) + (c2 as u128);
    let d3: u64 = (s3 % RADIX) as u64;
    let c3: u64 = (s3 / RADIX) as u64;
    let r = Felt { l0: d0, l1: d1, l2: d2, l3: d3 };
    proof {
        lemma_fundamental_div_mod(s0 as int, RADIX as int);
        lemma_fundamental_div_mod(s1 as int, RADIX as int);
        lemma_fundamental_div_mod(s2 as int, RADIX as int);
        lemma_fundamental_div_mod(s3 as int, RADIX as int);
        assert(a@ + b@ == r@
            + (c3 as nat) * 0x10000000000000000000000000000000000000000000000000000000000000000nat);
    }
    r
}

/// Exact 256-bit subtraction, defined when no final borrow occurs.
fn sub_limbs(a: &Felt, b: &Felt) -> (r: Felt)
    requires
        b@ <= a@,
    ensures
        r@ == a@ - b@,
{
    let x0: u128 = (a.l0 as u128) + RADIX - (b.l0 as u128);
    let d0: u64 = (x0 % RADIX) as u64;
    let w0: u64 = 1 - (x0 / RADIX) as u64;
    let x1: u128 = (a.l1 as u128) + RADIX - (b.l1 as u128) - (w0 as u128);
    let d1: u64 = (x1 % RADIX) as u64;
    let w1: u64 = 1 - (x1 / RADIX) as u64;
    let x2: u128 = (a.l2 as u128) + RADIX - (b.l2 as u128) - (w1 as u128);
    let d2: u64 = (x2 % RADIX) as u64;
    let w2: u64 = 1 - (x2 / RADIX) as u64;
    let x3: u128 = (a.l3 as u128) + RADIX - (b.l3 as u128) - (w2 as u128);
    let d3: u64 = (x3 % RADIX) as u64;
    let w3: u64 = 1 - (x3 / RADIX) as u64;
    let r = Felt { l0: d0, l1: d1, l2: d2, l3: d3 };
    proof {
        lemma_fundamental_div_mod(x0 as int, RADIX as int);
        lemma_fundamental_div_mod(x1 as int, RADIX as int);
        lemma_fundamental_div_mod(x2 as int, RADIX as int);
        lemma_fundamental_div_mod(x3 as int, RADIX as int);
        assert(a@ - b@ == r@
            - (w3 as nat) * 0x10000000000000000000000000000000000000000000000000000000000000000nat);
    }
    r
}

/// One conditional subtraction of the modulus, enough to reduce a sum of two
/// reduced elements.
fn reduce_once(t: &Felt) -> (r: Felt)
    requires
        t@ < 2 * p(),
    ensures
        r.wf(),
        r@ == t@ % p(),
{
    let m = modulus_limbs();
    if geq(t, &m) {
        let r = sub_limbs(t, &m);
        proof {
            lemma_mod_multiples_vanish(1, t@ - p(), p() as int);
            lemma_small_mod((t@ - p()) as nat, p());
        }
        r
    } else {
        proof {
            lemma_small_mod(t@, p());
        }
        *t
    }
}

/// Relies on `pasta_curves::Fp`: arithmetic in the prime field of order `p`.
/// `Fp::from_raw` reduces a little-endian 256-bit integer into the field and
/// `to_repr` returns the canonical little-endian byte representation, so the
/// returned limbs hold exactly `(a * b) mod p`.
#[verifier::external_body]
fn mul_impl(a: &Felt, b: &Felt) -> (r: Felt)
    ensures
        r.wf(),
        r@ == fmul(a@, b@),
{
    let x = pasta_curves::Fp::from_raw([a.l0, a.l1, a.l2, a.l3]);
    let y = pasta_curves::Fp::from_raw([b.l0, b.l1, b.l2, b.l3]);
    let t: [u8; 32] = (x * y).to_repr();
    Felt {
        l0: u64::from_le_bytes(t[0..8].try_into().unwrap()),
        l1: u64::from_le_bytes(t[8..16].try_into().unwrap()),
        l2: u64::from_le_bytes(t[16..24].try_into().unwrap()),
        l3: u64::from_le_bytes(t[24..32].try_into().unwrap()),
    }
}

} // verus!
