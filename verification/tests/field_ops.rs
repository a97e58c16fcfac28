//! Arithmetic of the canonical field element representation.

use semaphore_circuit::field::{Felt, P_LIMB_0, P_LIMB_1, P_LIMB_2, P_LIMB_3};

fn f(x: u64) -> Felt {
    Felt::from_u64(x)
}

fn p_minus_one() -> Felt {
    Felt { l0: P_LIMB_0 - 1, l1: P_LIMB_1, l2: P_LIMB_2, l3: P_LIMB_3 }
}

#[test]
fn add_small_values() {
    assert_eq!(f(2).add(&f(3)), f(5));
    assert_eq!(f(0).add(&f(7)), f(7));
}

#[test]
fn add_wraps_at_modulus() {
    assert_eq!(p_minus_one().add(&f(1)), f(0));
    assert_eq!(p_minus_one().add(&f(3)), f(2));
}

#[test]
fn sub_small_values() {
    assert_eq!(f(5).sub(&f(3)), f(2));
    assert_eq!(f(5).sub(&f(5)), f(0));
}

#[test]
fn sub_wraps_below_zero() {
    assert_eq!(f(0).sub(&f(1)), p_minus_one());
    assert_eq!(f(2).sub(&f(3)), p_minus_one());
}

#[test]
fn neg_is_additive_inverse() {
    assert_eq!(f(1).neg(), p_minus_one());
    assert_eq!(f(0).neg(), f(0));
    let x = f(12345);
    assert_eq!(x.add(&x.neg()), f(0));
}

#[test]
fn double_is_add_self() {
    assert_eq!(f(7).double(), f(14));
    assert_eq!(p_minus_one().double(), p_minus_one().add(&p_minus_one()));
}

#[test]
fn mul_small_values() {
    assert_eq!(f(2).mul(&f(3)), f(6));
    assert_eq!(f(1).mul(&f(9)), f(9));
    assert_eq!(f(0).mul(&f(9)), f(0));
}

#[test]
fn mul_reduces_modulo_p() {
    // (-1) * (-1) = 1 in the field.
    assert_eq!(p_minus_one().mul(&p_minus_one()), f(1));
    // (-1) * 2 = -2.
    assert_eq!(p_minus_one().mul(&f(2)), p_minus_one().sub(&f(1)));
}
