use conic_core::scalar::{
    from_int, from_units, sadd, sclip, sdiv, smul, srecip, ssqrt, ssub, Scalar,
};
use conic_core::vector;

fn num(x: i64) -> Scalar {
    Scalar::Num(x * 1_000_000)
}

#[test]
fn dot_self_equals_sumsq_and_norm_squares_back() {
    let v = vec![num(3), num(4)];
    let d = vector::dot(&v, &v);
    let sq = vector::sumsq(&v);
    assert_eq!(d, sq);
    assert_eq!(sq, num(25));
    let nrm = vector::norm(&v);
    assert_eq!(nrm, num(5));
    assert_eq!(smul(nrm, nrm), num(25));
}

#[test]
fn norm_of_inexact_root_brackets_sumsq() {
    // sumsq([1,1]) = 2; sqrt(2) is not exact in fixed point, so the norm
    // is the largest value whose square does not exceed 2.
    let v = vec![num(1), num(1)];
    let nrm = vector::norm(&v);
    assert_eq!(nrm, Scalar::Num(1_414_213));
    let squared = smul(nrm, nrm);
    let above = smul(Scalar::Num(1_414_214), Scalar::Num(1_414_214));
    assert!(matches!(squared, Scalar::Num(u) if u <= 2_000_000));
    assert!(matches!(above, Scalar::Num(u) if u > 2_000_000));
}

#[test]
fn norm_inf_skips_nan() {
    let v = vec![num(3), num(-5), Scalar::Nan, num(2)];
    assert_eq!(vector::norm_inf(&v), num(5));
}

#[test]
fn axpby_exact_case_branches() {
    let x = vec![num(10), num(20)];
    let a = num(2);

    let mut y = vec![num(1), num(2)];
    vector::axpby(&mut y, a, &x, num(0));
    assert_eq!(y, vec![num(20), num(40)]);

    let mut y = vec![num(1), num(2)];
    vector::axpby(&mut y, a, &x, num(1));
    assert_eq!(y, vec![num(21), num(42)]);

    let mut y = vec![num(1), num(2)];
    vector::axpby(&mut y, a, &x, num(-1));
    assert_eq!(y, vec![num(19), num(38)]);

    let mut y = vec![num(1), num(2)];
    vector::axpby(&mut y, a, &x, num(3));
    assert_eq!(y, vec![num(23), num(46)]);
}

#[test]
fn axpby_b_zero_ignores_stale_y() {
    let x = vec![num(7)];
    let mut y = vec![Scalar::Nan];
    vector::axpby(&mut y, num(1), &x, num(0));
    assert_eq!(y, vec![num(7)]);
}

#[test]
fn clip_returns_replacement_bounds() {
    assert_eq!(sclip(from_units(500_000), num(1), num(2), num(-9), num(9)), num(-9));
    assert_eq!(sclip(num(3), num(1), num(2), num(-9), num(9)), num(9));
    assert_eq!(sclip(from_units(1_500_000), num(1), num(2), num(-9), num(9)), from_units(1_500_000));
    let mut v = vec![num(0), num(5), from_units(1_200_000)];
    vector::clip(&mut v, num(1), num(2), num(1), num(2));
    assert_eq!(v, vec![num(1), num(2), from_units(1_200_000)]);
}

#[test]
fn waxpby_writes_weighted_sum() {
    let x = vec![num(1), num(2)];
    let y = vec![num(10), num(20)];
    let mut w = vec![num(0), num(0)];
    vector::waxpby(&mut w, num(2), &x, num(3), &y);
    assert_eq!(w, vec![num(32), num(64)]);
}

#[test]
fn minimum_and_maximum_fold_from_positive_infinity() {
    let v = vec![num(3), num(1), num(2)];
    assert_eq!(vector::minimum(&v), num(1));
    assert_eq!(vector::maximum(&v), Scalar::PosInf);
    let empty: Vec<Scalar> = vec![];
    assert_eq!(vector::minimum(&empty), Scalar::PosInf);
}

#[test]
fn mean_of_empty_buffer_is_zero() {
    let empty: Vec<Scalar> = vec![];
    assert_eq!(vector::mean(&empty), num(0));
    let v = vec![num(1), num(3)];
    assert_eq!(vector::mean(&v), num(2));
}

#[test]
fn elementwise_transforms() {
    let mut v = vec![num(2), num(-3)];
    vector::translate(&mut v, num(1));
    assert_eq!(v, vec![num(3), num(-2)]);
    vector::scale(&mut v, num(2));
    assert_eq!(v, vec![num(6), num(-4)]);
    vector::negate(&mut v);
    assert_eq!(v, vec![num(-6), num(4)]);

    let mut v = vec![num(4)];
    vector::reciprocal(&mut v);
    assert_eq!(v, vec![from_units(250_000)]);

    let mut v = vec![num(9)];
    vector::sqrt(&mut v);
    assert_eq!(v, vec![num(3)]);

    let mut v = vec![num(4)];
    vector::rsqrt(&mut v);
    assert_eq!(v, vec![from_units(500_000)]);

    let mut v = vec![num(2), num(3)];
    let y = vec![num(5), num(7)];
    vector::hadamard(&mut v, &y);
    assert_eq!(v, vec![num(10), num(21)]);

    let mut dst = vec![num(0), num(0)];
    vector::copy_from(&mut dst, &vec![num(8), num(9)]);
    assert_eq!(dst, vec![num(8), num(9)]);
}

#[test]
fn norms_one_and_scaled() {
    let v = vec![num(3), num(-4)];
    assert_eq!(vector::norm_one(&v), num(7));
    let w = vec![num(1), num(1)];
    assert_eq!(vector::norm_scaled(&v, &w), num(5));
}

#[test]
fn scalar_special_values() {
    assert_eq!(sadd(Scalar::PosInf, Scalar::NegInf), Scalar::Nan);
    assert_eq!(sadd(Scalar::PosInf, num(1)), Scalar::PosInf);
    assert_eq!(smul(Scalar::PosInf, num(0)), Scalar::Nan);
    assert_eq!(smul(Scalar::NegInf, num(2)), Scalar::NegInf);
    assert_eq!(sdiv(num(1), num(0)), Scalar::PosInf);
    assert_eq!(sdiv(num(-1), num(0)), Scalar::NegInf);
    assert_eq!(sdiv(num(0), num(0)), Scalar::Nan);
    assert_eq!(ssub(num(1), Scalar::Nan), Scalar::Nan);
    assert_eq!(srecip(num(2)), from_units(500_000));
    assert_eq!(ssqrt(num(-1)), Scalar::Nan);
    assert_eq!(ssqrt(Scalar::PosInf), Scalar::PosInf);
}

#[test]
fn scalar_saturates_to_infinity() {
    let big = from_int(3_000_000_000_000);
    let prod = smul(big, big);
    assert_eq!(prod, Scalar::PosInf);
    let nprod = smul(big, from_int(-3_000_000_000_000));
    assert_eq!(nprod, Scalar::NegInf);
}
