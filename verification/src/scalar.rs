//! The scalar type of the numeric kernels.
//!
//! Interior-point data is carried in an exact fixed-point scalar with the
//! shape of a floating-point number: finite values, two infinities and a
//! not-a-number value. A finite value holds its magnitude in units of
//! `1 / SCALE`. Arithmetic saturates to the infinities where a result
//! leaves the finite range, and the ordering treats `Nan` the way IEEE
//! comparisons do: every comparison against it is false.

use vstd::prelude::*;

verus! {

/// Number of fixed-point units per whole unit of a finite scalar.
pub const SCALE: i64 = 1_000_000;

/// A scalar value: finite fixed-point number, an infinity, or not-a-number.
#[derive(Clone, Copy, Debug, PartialEq, Eq, Structural)]
pub enum Scalar {
    /// A finite value of `i / SCALE`.
    Num(i64),
    /// Positive infinity.
    PosInf,
    /// Negative infinity.
    NegInf,
    /// Not a number; absorbed by arithmetic, false under every comparison.
    Nan,
}

/// Absolute value of a mathematical integer.
pub open spec fn iabs(x: int) -> int {
    if x < 0 { -x } else { x }
}

/// Saturate a mathematical integer of fixed-point units into a scalar.
pub open spec fn s_clamp(x: int) -> Scalar {
    if x > i64::MAX as int {
        Scalar::PosInf
    } else if x < -(i64::MAX as int) {
        Scalar::NegInf
    } else {
        Scalar::Num(x as i64)
    }
}

pub open spec fn s_zero() -> Scalar {
    Scalar::Num(0)
}

pub open spec fn s_one() -> Scalar {
    Scalar::Num(SCALE)
}

pub open spec fn s_neg_one() -> Scalar {
    Scalar::Num((-1000000) as i64)
}

/// Sum of two scalars; infinities of opposite sign and `Nan` give `Nan`.
pub open spec fn s_add(a: Scalar, b: Scalar) -> Scalar {
    match (a, b) {
        (Scalar::Nan, _) => Scalar::Nan,
        (_, Scalar::Nan) => Scalar::Nan,
        (Scalar::PosInf, Scalar::NegInf) => Scalar::Nan,
        (Scalar::NegInf, Scalar::PosInf) => Scalar::Nan,
        (Scalar::PosInf, _) => Scalar::PosInf,
        (_, Scalar::PosInf) => Scalar::PosInf,
        (Scalar::NegInf, _) => Scalar::NegInf,
        (_, Scalar::NegInf) => Scalar::NegInf,
        (Scalar::Num(x), Scalar::Num(y)) => s_clamp(x + y),
    }
}

/// Negation; finite saturation handles the asymmetric `i64` range.
pub open spec fn s_neg(a: Scalar) -> Scalar {
    match a {
        Scalar::Nan => Scalar::Nan,
        Scalar::PosInf => Scalar::NegInf,
        Scalar::NegInf => Scalar::PosInf,
        Scalar::Num(x) => s_clamp(-x),
    }
}

/// Difference of two scalars.
pub open spec fn s_sub(a: Scalar, b: Scalar) -> Scalar {
    match (a, b) {
        (Scalar::Nan, _) => Scalar::Nan,
        (_, Scalar::Nan) => Scalar::Nan,
        (Scalar::PosInf, Scalar::PosInf) => Scalar::Nan,
        (Scalar::NegInf, Scalar::NegInf) => Scalar::Nan,
        (Scalar::PosInf, _) => Scalar::PosInf,
        (Scalar::NegInf, _) => Scalar::NegInf,
        (_, Scalar::PosInf) => Scalar::NegInf,
        (_, Scalar::NegInf) => Scalar::PosInf,
        (Scalar::Num(x), Scalar::Num(y)) => s_clamp(x - y),
    }
}

/// Product of two scalars; an infinity times zero gives `Nan`.
pub open spec fn s_mul(a: Scalar, b: Scalar) -> Scalar {
    match (a, b) {
        (Scalar::Nan, _) => Scalar::Nan,
        (_, Scalar::Nan) => Scalar::Nan,
        (Scalar::PosInf, Scalar::PosInf) => Scalar::PosInf,
        (Scalar::PosInf, Scalar::NegInf) => Scalar::NegInf,
        (Scalar::NegInf, Scalar::PosInf) => Scalar::NegInf,
        (Scalar::NegInf, Scalar::NegInf) => Scalar::PosInf,
        (Scalar::PosInf, Scalar::Num(y)) => if y == 0 {
            Scalar::Nan
        } else if y > 0 {
            Scalar::PosInf
        } else {
            Scalar::NegInf
        },
        (Scalar::Num(x), Scalar::PosInf) => if x == 0 {
            Scalar::Nan
        } else if x > 0 {
            Scalar::PosInf
        } else {
            Scalar::NegInf
        },
        (Scalar::NegInf, Scalar::Num(y)) => if y == 0 {
            Scalar::Nan
        } else if y > 0 {
            Scalar::NegInf
        } else {
            Scalar::PosInf
        },
        (Scalar::Num(x), Scalar::NegInf) => if x == 0 {
            Scalar::Nan
        } else if x > 0 {
            Scalar::NegInf
        } else {
            Scalar::PosInf
        },
        (Scalar::Num(x), Scalar::Num(y)) => {
            let p = x * y;
            let mag = iabs(p) / (SCALE as int);
            if p < 0 {
                s_clamp(-mag)
            } else {
                s_clamp(mag)
            }
        },
    }
}

/// Quotient of two scalars; division by zero follows the IEEE pattern.
pub open spec fn s_div(a: Scalar, b: Scalar) -> Scalar {
    match (a, b) {
        (Scalar::Nan, _) => Scalar::Nan,
        (_, Scalar::Nan) => Scalar::Nan,
        (Scalar::PosInf, Scalar::PosInf) => Scalar::Nan,
        (Scalar::PosInf, Scalar::NegInf) => Scalar::Nan,
        (Scalar::NegInf, Scalar::PosInf) => Scalar::Nan,
        (Scalar::NegInf, Scalar::NegInf) => Scalar::Nan,
        (Scalar::Num(_), Scalar::PosInf) => Scalar::Num(0),
        (Scalar::Num(_), Scalar::NegInf) => Scalar::Num(0),
        (Scalar::PosInf, Scalar::Num(y)) => if y < 0 {
            Scalar::NegInf
        } else {
            Scalar::PosInf
        },
        (Scalar::NegInf, Scalar::Num(y)) => if y < 0 {
            Scalar::PosInf
        } else {
            Scalar::NegInf
        },
        (Scalar::Num(x), Scalar::Num(y)) => if y == 0 {
            if x == 0 {
                Scalar::Nan
            } else if x > 0 {
                Scalar::PosInf
            } else {
                Scalar::NegInf
            }
        } else {
            let p = x * (SCALE as int);
            let mag = iabs(p) / iabs(y as int);
            if (x < 0) != (y < 0) {
                s_clamp(-mag)
            } else {
                s_clamp(mag)
            }
        },
    }
}

/// Strict order; false whenever either side is `Nan`.
pub open spec fn s_lt(a: Scalar, b: Scalar) -> bool {
    match (a, b) {
        (Scalar::Nan, _) => false,
        (_, Scalar::Nan) => false,
        (Scalar::NegInf, Scalar::NegInf) => false,
        (Scalar::NegInf, _) => true,
        (_, Scalar::NegInf) => false,
        (Scalar::PosInf, _) => false,
        (_, Scalar::PosInf) => true,
        (Scalar::Num(x), Scalar::Num(y)) => x < y,
    }
}

/// Smaller of two scalars, ignoring a `Nan` operand.
pub open spec fn s_min(a: Scalar, b: Scalar) -> Scalar {
    if a == Scalar::Nan {
        b
    } else if b == Scalar::Nan {
        a
    } else if s_lt(b, a) {
        b
    } else {
        a
    }
}

/// Larger of two scalars, ignoring a `Nan` operand.
pub open spec fn s_max(a: Scalar, b: Scalar) -> Scalar {
    if a == Scalar::Nan {
        b
    } else if b == Scalar::Nan {
        a
    } else if s_lt(a, b) {
        b
    } else {
        a
    }
}

/// Absolute value of a scalar.
pub open spec fn s_abs(a: Scalar) -> Scalar {
    match a {
        Scalar::Nan => Scalar::Nan,
        Scalar::PosInf => Scalar::PosInf,
        Scalar::NegInf => Scalar::PosInf,
        Scalar::Num(x) => s_clamp(iabs(x as int)),
    }
}

/// Replace a value below `lo_t` by `lo_new` and one above `hi_t` by `hi_new`.
pub open spec fn s_clip(x: Scalar, lo_t: Scalar, hi_t: Scalar, lo_new: Scalar, hi_new: Scalar) -> Scalar {
    if s_lt(x, lo_t) {
        lo_new
    } else if s_lt(hi_t, x) {
        hi_new
    } else {
        x
    }
}

/// `r` is the square root of `x`: for a finite nonnegative value, the unique
/// finite `r` whose units bracket `x` in units times `SCALE`.
pub open spec fn is_sqrt(x: Scalar, r: Scalar) -> bool {
    match x {
        Scalar::Nan => r == Scalar::Nan,
        Scalar::NegInf => r == Scalar::Nan,
        Scalar::PosInf => r == Scalar::PosInf,
        Scalar::Num(v) => if v < 0 {
            r == Scalar::Nan
        } else {
            match r {
                Scalar::Num(q) => q >= 0 && q * q <= v * (SCALE as int) && v * (SCALE as int) < (q
                    + 1) * (q + 1),
                _ => false,
            }
        },
    }
}

/// The square root of a scalar, characterized by [`is_sqrt`].
pub open spec fn s_sqrt(x: Scalar) -> Scalar {
    choose|r: Scalar| is_sqrt(x, r)
}

/// The square-root characterization picks a single value.
pub proof fn lemma_is_sqrt_unique(x: Scalar, r1: Scalar, r2: Scalar)
    requires
        is_sqrt(x, r1),
        is_sqrt(x, r2),
    ensures
        r1 == r2,
{
    match x {
        Scalar::Num(v) => {
            if v >= 0 {
                let q1 = r1->Num_0 as int;
                let q2 = r2->Num_0 as int;
                let w = v * (SCALE as int);
                assert(q1 == q2) by {
                    if q1 < q2 {
                        assert((q1 + 1) * (q1 + 1) <= q2 * q2) by (nonlinear_arith)
                            requires
                                0 <= q1,
                                q1 + 1 <= q2,
                        ;
                    }
                    if q2 < q1 {
                        assert((q2 + 1) * (q2 + 1) <= q1 * q1) by (nonlinear_arith)
                            requires
                                0 <= q2,
                                q2 + 1 <= q1,
                        ;
                    }
                }
            }
        },
        _ => {},
    }
}

/// Saturate a sign-and-magnitude pair into a scalar.
fn clamp_mag(neg: bool, mag: u128) -> (r: Scalar)
    ensures
        r == s_clamp(if neg { -(mag as int) } else { mag as int }),
{
    if mag > i64::MAX as u128 {
        if neg {
            Scalar::NegInf
        } else {
            Scalar::PosInf
        }
    } else {
        if neg {
            Scalar::Num(-(mag as i64))
        } else {
            Scalar::Num(mag as i64)
        }
    }
}

/// Sum of two scalars; see [`s_add`].
pub fn sadd(a: Scalar, b: Scalar) -> (r: Scalar)
    ensures
        r == s_add(a, b),
{
    match (a, b) {
        (Scalar::Nan, _) => Scalar::Nan,
        (_, Scalar::Nan) => Scalar::Nan,
        (Scalar::PosInf, Scalar::NegInf) => Scalar::Nan,
        (Scalar::NegInf, Scalar::PosInf) => Scalar::Nan,
        (Scalar::PosInf, _) => Scalar::PosInf,
        (_, Scalar::PosInf) => Scalar::PosInf,
        (Scalar::NegInf, _) => Scalar::NegInf,
        (_, Scalar::NegInf) => Scalar::NegInf,
        (Scalar::Num(x), Scalar::Num(y)) => {
            let s: i128 = (x as i128) + (y as i128);
            let neg = s < 0;
            let mag: u128 = if s < 0 {
                (-s) as u128
            } else {
                s as u128
            };
            clamp_mag(neg, mag)
        },
    }
}

/// Negation of a scalar; see [`s_neg`].
pub fn sneg(a: Scalar) -> (r: Scalar)
    ensures
        r == s_neg(a),
{
    match a {
        Scalar::Nan => Scalar::Nan,
        Scalar::PosInf => Scalar::NegInf,
        Scalar::NegInf => Scalar::PosInf,
        Scalar::Num(x) => {
            let s: i128 = -(x as i128);
            let neg = s < 0;
            let mag: u128 = if s < 0 {
                (-s) as u128
            } else {
                s as u128
            };
            clamp_mag(neg, mag)
        },
    }
}

/// Difference of two scalars; see [`s_sub`].
pub fn ssub(a: Scalar, b: Scalar) -> (r: Scalar)
    ensures
        r == s_sub(a, b),
{
    match (a, b) {
        (Scalar::Nan, _) => Scalar::Nan,
        (_, Scalar::Nan) => Scalar::Nan,
        (Scalar::PosInf, Scalar::PosInf) => Scalar::Nan,
        (Scalar::NegInf, Scalar::NegInf) => Scalar::Nan,
        (Scalar::PosInf, _) => Scalar::PosInf,
        (Scalar::NegInf, _) => Scalar::NegInf,
        (_, Scalar::PosInf) => Scalar::NegInf,
        (_, Scalar::NegInf) => Scalar::PosInf,
        (Scalar::Num(x), Scalar::Num(y)) => {
            let s: i128 = (x as i128) - (y as i128);
            let neg = s < 0;
            let mag: u128 = if s < 0 {
                (-s) as u128
            } else {
                s as u128
            };
            clamp_mag(neg, mag)
        },
    }
}

/// Product of two scalars; see [`s_mul`].
pub fn smul(a: Scalar, b: Scalar) -> (r: Scalar)
    ensures
        r == s_mul(a, b),
{
    match (a, b) {
        (Scalar::Nan, _) => Scalar::Nan,
        (_, Scalar::Nan) => Scalar::Nan,
        (Scalar::PosInf, Scalar::PosInf) => Scalar::PosInf,
        (Scalar::PosInf, Scalar::NegInf) => Scalar::NegInf,
        (Scalar::NegInf, Scalar::PosInf) => Scalar::NegInf,
        (Scalar::NegInf, Scalar::NegInf) => Scalar::PosInf,
        (Scalar::PosInf, Scalar::Num(y)) => if y == 0 {
            Scalar::Nan
        } else if y > 0 {
            Scalar::PosInf
        } else {
            Scalar::NegInf
        },
        (Scalar::Num(x), Scalar::PosInf) => if x == 0 {
            Scalar::Nan
        } else if x > 0 {
            Scalar::PosInf
        } else {
            Scalar::NegInf
        },
        (Scalar::NegInf, Scalar::Num(y)) => if y == 0 {
            Scalar::Nan
        } else if y > 0 {
            Scalar::NegInf
        } else {
            Scalar::PosInf
        },
        (Scalar::Num(x), Scalar::NegInf) => if x == 0 {
            Scalar::Nan
        } else if x > 0 {
            Scalar::NegInf
        } else {
            Scalar::PosInf
        },
        (Scalar::Num(x), Scalar::Num(y)) => {
            proof {
                let big: int = 85070591730234615865843651857942052864;
                assert((x as int) * (y as int) <= big && (x as int) * (y as int) >= -big)
                    by (nonlinear_arith)
                    requires
                        big == 85070591730234615865843651857942052864,
                        -9223372036854775808 <= x as int <= 9223372036854775808,
                        -9223372036854775808 <= y as int <= 9223372036854775808,
                ;
            }
            let p: i128 = (x as i128) * (y as i128);
            let neg = p < 0;
            let pa: u128 = if p < 0 {
                (-p) as u128
            } else {
                p as u128
            };
            let mag: u128 = pa / (SCALE as u128);
            clamp_mag(neg, mag)
        },
    }
}

/// Quotient of two scalars; see [`s_div`].
pub fn sdiv(a: Scalar, b: Scalar) -> (r: Scalar)
    ensures
        r == s_div(a, b),
{
    match (a, b) {
        (Scalar::Nan, _) => Scalar::Nan,
        (_, Scalar::Nan) => Scalar::Nan,
        (Scalar::PosInf, Scalar::PosInf) => Scalar::Nan,
        (Scalar::PosInf, Scalar::NegInf) => Scalar::Nan,
        (Scalar::NegInf, Scalar::PosInf) => Scalar::Nan,
        (Scalar::NegInf, Scalar::NegInf) => Scalar::Nan,
        (Scalar::Num(_), Scalar::PosInf) => Scalar::Num(0),
        (Scalar::Num(_), Scalar::NegInf) => Scalar::Num(0),
        (Scalar::PosInf, Scalar::Num(y)) => if y < 0 {
            Scalar::NegInf
        } else {
            Scalar::PosInf
        },
        (Scalar::NegInf, Scalar::Num(y)) => if y < 0 {
            Scalar::PosInf
        } else {
            Scalar::NegInf
        },
        (Scalar::Num(x), Scalar::Num(y)) => if y == 0 {
            if x == 0 {
                Scalar::Nan
            } else if x > 0 {
                Scalar::PosInf
            } else {
                Scalar::NegInf
            }
        } else {
            let p: i128 = (x as i128) * (SCALE as i128);
            let pa: u128 = if p < 0 {
                (-p) as u128
            } else {
                p as u128
            };
            let ya: u128 = if y < 0 {
                (-(y as i128)) as u128
            } else {
                y as u128
            };
            let mag: u128 = pa / ya;
            clamp_mag((x < 0) != (y < 0), mag)
        },
    }
}

/// Strict order on scalars; see [`s_lt`].
pub fn slt(a: Scalar, b: Scalar) -> (r: bool)
    ensures
        r == s_lt(a, b),
{
    match (a, b) {
        (Scalar::Nan, _) => false,
        (_, Scalar::Nan) => false,
        (Scalar::NegInf, Scalar::NegInf) => false,
        (Scalar::NegInf, _) => true,
        (_, Scalar::NegInf) => false,
        (Scalar::PosInf, _) => false,
        (_, Scalar::PosInf) => true,
        (Scalar::Num(x), Scalar::Num(y)) => x < y,
    }
}

/// Smaller of two scalars; see [`s_min`].
pub fn smin(a: Scalar, b: Scalar) -> (r: Scalar)
    ensures
        r == s_min(a, b),
{
    if a == Scalar::Nan {
        b
    } else if b == Scalar::Nan {
        a
    } else if slt(b, a) {
        b
    } else {
        a
    }
}

/// Larger of two scalars; see [`s_max`].
pub fn smax(a: Scalar, b: Scalar) -> (r: Scalar)
    ensures
        r == s_max(a, b),
{
    if a == Scalar::Nan {
        b
    } else if b == Scalar::Nan {
        a
    } else if slt(a, b) {
        b
    } else {
        a
    }
}

/// Absolute value of a scalar; see [`s_abs`].
pub fn sabs(a: Scalar) -> (r: Scalar)
    ensures
        r == s_abs(a),
{
    match a {
        Scalar::Nan => Scalar::Nan,
        Scalar::PosInf => Scalar::PosInf,
        Scalar::NegInf => Scalar::PosInf,
        Scalar::Num(x) => {
            let s: i128 = x as i128;
            let mag: u128 = if s < 0 {
                (-s) as u128
            } else {
                s as u128
            };
            clamp_mag(false, mag)
        },
    }
}

/// Regularize a value into `[lo_t, hi_t]` with replacement bounds; see [`s_clip`].
pub fn sclip(x: Scalar, lo_t: Scalar, hi_t: Scalar, lo_new: Scalar, hi_new: Scalar) -> (r: Scalar)
    ensures
        r == s_clip(x, lo_t, hi_t, lo_new, hi_new),
{
    if slt(x, lo_t) {
        lo_new
    } else if slt(hi_t, x) {
        hi_new
    } else {
        x
    }
}

/// Largest `r` with `r * r <= w`, for `w` below `2^84`.
fn isqrt_u128(w: u128) -> (r: u128)
    requires
        w < 0x100000_00000000_00000000u128,
    ensures
        r * r <= w,
        w < (r + 1) * (r + 1),
        r <= 0x400_00000000u128,
{
    let top: u128 = 0x400_00000000u128;
    proof {
        assert(top * top == 0x100000_00000000_00000000u128) by (nonlinear_arith)
            requires
                top == 0x400_00000000u128,
        ;
    }
    if w == 0 {
        return 0;
    }
    let mut lo: u128 = 0;
    let mut hi: u128 = top;
    while hi - lo > 1
        invariant
            lo < hi,
            hi <= top,
            lo * lo <= w,
            w < hi * hi,
            top == 0x400_00000000u128,
        decreases hi - lo,
    {
        let mid: u128 = lo + (hi - lo) / 2;
        proof {
            assert(mid * mid <= top * top) by (nonlinear_arith)
                requires
                    0 <= mid <= top,
            ;
            assert(top * top == 0x100000_00000000_00000000u128) by (nonlinear_arith)
                requires
                    top == 0x400_00000000u128,
            ;
        }
        if mid * mid <= w {
            lo = mid;
        } else {
            hi = mid;
        }
    }
    lo
}

/// Square root of a scalar; see [`s_sqrt`].
pub fn ssqrt(x: Scalar) -> (r: Scalar)
    ensures
        r == s_sqrt(x),
        is_sqrt(x, r),
{
    let r = match x {
        Scalar::Nan => Scalar::Nan,
        Scalar::NegInf => Scalar::Nan,
        Scalar::PosInf => Scalar::PosInf,
        Scalar::Num(v) => if v < 0 {
            Scalar::Nan
        } else {
            proof {
                assert((v as int) * (SCALE as int) < 0x100000_00000000_00000000)
                    by (nonlinear_arith)
                    requires
                        0 <= v as int <= 0x8000_0000_0000_0000,
                        SCALE == 1_000_000i64,
                ;
            }
            let w: u128 = (v as u128) * (SCALE as u128);
            let q = isqrt_u128(w);
            Scalar::Num(q as i64)
        },
    };
    proof {
        assert(is_sqrt(x, r));
        assert(is_sqrt(x, s_sqrt(x))) by {
            assert(exists|c: Scalar| is_sqrt(x, c));
        }
        lemma_is_sqrt_unique(x, r, s_sqrt(x));
    }
    r
}

/// Reciprocal of a scalar, as one over the value.
pub fn srecip(x: Scalar) -> (r: Scalar)
    ensures
        r == s_div(s_one(), x),
{
    sdiv(Scalar::Num(SCALE), x)
}

/// The scalar of a whole number, saturating outside the finite range.
pub fn from_int(v: i64) -> (r: Scalar)
    ensures
        r == s_clamp(v * (SCALE as int)),
{
    proof {
        let big: int = 85070591730234615865843651857942052864;
        assert((v as int) * (SCALE as int) <= big && (v as int) * (SCALE as int) >= -big)
            by (nonlinear_arith)
            requires
                big == 85070591730234615865843651857942052864,
                -9223372036854775808 <= v as int <= 9223372036854775808,
                SCALE == 1_000_000i64,
        ;
    }
    let p: i128 = (v as i128) * (SCALE as i128);
    let neg = p < 0;
    let mag: u128 = if p < 0 {
        (-p) as u128
    } else {
        p as u128
    };
    clamp_mag(neg, mag)
}

/// The scalar of a count, saturating outside the finite range.
pub fn from_usize(n: usize) -> (r: Scalar)
    ensures
        r == s_clamp(n * (SCALE as int)),
{
    proof {
        let big: int = 85070591730234615865843651857942052864;
        assert((n as int) * (SCALE as int) <= big) by (nonlinear_arith)
            requires
                big == 85070591730234615865843651857942052864,
                0 <= n as int <= 18446744073709551615,
                SCALE == 1_000_000i64,
        ;
    }
    let p: u128 = (n as u128) * (SCALE as u128);
    clamp_mag(false, p)
}

/// The scalar holding exactly `u` fixed-point units, that is `u / SCALE`.
pub fn from_units(u: i64) -> (r: Scalar)
    ensures
        r == Scalar::Num(u),
{
    Scalar::Num(u)
}

/// The strict order is transitive.
pub proof fn lemma_slt_trans(a: Scalar, b: Scalar, c: Scalar)
    requires
        s_lt(a, b),
        s_lt(b, c),
    ensures
        s_lt(a, c),
{
}

/// Tightening a running bound by a minimum keeps it below the original
/// bound and keeps it a number.
pub proof fn lemma_smin_keeps_bound(bound: Scalar, a: Scalar, b: Scalar)
    requires
        !s_lt(bound, a),
        a != Scalar::Nan,
    ensures
        !s_lt(bound, s_min(a, b)),
        s_min(a, b) != Scalar::Nan,
{
    if b != Scalar::Nan && s_lt(b, a) {
        if s_lt(bound, b) {
            lemma_slt_trans(bound, b, a);
        }
    }
}

} // verus!
