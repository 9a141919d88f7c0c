//! Dense vector kernel: elementwise transforms and reductions over
//! contiguous buffers of [`Scalar`].
//!
//! Every operation on a pair of buffers demands equal lengths. Reductions
//! are specified as left folds over the buffer, so their contracts pin the
//! exact value, including the treatment of `Nan` and of the infinities.

use vstd::prelude::*;

use crate::scalar::{
    is_sqrt, s_abs, s_add, s_clamp, s_clip, s_div, s_lt, s_max, s_min, s_mul, s_neg, s_neg_one,
    s_one, s_sqrt, s_sub, s_zero, sabs, sadd, sclip, sdiv, slt, smax, smin, smul, sneg, srecip,
    ssqrt, ssub, Scalar, SCALE,
};

verus! {

/// Left fold of pairwise products: the inner product of `x` and `y`.
pub open spec fn sp_dot(x: Seq<Scalar>, y: Seq<Scalar>) -> Scalar
    decreases x.len(),
{
    if x.len() == 0 {
        s_zero()
    } else {
        s_add(sp_dot(x.drop_last(), y.drop_last()), s_mul(x.last(), y.last()))
    }
}

/// The inner product of a buffer with itself.
pub open spec fn sp_sumsq(x: Seq<Scalar>) -> Scalar {
    sp_dot(x, x)
}

/// Left fold of squared pairwise products, for the scaled norm.
pub open spec fn sp_sumsq_scaled(x: Seq<Scalar>, v: Seq<Scalar>) -> Scalar
    decreases x.len(),
{
    if x.len() == 0 {
        s_zero()
    } else {
        let p = s_mul(x.last(), v.last());
        s_add(sp_sumsq_scaled(x.drop_last(), v.drop_last()), s_mul(p, p))
    }
}

/// Largest absolute value reached by a strict comparison, so `Nan`
/// entries are skipped rather than propagated.
pub open spec fn sp_norm_inf(x: Seq<Scalar>) -> Scalar
    decreases x.len(),
{
    if x.len() == 0 {
        s_zero()
    } else {
        let rest = sp_norm_inf(x.drop_last());
        let a = s_abs(x.last());
        if s_lt(rest, a) {
            a
        } else {
            rest
        }
    }
}

/// Left fold of absolute values: the one norm.
pub open spec fn sp_norm_one(x: Seq<Scalar>) -> Scalar
    decreases x.len(),
{
    if x.len() == 0 {
        s_zero()
    } else {
        s_add(sp_norm_one(x.drop_last()), s_abs(x.last()))
    }
}

/// Minimum fold, seeded from positive infinity.
pub open spec fn sp_minimum(x: Seq<Scalar>) -> Scalar
    decreases x.len(),
{
    if x.len() == 0 {
        Scalar::PosInf
    } else {
        s_min(sp_minimum(x.drop_last()), x.last())
    }
}

/// Maximum fold, seeded from positive infinity like the minimum fold,
/// so it never reports a value below positive infinity.
pub open spec fn sp_maximum(x: Seq<Scalar>) -> Scalar
    decreases x.len(),
{
    if x.len() == 0 {
        Scalar::PosInf
    } else {
        s_max(sp_maximum(x.drop_last()), x.last())
    }
}

/// Left fold of sums.
pub open spec fn sp_sum(x: Seq<Scalar>) -> Scalar
    decreases x.len(),
{
    if x.len() == 0 {
        s_zero()
    } else {
        s_add(sp_sum(x.drop_last()), x.last())
    }
}

/// Arithmetic mean; zero for an empty buffer.
pub open spec fn sp_mean(x: Seq<Scalar>) -> Scalar {
    if x.len() == 0 {
        s_zero()
    } else {
        s_div(sp_sum(x), s_clamp(x.len() * (SCALE as int)))
    }
}

/// One element of `a*x + b*y`, with the exact-case branches taken for
/// `b` in `{0, 1, -1}`: with `b == 0` the old `y` is never read, so a
/// stale `Nan` there cannot leak into the result.
pub open spec fn sp_axpby_elem(a: Scalar, x: Scalar, b: Scalar, y: Scalar) -> Scalar {
    if b == s_zero() {
        s_mul(a, x)
    } else if b == s_one() {
        s_add(s_mul(a, x), y)
    } else if b == s_neg_one() {
        s_sub(s_mul(a, x), y)
    } else {
        s_add(s_mul(a, x), s_mul(b, y))
    }
}

/// Minimum fold over the index range `[lo, hi)`, seeded from positive
/// infinity.
pub open spec fn sp_min_range(s: Seq<Scalar>, lo: int, hi: int) -> Scalar
    decreases hi - lo,
{
    if hi <= lo {
        Scalar::PosInf
    } else {
        s_min(sp_min_range(s, lo, hi - 1), s[hi - 1])
    }
}

/// A one-element extension of a prefix splits into the prefix and the
/// element.
pub proof fn lemma_take_step<A>(s: Seq<A>, i: int)
    requires
        0 <= i < s.len(),
    ensures
        s.take(i + 1).drop_last() == s.take(i),
        s.take(i + 1).last() == s[i],
{
    assert(s.take(i + 1).drop_last() =~= s.take(i));
}

/// Overwrite `dst` with the contents of `src` of the same length.
pub fn copy_from(dst: &mut Vec<Scalar>, src: &Vec<Scalar>)
    requires
        old(dst)@.len() == src@.len(),
    ensures
        final(dst)@ == src@,
{
    let ghost d0 = dst@;
    let n = dst.len();
    let mut i: usize = 0;
    while i < n
        invariant
            i <= n,
            n == d0.len(),
            dst@.len() == d0.len(),
            src@.len() == d0.len(),
            forall|k: int| 0 <= k < i ==> dst@[k] == src@[k],
        decreases n - i,
    {
        let t = src[i];
        dst[i] = t;
        i += 1;
    }
    proof {
        assert(dst@ =~= src@);
    }
}

/// Set every element to `c`.
pub fn fill(v: &mut Vec<Scalar>, c: Scalar)
    ensures
        final(v)@.len() == old(v)@.len(),
        forall|k: int| 0 <= k < final(v)@.len() ==> final(v)@[k] == c,
{
    let n = v.len();
    let ghost v0 = v@;
    let mut i: usize = 0;
    while i < n
        invariant
            i <= n,
            n == v0.len(),
            v@.len() == v0.len(),
            forall|k: int| 0 <= k < i ==> v@[k] == c,
        decreases n - i,
    {
        v[i] = c;
        i += 1;
    }
}

/// Add the constant `c` to every element.
pub fn translate(v: &mut Vec<Scalar>, c: Scalar)
    ensures
        final(v)@.len() == old(v)@.len(),
        forall|k: int| 0 <= k < final(v)@.len() ==> final(v)@[k] == s_add(old(v)@[k], c),
{
    let n = v.len();
    let ghost v0 = v@;
    let mut i: usize = 0;
    while i < n
        invariant
            i <= n,
            n == v0.len(),
            v@.len() == v0.len(),
            forall|k: int| 0 <= k < i ==> v@[k] == s_add(v0[k], c),
            forall|k: int| i <= k < n ==> v@[k] == v0[k],
        decreases n - i,
    {
        let t = sadd(v[i], c);
        v[i] = t;
        i += 1;
    }
}

/// Multiply every element by the constant `c`.
pub fn scale(v: &mut Vec<Scalar>, c: Scalar)
    ensures
        final(v)@.len() == old(v)@.len(),
        forall|k: int| 0 <= k < final(v)@.len() ==> final(v)@[k] == s_mul(old(v)@[k], c),
{
    let n = v.len();
    let ghost v0 = v@;
    let mut i: usize = 0;
    while i < n
        invariant
            i <= n,
            n == v0.len(),
            v@.len() == v0.len(),
            forall|k: int| 0 <= k < i ==> v@[k] == s_mul(v0[k], c),
            forall|k: int| i <= k < n ==> v@[k] == v0[k],
        decreases n - i,
    {
        let t = smul(v[i], c);
        v[i] = t;
        i += 1;
    }
}

/// Replace every element by its reciprocal.
pub fn reciprocal(v: &mut Vec<Scalar>)
    ensures
        final(v)@.len() == old(v)@.len(),
        forall|k: int| 0 <= k < final(v)@.len() ==> final(v)@[k] == s_div(s_one(), old(v)@[k]),
{
    let n = v.len();
    let ghost v0 = v@;
    let mut i: usize = 0;
    while i < n
        invariant
            i <= n,
            n == v0.len(),
            v@.len() == v0.len(),
            forall|k: int| 0 <= k < i ==> v@[k] == s_div(s_one(), v0[k]),
            forall|k: int| i <= k < n ==> v@[k] == v0[k],
        decreases n - i,
    {
        let t = srecip(v[i]);
        v[i] = t;
        i += 1;
    }
}

/// Replace every element by its square root.
pub fn sqrt(v: &mut Vec<Scalar>)
    ensures
        final(v)@.len() == old(v)@.len(),
        forall|k: int| 0 <= k < final(v)@.len() ==> final(v)@[k] == s_sqrt(old(v)@[k]),
{
    let n = v.len();
    let ghost v0 = v@;
    let mut i: usize = 0;
    while i < n
        invariant
            i <= n,
            n == v0.len(),
            v@.len() == v0.len(),
            forall|k: int| 0 <= k < i ==> v@[k] == s_sqrt(v0[k]),
            forall|k: int| i <= k < n ==> v@[k] == v0[k],
        decreases n - i,
    {
        let t = ssqrt(v[i]);
        v[i] = t;
        i += 1;
    }
}

/// Replace every element by the reciprocal of its square root.
pub fn rsqrt(v: &mut Vec<Scalar>)
    ensures
        final(v)@.len() == old(v)@.len(),
        forall|k: int|
            0 <= k < final(v)@.len() ==> final(v)@[k] == s_div(s_one(), s_sqrt(old(v)@[k])),
{
    let n = v.len();
    let ghost v0 = v@;
    let mut i: usize = 0;
    while i < n
        invariant
            i <= n,
            n == v0.len(),
            v@.len() == v0.len(),
            forall|k: int| 0 <= k < i ==> v@[k] == s_div(s_one(), s_sqrt(v0[k])),
            forall|k: int| i <= k < n ==> v@[k] == v0[k],
        decreases n - i,
    {
        let s = ssqrt(v[i]);
        let t = srecip(s);
        v[i] = t;
        i += 1;
    }
}

/// Negate every element.
pub fn negate(v: &mut Vec<Scalar>)
    ensures
        final(v)@.len() == old(v)@.len(),
        forall|k: int| 0 <= k < final(v)@.len() ==> final(v)@[k] == s_neg(old(v)@[k]),
{
    let n = v.len();
    let ghost v0 = v@;
    let mut i: usize = 0;
    while i < n
        invariant
            i <= n,
            n == v0.len(),
            v@.len() == v0.len(),
            forall|k: int| 0 <= k < i ==> v@[k] == s_neg(v0[k]),
            forall|k: int| i <= k < n ==> v@[k] == v0[k],
        decreases n - i,
    {
        let t = sneg(v[i]);
        v[i] = t;
        i += 1;
    }
}

/// Elementwise product with a second buffer of equal length.
pub fn hadamard(v: &mut Vec<Scalar>, y: &Vec<Scalar>)
    requires
        old(v)@.len() == y@.len(),
    ensures
        final(v)@.len() == old(v)@.len(),
        forall|k: int| 0 <= k < final(v)@.len() ==> final(v)@[k] == s_mul(old(v)@[k], y@[k]),
{
    let n = v.len();
    let ghost v0 = v@;
    let mut i: usize = 0;
    while i < n
        invariant
            i <= n,
            n == v0.len(),
            v@.len() == v0.len(),
            y@.len() == v0.len(),
            forall|k: int| 0 <= k < i ==> v@[k] == s_mul(v0[k], y@[k]),
            forall|k: int| i <= k < n ==> v@[k] == v0[k],
        decreases n - i,
    {
        let t = smul(v[i], y[i]);
        v[i] = t;
        i += 1;
    }
}

/// Clip every element into `[lo_t, hi_t]`, replacing a value below the
/// range by `lo_new` and one above it by `hi_new`.
pub fn clip(v: &mut Vec<Scalar>, lo_t: Scalar, hi_t: Scalar, lo_new: Scalar, hi_new: Scalar)
    ensures
        final(v)@.len() == old(v)@.len(),
        forall|k: int|
            0 <= k < final(v)@.len() ==> final(v)@[k] == s_clip(
                old(v)@[k],
                lo_t,
                hi_t,
                lo_new,
                hi_new,
            ),
{
    let n = v.len();
    let ghost v0 = v@;
    let mut i: usize = 0;
    while i < n
        invariant
            i <= n,
            n == v0.len(),
            v@.len() == v0.len(),
            forall|k: int| 0 <= k < i ==> v@[k] == s_clip(v0[k], lo_t, hi_t, lo_new, hi_new),
            forall|k: int| i <= k < n ==> v@[k] == v0[k],
        decreases n - i,
    {
        let t = sclip(v[i], lo_t, hi_t, lo_new, hi_new);
        v[i] = t;
        i += 1;
    }
}

/// Inner product of two buffers of equal length.
pub fn dot(x: &Vec<Scalar>, y: &Vec<Scalar>) -> (r: Scalar)
    requires
        x@.len() == y@.len(),
    ensures
        r == sp_dot(x@, y@),
{
    let n = x.len();
    let mut acc = Scalar::Num(0);
    let mut i: usize = 0;
    while i < n
        invariant
            i <= n,
            n == x@.len(),
            x@.len() == y@.len(),
            acc == sp_dot(x@.take(i as int), y@.take(i as int)),
        decreases n - i,
    {
        proof {
            lemma_take_step(x@, i as int);
            lemma_take_step(y@, i as int);
        }
        acc = sadd(acc, smul(x[i], y[i]));
        i += 1;
    }
    proof {
        assert(x@.take(n as int) =~= x@);
        assert(y@.take(n as int) =~= y@);
    }
    acc
}

/// Sum of squares, the inner product of a buffer with itself.
pub fn sumsq(x: &Vec<Scalar>) -> (r: Scalar)
    ensures
        r == sp_sumsq(x@),
{
    dot(x, x)
}

/// Euclidean norm, the square root of the sum of squares.
pub fn norm(x: &Vec<Scalar>) -> (r: Scalar)
    ensures
        r == s_sqrt(sp_sumsq(x@)),
        is_sqrt(sp_sumsq(x@), r),
{
    let s = sumsq(x);
    ssqrt(s)
}

/// Norm of the elementwise product of `x` and `v`.
pub fn norm_scaled(x: &Vec<Scalar>, v: &Vec<Scalar>) -> (r: Scalar)
    requires
        x@.len() == v@.len(),
    ensures
        r == s_sqrt(sp_sumsq_scaled(x@, v@)),
        is_sqrt(sp_sumsq_scaled(x@, v@), r),
{
    let n = x.len();
    let mut acc = Scalar::Num(0);
    let mut i: usize = 0;
    while i < n
        invariant
            i <= n,
            n == x@.len(),
            x@.len() == v@.len(),
            acc == sp_sumsq_scaled(x@.take(i as int), v@.take(i as int)),
        decreases n - i,
    {
        proof {
            lemma_take_step(x@, i as int);
            lemma_take_step(v@, i as int);
        }
        let p = smul(x[i], v[i]);
        acc = sadd(acc, smul(p, p));
        i += 1;
    }
    proof {
        assert(x@.take(n as int) =~= x@);
        assert(v@.take(n as int) =~= v@);
    }
    ssqrt(acc)
}

/// Infinity norm: the largest absolute value, skipping `Nan` entries.
pub fn norm_inf(x: &Vec<Scalar>) -> (r: Scalar)
    ensures
        r == sp_norm_inf(x@),
{
    let n = x.len();
    let mut out = Scalar::Num(0);
    let mut i: usize = 0;
    while i < n
        invariant
            i <= n,
            n == x@.len(),
            out == sp_norm_inf(x@.take(i as int)),
        decreases n - i,
    {
        proof {
            lemma_take_step(x@, i as int);
        }
        let a = sabs(x[i]);
        if slt(out, a) {
            out = a;
        }
        i += 1;
    }
    proof {
        assert(x@.take(n as int) =~= x@);
    }
    out
}

/// One norm: the sum of absolute values.
pub fn norm_one(x: &Vec<Scalar>) -> (r: Scalar)
    ensures
        r == sp_norm_one(x@),
{
    let n = x.len();
    let mut acc = Scalar::Num(0);
    let mut i: usize = 0;
    while i < n
        invariant
            i <= n,
            n == x@.len(),
            acc == sp_norm_one(x@.take(i as int)),
        decreases n - i,
    {
        proof {
            lemma_take_step(x@, i as int);
        }
        acc = sadd(acc, sabs(x[i]));
        i += 1;
    }
    proof {
        assert(x@.take(n as int) =~= x@);
    }
    acc
}

/// Fold of the elementwise minimum, seeded from positive infinity.
pub fn minimum(x: &Vec<Scalar>) -> (r: Scalar)
    ensures
        r == sp_minimum(x@),
{
    let n = x.len();
    let mut acc = Scalar::PosInf;
    let mut i: usize = 0;
    while i < n
        invariant
            i <= n,
            n == x@.len(),
            acc == sp_minimum(x@.take(i as int)),
        decreases n - i,
    {
        proof {
            lemma_take_step(x@, i as int);
        }
        acc = smin(acc, x[i]);
        i += 1;
    }
    proof {
        assert(x@.take(n as int) =~= x@);
    }
    acc
}

/// Fold of the elementwise maximum, with the same positive-infinity seed
/// as [`minimum`].
pub fn maximum(x: &Vec<Scalar>) -> (r: Scalar)
    ensures
        r == sp_maximum(x@),
{
    let n = x.len();
    let mut acc = Scalar::PosInf;
    let mut i: usize = 0;
    while i < n
        invariant
            i <= n,
            n == x@.len(),
            acc == sp_maximum(x@.take(i as int)),
        decreases n - i,
    {
        proof {
            lemma_take_step(x@, i as int);
        }
        acc = smax(acc, x[i]);
        i += 1;
    }
    proof {
        assert(x@.take(n as int) =~= x@);
    }
    acc
}

/// Arithmetic mean; zero for an empty buffer.
pub fn mean(x: &Vec<Scalar>) -> (r: Scalar)
    ensures
        r == sp_mean(x@),
{
    let n = x.len();
    if n == 0 {
        return Scalar::Num(0);
    }
    let mut acc = Scalar::Num(0);
    let mut i: usize = 0;
    while i < n
        invariant
            i <= n,
            n == x@.len(),
            acc == sp_sum(x@.take(i as int)),
        decreases n - i,
    {
        proof {
            lemma_take_step(x@, i as int);
        }
        acc = sadd(acc, x[i]);
        i += 1;
    }
    proof {
        assert(x@.take(n as int) =~= x@);
    }
    let den = crate::scalar::from_usize(n);
    sdiv(acc, den)
}

/// In-place `y := a*x + b*y`, with the exact-case branches for `b` in
/// `{0, 1, -1}` of [`sp_axpby_elem`].
pub fn axpby(y: &mut Vec<Scalar>, a: Scalar, x: &Vec<Scalar>, b: Scalar)
    requires
        old(y)@.len() == x@.len(),
    ensures
        final(y)@.len() == old(y)@.len(),
        forall|k: int|
            0 <= k < final(y)@.len() ==> final(y)@[k] == sp_axpby_elem(a, x@[k], b, old(y)@[k]),
{
    let n = y.len();
    let ghost y0 = y@;
    let mut i: usize = 0;
    while i < n
        invariant
            i <= n,
            n == y0.len(),
            y@.len() == y0.len(),
            x@.len() == y0.len(),
            forall|k: int| 0 <= k < i ==> y@[k] == sp_axpby_elem(a, x@[k], b, y0[k]),
            forall|k: int| i <= k < n ==> y@[k] == y0[k],
        decreases n - i,
    {
        let t = if b == Scalar::Num(0) {
            smul(a, x[i])
        } else if b == Scalar::Num(SCALE) {
            sadd(smul(a, x[i]), y[i])
        } else if b == Scalar::Num(-1_000_000) {
            ssub(smul(a, x[i]), y[i])
        } else {
            sadd(smul(a, x[i]), smul(b, y[i]))
        };
        y[i] = t;
        i += 1;
    }
}

/// Write the weighted sum `w := a*x + b*y` into a third buffer. The name
/// promises the same weighted-sum semantics as [`axpby`], and that is what
/// this kernel computes, deliberately and uniformly for every `b`.
pub fn waxpby(w: &mut Vec<Scalar>, a: Scalar, x: &Vec<Scalar>, b: Scalar, y: &Vec<Scalar>)
    requires
        old(w)@.len() == x@.len(),
        old(w)@.len() == y@.len(),
    ensures
        final(w)@.len() == old(w)@.len(),
        forall|k: int|
            0 <= k < final(w)@.len() ==> final(w)@[k] == s_add(s_mul(a, x@[k]), s_mul(b, y@[k])),
{
    let n = w.len();
    let ghost w0 = w@;
    let mut i: usize = 0;
    while i < n
        invariant
            i <= n,
            n == w0.len(),
            w@.len() == w0.len(),
            x@.len() == w0.len(),
            y@.len() == w0.len(),
            forall|k: int| 0 <= k < i ==> w@[k] == s_add(s_mul(a, x@[k]), s_mul(b, y@[k])),
        decreases n - i,
    {
        let t = sadd(smul(a, x[i]), smul(b, y[i]));
        w[i] = t;
        i += 1;
    }
}

/// Set the elements of the index range `[start, stop)` to `c`, leaving the
/// rest of the buffer unchanged.
pub fn fill_range(v: &mut Vec<Scalar>, start: usize, stop: usize, c: Scalar)
    requires
        start <= stop,
        stop <= old(v)@.len(),
    ensures
        final(v)@.len() == old(v)@.len(),
        forall|k: int| start <= k < stop ==> final(v)@[k] == c,
        forall|k: int|
            0 <= k < final(v)@.len() && !(start <= k < stop) ==> final(v)@[k] == old(v)@[k],
{
    let ghost v0 = v@;
    let mut i: usize = start;
    while i < stop
        invariant
            start <= i <= stop,
            stop <= v0.len(),
            v@.len() == v0.len(),
            forall|k: int| start <= k < i ==> v@[k] == c,
            forall|k: int| 0 <= k < v0.len() && !(start <= k < i) ==> v@[k] == v0[k],
        decreases stop - i,
    {
        v[i] = c;
        i += 1;
    }
}

/// Copy the index range `[start, stop)` of `src` into the same positions
/// of `dst`, leaving the rest of `dst` unchanged.
pub fn copy_range(dst: &mut Vec<Scalar>, src: &Vec<Scalar>, start: usize, stop: usize)
    requires
        start <= stop,
        stop <= old(dst)@.len(),
        stop <= src@.len(),
    ensures
        final(dst)@.len() == old(dst)@.len(),
        forall|k: int| start <= k < stop ==> final(dst)@[k] == src@[k],
        forall|k: int|
            0 <= k < final(dst)@.len() && !(start <= k < stop) ==> final(dst)@[k] == old(dst)@[k],
{
    let ghost d0 = dst@;
    let mut i: usize = start;
    while i < stop
        invariant
            start <= i <= stop,
            stop <= d0.len(),
            stop <= src@.len(),
            dst@.len() == d0.len(),
            forall|k: int| start <= k < i ==> dst@[k] == src@[k],
            forall|k: int| 0 <= k < d0.len() && !(start <= k < i) ==> dst@[k] == d0[k],
        decreases stop - i,
    {
        let t = src[i];
        dst[i] = t;
        i += 1;
    }
}

/// Add `c` to the elements of the index range `[start, stop)`, leaving the
/// rest of the buffer unchanged.
pub fn translate_range(v: &mut Vec<Scalar>, start: usize, stop: usize, c: Scalar)
    requires
        start <= stop,
        stop <= old(v)@.len(),
    ensures
        final(v)@.len() == old(v)@.len(),
        forall|k: int| start <= k < stop ==> final(v)@[k] == s_add(old(v)@[k], c),
        forall|k: int|
            0 <= k < final(v)@.len() && !(start <= k < stop) ==> final(v)@[k] == old(v)@[k],
{
    let ghost v0 = v@;
    let mut i: usize = start;
    while i < stop
        invariant
            start <= i <= stop,
            stop <= v0.len(),
            v@.len() == v0.len(),
            forall|k: int| start <= k < i ==> v@[k] == s_add(v0[k], c),
            forall|k: int| 0 <= k < v0.len() && !(start <= k < i) ==> v@[k] == v0[k],
        decreases stop - i,
    {
        let t = sadd(v[i], c);
        v[i] = t;
        i += 1;
    }
}

/// Minimum of the index range `[start, stop)`, seeded from positive
/// infinity.
pub fn min_range(v: &Vec<Scalar>, start: usize, stop: usize) -> (r: Scalar)
    requires
        start <= stop,
        stop <= v@.len(),
    ensures
        r == sp_min_range(v@, start as int, stop as int),
{
    let mut acc = Scalar::PosInf;
    let mut i: usize = start;
    while i < stop
        invariant
            start <= i <= stop,
            stop <= v@.len(),
            acc == sp_min_range(v@, start as int, i as int),
        decreases stop - i,
    {
        acc = smin(acc, v[i]);
        i += 1;
    }
    acc
}

/// Law: the inner product of a buffer with itself is exactly its sum of
/// squares.
pub proof fn lemma_dot_self_is_sumsq(v: Seq<Scalar>)
    ensures
        sp_dot(v, v) == sp_sumsq(v),
{
}

/// Law: for a finite nonnegative sum of squares, the Euclidean norm
/// squares back to the sum of squares to within the one-unit fixed-point
/// bracket; this is the exact form of "`norm(v)^2 == sumsq(v)` within
/// tolerance".
pub proof fn lemma_norm_squared_brackets_sumsq(v: Seq<Scalar>, r: Scalar, w: i64)
    requires
        is_sqrt(sp_sumsq(v), r),
        sp_sumsq(v) == Scalar::Num(w),
        w >= 0,
    ensures
        r is Num,
        (r->Num_0) * (r->Num_0) <= (w as int) * (SCALE as int),
        (w as int) * (SCALE as int) < ((r->Num_0) + 1) * ((r->Num_0) + 1),
{
}

} // verus!
