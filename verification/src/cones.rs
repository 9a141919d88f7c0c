//! Cone descriptors, the capability contract, and the concrete cone
//! objects the registry can build.
//!
//! The descriptor enumeration is the user-facing marker for constraint
//! kinds. Its equality compares kind tags only, never dimensions: the
//! composite uses it solely to count occurrences of each kind.
//!
//! Each concrete cone's own projection and barrier mathematics lives
//! outside this core; the members here realize the structural protocol —
//! dimension, degree, symmetry, block shape, canonical initialization,
//! equilibration rectification and the nonnegative-orthant ratio test —
//! with the simplest interior-point-consistent behaviors, and the
//! operations whose deeper mathematics is external (the second-order and
//! exponential scaling updates, and the barrier values) act as the
//! identity scaling and report a zero barrier.

use vstd::prelude::*;

use crate::scalar::{
    s_add, s_div, s_lt, s_min, s_mul, s_neg, s_one, s_sqrt, s_sub, s_zero, sdiv, slt, smin, smul,
    sneg, ssqrt, ssub, Scalar, SCALE,
};
use crate::scalar::lemma_smin_keeps_bound;
use crate::vector;
use crate::vector::{sp_mean, sp_min_range};
use vstd::std_specs::cmp::PartialEqSpec;

verus! {

broadcast use vstd::std_specs::vec::axiom_spec_len;

/// Number of descriptor kinds in the closed registry.
pub const NKINDS: usize = 5;

/// Descriptor of one conic constraint: its kind and ambient dimension.
#[derive(Clone, Copy, Debug)]
pub enum SupportedCone {
    /// The zero cone, used for equality constraints; the parameter is its
    /// dimension.
    ZeroConeT(usize),
    /// The nonnegative orthant; the parameter is its dimension.
    NonnegativeConeT(usize),
    /// The second-order cone; the parameter is its dimension.
    SecondOrderConeT(usize),
    /// The exponential cone in three dimensions; no parameter.
    ExponentialConeT(),
    /// A reserved kind with no construction; dimension and exponent.
    PlaceHolderT(usize, Scalar),
}

/// Two descriptors carry the same kind tag, dimensions ignored.
pub open spec fn sp_same_kind(a: SupportedCone, b: SupportedCone) -> bool {
    match (a, b) {
        (SupportedCone::ZeroConeT(_), SupportedCone::ZeroConeT(_)) => true,
        (SupportedCone::NonnegativeConeT(_), SupportedCone::NonnegativeConeT(_)) => true,
        (SupportedCone::SecondOrderConeT(_), SupportedCone::SecondOrderConeT(_)) => true,
        (SupportedCone::ExponentialConeT(), SupportedCone::ExponentialConeT()) => true,
        (SupportedCone::PlaceHolderT(_, _), SupportedCone::PlaceHolderT(_, _)) => true,
        _ => false,
    }
}

/// Position of a descriptor's kind in the closed registry.
pub open spec fn kind_index(c: SupportedCone) -> int {
    match c {
        SupportedCone::ZeroConeT(_) => 0,
        SupportedCone::NonnegativeConeT(_) => 1,
        SupportedCone::SecondOrderConeT(_) => 2,
        SupportedCone::ExponentialConeT() => 3,
        SupportedCone::PlaceHolderT(_, _) => 4,
    }
}

/// Number of slack variables generated by a descriptor: its ambient
/// dimension, three for the exponential cone.
pub open spec fn sp_nvars(c: SupportedCone) -> int {
    match c {
        SupportedCone::ZeroConeT(dim) => dim as int,
        SupportedCone::NonnegativeConeT(dim) => dim as int,
        SupportedCone::SecondOrderConeT(dim) => dim as int,
        SupportedCone::ExponentialConeT() => 3,
        SupportedCone::PlaceHolderT(dim, _) => dim as int,
    }
}

/// The printable name of a descriptor's kind.
pub open spec fn sp_variant_name(c: SupportedCone) -> Seq<char> {
    match c {
        SupportedCone::ZeroConeT(_) => "ZeroConeT"@,
        SupportedCone::NonnegativeConeT(_) => "NonnegativeConeT"@,
        SupportedCone::SecondOrderConeT(_) => "SecondOrderConeT"@,
        SupportedCone::ExponentialConeT() => "ExponentialConeT"@,
        SupportedCone::PlaceHolderT(_, _) => "PlaceHolderConeT"@,
    }
}

impl SupportedCone {
    /// The name of the cone kind, used for printing progress.
    pub fn variant_name(&self) -> (r: &'static str)
        ensures
            r@ == sp_variant_name(*self),
    {
        match self {
            SupportedCone::ZeroConeT(_) => "ZeroConeT",
            SupportedCone::NonnegativeConeT(_) => "NonnegativeConeT",
            SupportedCone::SecondOrderConeT(_) => "SecondOrderConeT",
            SupportedCone::ExponentialConeT() => "ExponentialConeT",
            SupportedCone::PlaceHolderT(_, _) => "PlaceHolderConeT",
        }
    }

    /// The number of slack variables this cone generates.
    pub fn nvars(&self) -> (r: usize)
        ensures
            r == sp_nvars(*self),
    {
        match self {
            SupportedCone::ZeroConeT(dim) => *dim,
            SupportedCone::NonnegativeConeT(dim) => *dim,
            SupportedCone::SecondOrderConeT(dim) => *dim,
            SupportedCone::ExponentialConeT() => 3,
            SupportedCone::PlaceHolderT(dim, _) => *dim,
        }
    }
}

/// Position of a descriptor's kind in the closed registry.
pub fn kind_index_of(c: &SupportedCone) -> (r: usize)
    ensures
        r == kind_index(*c),
        r < NKINDS,
{
    match c {
        SupportedCone::ZeroConeT(_) => 0,
        SupportedCone::NonnegativeConeT(_) => 1,
        SupportedCone::SecondOrderConeT(_) => 2,
        SupportedCone::ExponentialConeT() => 3,
        SupportedCone::PlaceHolderT(_, _) => 4,
    }
}

impl PartialEq for SupportedCone {
    /// Equality on descriptors is variant-tag-only: two descriptors of
    /// the same kind but different dimension compare equal.
    fn eq(&self, other: &SupportedCone) -> (r: bool) {
        let a = kind_index_of(self);
        let b = kind_index_of(other);
        a == b
    }
}

impl vstd::std_specs::cmp::PartialEqSpecImpl for SupportedCone {
    open spec fn obeys_eq_spec() -> bool {
        true
    }

    open spec fn eq_spec(&self, other: &SupportedCone) -> bool {
        sp_same_kind(*self, *other)
    }
}

/// Law: descriptor equality compares kind tags only; the carried
/// dimensions play no part in it.
pub proof fn lemma_descriptor_eq_kind_only(a: SupportedCone, b: SupportedCone)
    ensures
        a.eq_spec(&b) == sp_same_kind(a, b),
        sp_same_kind(a, b) == (kind_index(a) == kind_index(b)),
{
}

/// Policy token selecting how primal-dual scaling state is recomputed;
/// forwarded opaquely to the member cones.
#[derive(Clone, Copy, Debug, PartialEq, Eq, Structural)]
pub enum ScalingStrategy {
    PrimalDual,
    Dual,
}

/// Numeric tolerances available to the step-length computation. The cone
/// kinds realized here take the full ratio-test step and read none of
/// them; the token is carried for the kinds whose line searches need it.
pub struct CoreSettings {
    /// Lower cap under which a returned step length is considered stalled.
    pub min_terminate_step_length: Scalar,
}

/// The zero cone: every slack pinned to the origin.
pub struct ZeroCone {
    pub dim: usize,
}

/// The nonnegative orthant, with its diagonal primal-dual scaling state.
pub struct NonnegativeCone {
    pub dim: usize,
    /// Diagonal scaling point, elementwise `sqrt(s/z)`.
    pub w: Vec<Scalar>,
    /// Scaled point, elementwise `sqrt(s*z)`.
    pub lambda: Vec<Scalar>,
}

/// The second-order cone.
pub struct SecondOrderCone {
    pub dim: usize,
}

/// The exponential cone in three dimensions.
pub struct ExponentialCone {}

impl ZeroCone {
    pub fn new(dim: usize) -> (r: ZeroCone)
        ensures
            r.dim == dim,
    {
        ZeroCone { dim }
    }
}

/// A buffer of `dim` ones.
fn ones_vec(dim: usize) -> (r: Vec<Scalar>)
    ensures
        r@.len() == dim,
        forall|t: int| 0 <= t < dim ==> r@[t] == s_one(),
{
    let mut v: Vec<Scalar> = Vec::new();
    let mut i: usize = 0;
    while i < dim
        invariant
            i <= dim,
            v@.len() == i,
            forall|t: int| 0 <= t < i ==> v@[t] == s_one(),
        decreases dim - i,
    {
        v.push(Scalar::Num(SCALE));
        i += 1;
    }
    v
}

impl NonnegativeCone {
    /// A nonnegative orthant with identity scaling state.
    pub fn new(dim: usize) -> (r: NonnegativeCone)
        ensures
            r.dim == dim,
            r.w@.len() == dim,
            r.lambda@.len() == dim,
            forall|t: int| 0 <= t < dim ==> r.w@[t] == s_one(),
            forall|t: int| 0 <= t < dim ==> r.lambda@[t] == s_one(),
    {
        let w = ones_vec(dim);
        let lambda = ones_vec(dim);
        NonnegativeCone { dim, w, lambda }
    }
}

impl SecondOrderCone {
    pub fn new(dim: usize) -> (r: SecondOrderCone)
        ensures
            r.dim == dim,
    {
        SecondOrderCone { dim }
    }
}

impl ExponentialCone {
    pub fn new() -> (r: ExponentialCone) {
        ExponentialCone {  }
    }
}

/// A concrete cone object of the closed registry, dispatched by matching.
pub enum ConeObj {
    Zero(ZeroCone),
    Nonnegative(NonnegativeCone),
    SecondOrder(SecondOrderCone),
    Exponential(ExponentialCone),
}

/// Packed column-major upper triangle of the identity: column `j`
/// contributes `j` zeros and then a one on its diagonal.
pub open spec fn sp_packed_identity(j: int) -> Seq<Scalar>
    decreases j,
{
    if j <= 0 {
        Seq::empty()
    } else {
        sp_packed_identity(j - 1) + Seq::new((j - 1) as nat, |i: int| s_zero()).push(s_one())
    }
}

/// Triangular count: the length of a packed triangle of order `n`.
pub open spec fn tri(n: int) -> int
    decreases n,
{
    if n <= 0 {
        0
    } else {
        tri(n - 1) + n
    }
}

/// The triangular count is never negative.
pub proof fn lemma_tri_nonneg(n: int)
    ensures
        tri(n) >= 0,
    decreases n,
{
    if n > 0 {
        lemma_tri_nonneg(n - 1);
    }
}

/// Twice the triangular count is the product of adjacent integers.
pub proof fn lemma_tri_double(n: int)
    requires
        n >= 0,
    ensures
        2 * tri(n) == n * (n + 1),
    decreases n,
{
    if n == 0 {
        assert(tri(0) == 0);
    } else {
        lemma_tri_double(n - 1);
        assert(tri(n) == tri(n - 1) + n);
        assert((n - 1) * n + 2 * n == n * (n + 1)) by (nonlinear_arith);
    }
}

/// The triangular count has the closed form `n*(n+1)/2`.
pub proof fn lemma_tri_closed(n: int)
    requires
        n >= 0,
    ensures
        tri(n) == n * (n + 1) / 2,
{
    lemma_tri_double(n);
    assert(tri(n) == (2 * tri(n)) / 2);
}

/// The packed triangle of order `j` has the triangular length.
pub proof fn lemma_packed_len(j: int)
    ensures
        sp_packed_identity(j).len() == if j <= 0 { 0int } else { tri(j) },
    decreases j,
{
    if j > 0 {
        lemma_packed_len(j - 1);
    }
}

/// Inside the packed triangle, position `tri(j) + i` of column `j` holds
/// one on the diagonal and zero off it.
pub proof fn lemma_packed_at(n: int, j: int, i: int)
    requires
        0 <= i <= j < n,
    ensures
        tri(j) + i < tri(n),
        sp_packed_identity(n)[tri(j) + i] == if i == j { s_one() } else { s_zero() },
    decreases n,
{
    lemma_packed_len(n - 1);
    lemma_tri_nonneg(j);
    let block = Seq::new((n - 1) as nat, |t: int| s_zero()).push(s_one());
    assert(sp_packed_identity(n) =~= sp_packed_identity(n - 1) + block);
    assert(tri(n) == tri(n - 1) + n);
    if j == n - 1 {
        assert(tri(j) + i < tri(n));
        assert((sp_packed_identity(n - 1) + block)[tri(n - 1) + i] == block[i]);
    } else {
        lemma_packed_at(n - 1, j, i);
        assert((sp_packed_identity(n - 1) + block)[tri(j) + i] == sp_packed_identity(n - 1)[tri(j)
            + i]);
    }
}

/// Canonical interior point of the exponential cone, componentwise.
pub open spec fn exp_init_elem(t: int) -> Scalar {
    if t == 0 {
        Scalar::Num((-1_000_000) as i64)
    } else if t == 1 {
        Scalar::Num(1_000_000 as i64)
    } else {
        Scalar::Num(3_000_000 as i64)
    }
}

/// Ratio-test fold: each coordinate whose direction is negative caps the
/// running step length by `-v/dv`.
pub open spec fn sp_ratio_step(v: Seq<Scalar>, dv: Seq<Scalar>, lo: int, hi: int, seed: Scalar) -> Scalar
    decreases hi - lo,
{
    if hi <= lo {
        seed
    } else {
        let prev = sp_ratio_step(v, dv, lo, hi - 1, seed);
        if s_lt(dv[hi - 1], s_zero()) {
            s_min(prev, s_neg(s_div(v[hi - 1], dv[hi - 1])))
        } else {
            prev
        }
    }
}

/// The ratio-test fold never raises the seed and never turns a number
/// into `Nan`.
pub proof fn lemma_ratio_step_bound(v: Seq<Scalar>, dv: Seq<Scalar>, lo: int, hi: int, seed: Scalar)
    requires
        seed != Scalar::Nan,
    ensures
        !s_lt(seed, sp_ratio_step(v, dv, lo, hi, seed)),
        sp_ratio_step(v, dv, lo, hi, seed) != Scalar::Nan,
    decreases hi - lo,
{
    if hi > lo {
        lemma_ratio_step_bound(v, dv, lo, hi - 1, seed);
        let prev = sp_ratio_step(v, dv, lo, hi - 1, seed);
        if s_lt(dv[hi - 1], s_zero()) {
            lemma_smin_keeps_bound(seed, prev, s_neg(s_div(v[hi - 1], dv[hi - 1])));
        }
    }
}

impl ConeObj {
    /// Structural well-formedness: scaling buffers sized to the dimension.
    pub open spec fn wf(self) -> bool {
        match self {
            ConeObj::Nonnegative(c) => c.w@.len() == c.dim && c.lambda@.len() == c.dim,
            _ => true,
        }
    }

    /// Ambient dimension of the cone's slice.
    pub open spec fn numel_s(self) -> int {
        match self {
            ConeObj::Zero(c) => c.dim as int,
            ConeObj::Nonnegative(c) => c.dim as int,
            ConeObj::SecondOrder(c) => c.dim as int,
            ConeObj::Exponential(_) => 3,
        }
    }

    /// Barrier degree, fixed at construction.
    pub open spec fn degree_s(self) -> int {
        match self {
            ConeObj::Zero(_) => 0,
            ConeObj::Nonnegative(c) => c.dim as int,
            ConeObj::SecondOrder(_) => 1,
            ConeObj::Exponential(_) => 3,
        }
    }

    /// Whether the kind is symmetric; false only for the exponential cone.
    pub open spec fn symmetric_s(self) -> bool {
        !(self is Exponential)
    }

    /// Whether the structural scaled-Hessian block is diagonal.
    pub open spec fn hs_diag_s(self) -> bool {
        match self {
            ConeObj::Zero(_) => true,
            ConeObj::Nonnegative(_) => true,
            ConeObj::SecondOrder(_) => false,
            ConeObj::Exponential(_) => false,
        }
    }

    /// Length of the cone's scaled-Hessian block: the dimension for a
    /// diagonal block, the packed triangular count otherwise.
    pub open spec fn block_s(self) -> int {
        if self.hs_diag_s() {
            self.numel_s()
        } else {
            tri(self.numel_s())
        }
    }

    /// The two cones agree on kind and dimension.
    pub open spec fn shape_eq(self, o: ConeObj) -> bool {
        &&& self.numel_s() == o.numel_s()
        &&& kind_of_obj(self) == kind_of_obj(o)
    }
}

/// Registry position of a cone object's kind.
pub open spec fn kind_of_obj(c: ConeObj) -> int {
    match c {
        ConeObj::Zero(_) => 0,
        ConeObj::Nonnegative(_) => 1,
        ConeObj::SecondOrder(_) => 2,
        ConeObj::Exponential(_) => 3,
    }
}

/// The cone object realizes the descriptor: same kind, same dimension.
pub open spec fn sp_matches_desc(obj: ConeObj, desc: SupportedCone) -> bool {
    &&& kind_of_obj(obj) == kind_index(desc)
    &&& obj.numel_s() == sp_nvars(desc)
}

/// Build the concrete cone object of a descriptor. The placeholder kind
/// has no construction and is excluded by precondition.
pub fn make_cone(cone: SupportedCone) -> (r: ConeObj)
    requires
        !(cone is PlaceHolderT),
    ensures
        r.wf(),
        sp_matches_desc(r, cone),
{
    match cone {
        SupportedCone::NonnegativeConeT(dim) => ConeObj::Nonnegative(NonnegativeCone::new(dim)),
        SupportedCone::ZeroConeT(dim) => ConeObj::Zero(ZeroCone::new(dim)),
        SupportedCone::SecondOrderConeT(dim) => ConeObj::SecondOrder(SecondOrderCone::new(dim)),
        SupportedCone::ExponentialConeT() => ConeObj::Exponential(ExponentialCone::new()),
        SupportedCone::PlaceHolderT(_, _) => {
            proof {
                assert(false);
            }
            ConeObj::Zero(ZeroCone::new(0))
        },
    }
}

/// Value written at global index `k` by `shift_to_cone` for a member
/// whose slice starts at `lo`.
pub open spec fn shift_elem(c: ConeObj, z: Seq<Scalar>, lo: int, k: int) -> Scalar {
    match c {
        ConeObj::Zero(_) => s_zero(),
        ConeObj::Nonnegative(nc) => {
            let mn = sp_min_range(z, lo, lo + nc.dim);
            if s_lt(s_zero(), mn) {
                z[k]
            } else {
                s_add(z[k], s_sub(s_one(), mn))
            }
        },
        ConeObj::SecondOrder(_) => if k == lo {
            s_one()
        } else {
            s_zero()
        },
        ConeObj::Exponential(_) => exp_init_elem(k - lo),
    }
}

/// Canonical centered starting point of a member, at offset `t` of its
/// slice.
pub open spec fn unit_elem(c: ConeObj, t: int) -> Scalar {
    match c {
        ConeObj::Zero(_) => s_zero(),
        ConeObj::Nonnegative(_) => s_one(),
        ConeObj::SecondOrder(_) => if t == 0 {
            s_one()
        } else {
            s_zero()
        },
        ConeObj::Exponential(_) => exp_init_elem(t),
    }
}

/// Value written at global index `k` by `rectify_equilibration`: the
/// symmetric kinds keep the default of all ones, the exponential cone
/// requests the mean of its slice over each entry.
pub open spec fn rect_delta_elem(c: ConeObj, e: Seq<Scalar>, lo: int, k: int) -> Scalar {
    match c {
        ConeObj::Exponential(_) => s_div(sp_mean(e.subrange(lo, lo + 3)), e[k]),
        _ => s_one(),
    }
}

/// Entry `t` of a member's scaled-Hessian block: the zero cone's block is
/// zero, the nonnegative orthant's diagonal is `w` squared, and the
/// packed-triangle kinds hold the identity under this realization.
pub open spec fn hs_elem(c: ConeObj, t: int) -> Scalar {
    match c {
        ConeObj::Zero(_) => s_zero(),
        ConeObj::Nonnegative(nc) => s_mul(nc.w@[t], nc.w@[t]),
        ConeObj::SecondOrder(sc) => sp_packed_identity(sc.dim as int)[t],
        ConeObj::Exponential(_) => sp_packed_identity(3)[t],
    }
}

/// Value written at global index `k` by `mul_Hs`.
pub open spec fn mul_hs_elem(c: ConeObj, x: Seq<Scalar>, lo: int, k: int) -> Scalar {
    match c {
        ConeObj::Zero(_) => s_zero(),
        ConeObj::Nonnegative(nc) => s_mul(s_mul(nc.w@[k - lo], nc.w@[k - lo]), x[k]),
        ConeObj::SecondOrder(_) => x[k],
        ConeObj::Exponential(_) => x[k],
    }
}

/// Value written at global index `k` by `affine_ds`.
pub open spec fn affine_elem(c: ConeObj, s: Seq<Scalar>, lo: int, k: int) -> Scalar {
    match c {
        ConeObj::Zero(_) => s_zero(),
        ConeObj::Nonnegative(nc) => s_mul(nc.lambda@[k - lo], nc.lambda@[k - lo]),
        ConeObj::SecondOrder(_) => s[k],
        ConeObj::Exponential(_) => s[k],
    }
}

/// Value written at global index `k` by `combined_ds_shift`: the
/// Mehrotra-style corrector, centered along the member's unit element.
pub open spec fn ds_shift_elem(
    c: ConeObj,
    step_z: Seq<Scalar>,
    step_s: Seq<Scalar>,
    lo: int,
    k: int,
    sigma_mu: Scalar,
) -> Scalar {
    match c {
        ConeObj::Zero(_) => s_zero(),
        ConeObj::Nonnegative(_) => s_sub(s_mul(step_z[k], step_s[k]), sigma_mu),
        ConeObj::SecondOrder(_) => if k == lo {
            s_sub(s_mul(step_z[k], step_s[k]), sigma_mu)
        } else {
            s_mul(step_z[k], step_s[k])
        },
        ConeObj::Exponential(_) => s_sub(
            s_mul(step_z[k], step_s[k]),
            s_mul(sigma_mu, exp_init_elem(k - lo)),
        ),
    }
}

/// Value written at global index `k` by `ds_from_dz_offset`.
pub open spec fn dz_offset_elem(c: ConeObj, ds: Seq<Scalar>, lo: int, k: int) -> Scalar {
    match c {
        ConeObj::Zero(_) => s_zero(),
        ConeObj::Nonnegative(nc) => s_div(ds[k], nc.lambda@[k - lo]),
        ConeObj::SecondOrder(_) => ds[k],
        ConeObj::Exponential(_) => ds[k],
    }
}

/// The nonnegative orthant's scaling state after `update_scaling`:
/// `w = sqrt(s/z)` and `lambda = sqrt(s*z)` elementwise; stateless kinds
/// are unchanged.
pub open spec fn upd_scaling_rel(
    c0: ConeObj,
    c1: ConeObj,
    s: Seq<Scalar>,
    z: Seq<Scalar>,
    lo: int,
) -> bool {
    match c0 {
        ConeObj::Nonnegative(n0) => match c1 {
            ConeObj::Nonnegative(n1) => {
                &&& n1.dim == n0.dim
                &&& n1.w@.len() == n0.dim
                &&& n1.lambda@.len() == n0.dim
                &&& forall|t: int|
                    0 <= t < n0.dim ==> #[trigger] n1.w@[t] == s_sqrt(s_div(s[lo + t], z[lo + t]))
                &&& forall|t: int|
                    0 <= t < n0.dim ==> #[trigger] n1.lambda@[t] == s_sqrt(
                        s_mul(s[lo + t], z[lo + t]),
                    )
            },
            _ => false,
        },
        _ => c1 == c0,
    }
}

/// The member's scaling state is the identity transform.
pub open spec fn sp_identity_scaled(c: ConeObj) -> bool {
    match c {
        ConeObj::Nonnegative(nc) => forall|t: int|
            0 <= t < nc.dim ==> #[trigger] nc.w@[t] == s_one() && #[trigger] nc.lambda@[t]
                == s_one(),
        _ => true,
    }
}

/// Step lengths a member reports: the ratio test for the nonnegative
/// orthant, the caller's bound for the kinds whose geometry is external.
pub open spec fn sp_member_step(
    c: ConeObj,
    dz: Seq<Scalar>,
    ds: Seq<Scalar>,
    z: Seq<Scalar>,
    s: Seq<Scalar>,
    lo: int,
    amax: Scalar,
) -> (Scalar, Scalar) {
    match c {
        ConeObj::Nonnegative(nc) => (
            sp_ratio_step(z, dz, lo, lo + nc.dim, amax),
            sp_ratio_step(s, ds, lo, lo + nc.dim, amax),
        ),
        _ => (amax, amax),
    }
}

/// Ratio-test fold over the index range `[start, stop)`.
fn ratio_fold(v: &Vec<Scalar>, dv: &Vec<Scalar>, start: usize, stop: usize, seed: Scalar) -> (r:
    Scalar)
    requires
        start <= stop,
        stop <= v@.len(),
        stop <= dv@.len(),
    ensures
        r == sp_ratio_step(v@, dv@, start as int, stop as int, seed),
{
    let mut acc = seed;
    let mut i: usize = start;
    while i < stop
        invariant
            start <= i <= stop,
            stop <= v@.len(),
            stop <= dv@.len(),
            acc == sp_ratio_step(v@, dv@, start as int, i as int, seed),
        decreases stop - i,
    {
        if slt(dv[i], Scalar::Num(0)) {
            acc = smin(acc, sneg(sdiv(v[i], dv[i])));
        }
        i += 1;
    }
    acc
}

/// Write the packed column-major upper triangle of the identity of order
/// `n` at `start`.
fn write_packed_identity(out: &mut Vec<Scalar>, start: usize, n: usize)
    requires
        start + tri(n as int) <= old(out)@.len(),
    ensures
        final(out)@.len() == old(out)@.len(),
        forall|t: int|
            0 <= t < tri(n as int) ==> final(out)@[start + t] == sp_packed_identity(n as int)[t],
        forall|k: int|
            0 <= k < old(out)@.len() && !(start <= k < start + tri(n as int)) ==> final(out)@[k]
                == old(out)@[k],
{
    let ghost o0 = out@;
    proof {
        lemma_tri_nonneg(n as int);
    }
    let cap_out = out.len();
    let mut idx: usize = 0;
    let mut j: usize = 0;
    while j < n
        invariant
            j <= n,
            idx as int == tri(j as int),
            out@.len() == o0.len(),
            o0.len() == cap_out,
            start + tri(n as int) <= o0.len(),
            forall|t: int| 0 <= t < idx ==> out@[start + t] == sp_packed_identity(n as int)[t],
            forall|k: int| 0 <= k < o0.len() && !(start <= k < start + idx) ==> out@[k] == o0[k],
        decreases n - j,
    {
        let mut i: usize = 0;
        while i <= j
            invariant
                i <= j + 1,
                j < n,
                idx as int == tri(j as int) + i,
                out@.len() == o0.len(),
                o0.len() == cap_out,
                start + tri(n as int) <= o0.len(),
                forall|t: int| 0 <= t < idx ==> out@[start + t] == sp_packed_identity(n as int)[t],
                forall|k: int|
                    0 <= k < o0.len() && !(start <= k < start + idx) ==> out@[k] == o0[k],
            decreases j + 1 - i,
        {
            proof {
                lemma_packed_at(n as int, j as int, i as int);
                lemma_tri_nonneg(j as int);
            }
            if i == j {
                out[start + idx] = Scalar::Num(SCALE);
            } else {
                out[start + idx] = Scalar::Num(0);
            }
            idx += 1;
            i += 1;
        }
        proof {
            assert(tri(j as int + 1) == tri(j as int) + (j as int) + 1);
        }
        j += 1;
    }
}

impl ConeObj {
    /// Ambient dimension of the cone's slice.
    pub fn numel(&self) -> (r: usize)
        ensures
            r == self.numel_s(),
    {
        match self {
            ConeObj::Zero(c) => c.dim,
            ConeObj::Nonnegative(c) => c.dim,
            ConeObj::SecondOrder(c) => c.dim,
            ConeObj::Exponential(_) => 3,
        }
    }

    /// Barrier degree, fixed at construction.
    pub fn degree(&self) -> (r: usize)
        ensures
            r == self.degree_s(),
    {
        match self {
            ConeObj::Zero(_) => 0,
            ConeObj::Nonnegative(c) => c.dim,
            ConeObj::SecondOrder(_) => 1,
            ConeObj::Exponential(_) => 3,
        }
    }

    /// Whether the kind is symmetric.
    pub fn is_symmetric(&self) -> (r: bool)
        ensures
            r == self.symmetric_s(),
    {
        match self {
            ConeObj::Exponential(_) => false,
            _ => true,
        }
    }

    /// Whether the structural scaled-Hessian block is diagonal.
    #[allow(non_snake_case)]
    pub fn Hs_is_diagonal(&self) -> (r: bool)
        ensures
            r == self.hs_diag_s(),
    {
        match self {
            ConeObj::Zero(_) => true,
            ConeObj::Nonnegative(_) => true,
            ConeObj::SecondOrder(_) => false,
            ConeObj::Exponential(_) => false,
        }
    }

    /// Adjust the proposed equilibration on this member's slice; reports
    /// whether anything was changed from the default of all ones.
    pub fn rectify_equilibration(&self, delta: &mut Vec<Scalar>, e: &Vec<Scalar>, start: usize) -> (r:
        bool)
        requires
            self.wf(),
            start + self.numel_s() <= old(delta)@.len(),
            start + self.numel_s() <= e@.len(),
        ensures
            final(delta)@.len() == old(delta)@.len(),
            forall|k: int|
                start <= k < start + self.numel_s() ==> final(delta)@[k] == rect_delta_elem(
                    *self,
                    e@,
                    start as int,
                    k,
                ),
            forall|k: int|
                0 <= k < old(delta)@.len() && !(start <= k < start + self.numel_s()) ==> final(delta)@[k] == old(delta)@[k],
            r == (*self is Exponential),
    {
        let cap_delta = delta.len();
        let cap_e = e.len();
        match self {
            ConeObj::Zero(c) => {
                vector::fill_range(delta, start, start + c.dim, Scalar::Num(SCALE));
                false
            },
            ConeObj::Nonnegative(c) => {
                vector::fill_range(delta, start, start + c.dim, Scalar::Num(SCALE));
                false
            },
            ConeObj::SecondOrder(c) => {
                vector::fill_range(delta, start, start + c.dim, Scalar::Num(SCALE));
                false
            },
            ConeObj::Exponential(_) => {
                let mut tmp: Vec<Scalar> = Vec::new();
                tmp.push(e[start]);
                tmp.push(e[start + 1]);
                tmp.push(e[start + 2]);
                proof {
                    assert(tmp@ =~= e@.subrange(start as int, start as int + 3));
                }
                let m = vector::mean(&tmp);
                let t0 = sdiv(m, e[start]);
                let t1 = sdiv(m, e[start + 1]);
                let t2 = sdiv(m, e[start + 2]);
                delta[start] = t0;
                delta[start + 1] = t1;
                delta[start + 2] = t2;
                true
            },
        }
    }

    /// Move a possibly-infeasible point into the member's interior on its
    /// slice.
    pub fn shift_to_cone(&self, z: &mut Vec<Scalar>, start: usize)
        requires
            self.wf(),
            start + self.numel_s() <= old(z)@.len(),
        ensures
            final(z)@.len() == old(z)@.len(),
            forall|k: int|
                start <= k < start + self.numel_s() ==> final(z)@[k] == shift_elem(
                    *self,
                    old(z)@,
                    start as int,
                    k,
                ),
            forall|k: int|
                0 <= k < old(z)@.len() && !(start <= k < start + self.numel_s()) ==> final(z)@[k]
                    == old(z)@[k],
    {
        let cap_z = z.len();
        match self {
            ConeObj::Zero(c) => {
                vector::fill_range(z, start, start + c.dim, Scalar::Num(0));
            },
            ConeObj::Nonnegative(c) => {
                let mn = vector::min_range(z, start, start + c.dim);
                if slt(Scalar::Num(0), mn) {
                } else {
                    let shift = ssub(Scalar::Num(SCALE), mn);
                    vector::translate_range(z, start, start + c.dim, shift);
                }
            },
            ConeObj::SecondOrder(c) => {
                if c.dim > 0 {
                    z[start] = Scalar::Num(SCALE);
                    vector::fill_range(z, start + 1, start + c.dim, Scalar::Num(0));
                }
            },
            ConeObj::Exponential(_) => {
                z[start] = Scalar::Num(-1_000_000);
                z[start + 1] = Scalar::Num(1_000_000);
                z[start + 2] = Scalar::Num(3_000_000);
            },
        }
    }

    /// Write the member's canonical centered starting point on one slice.
    fn unit_write(&self, v: &mut Vec<Scalar>, start: usize)
        requires
            self.wf(),
            start + self.numel_s() <= old(v)@.len(),
        ensures
            final(v)@.len() == old(v)@.len(),
            forall|k: int|
                start <= k < start + self.numel_s() ==> final(v)@[k] == unit_elem(
                    *self,
                    k - start,
                ),
            forall|k: int|
                0 <= k < old(v)@.len() && !(start <= k < start + self.numel_s()) ==> final(v)@[k]
                    == old(v)@[k],
    {
        let cap_v = v.len();
        match self {
            ConeObj::Zero(c) => {
                vector::fill_range(v, start, start + c.dim, Scalar::Num(0));
            },
            ConeObj::Nonnegative(c) => {
                vector::fill_range(v, start, start + c.dim, Scalar::Num(SCALE));
            },
            ConeObj::SecondOrder(c) => {
                if c.dim > 0 {
                    v[start] = Scalar::Num(SCALE);
                    vector::fill_range(v, start + 1, start + c.dim, Scalar::Num(0));
                }
            },
            ConeObj::Exponential(_) => {
                v[start] = Scalar::Num(-1_000_000);
                v[start + 1] = Scalar::Num(1_000_000);
                v[start + 2] = Scalar::Num(3_000_000);
            },
        }
    }

    /// Write the canonical centered interior starting point into both
    /// iterate slices.
    pub fn unit_initialization(&self, z: &mut Vec<Scalar>, s: &mut Vec<Scalar>, start: usize)
        requires
            self.wf(),
            start + self.numel_s() <= old(z)@.len(),
            start + self.numel_s() <= old(s)@.len(),
        ensures
            final(z)@.len() == old(z)@.len(),
            final(s)@.len() == old(s)@.len(),
            forall|k: int|
                start <= k < start + self.numel_s() ==> final(z)@[k] == unit_elem(
                    *self,
                    k - start,
                ),
            forall|k: int|
                start <= k < start + self.numel_s() ==> final(s)@[k] == unit_elem(
                    *self,
                    k - start,
                ),
            forall|k: int|
                0 <= k < old(z)@.len() && !(start <= k < start + self.numel_s()) ==> final(z)@[k]
                    == old(z)@[k],
            forall|k: int|
                0 <= k < old(s)@.len() && !(start <= k < start + self.numel_s()) ==> final(s)@[k]
                    == old(s)@[k],
    {
        self.unit_write(z, start);
        self.unit_write(s, start);
    }

    /// Reset the internal scaling state to the identity transform.
    pub fn set_identity_scaling(&mut self)
        requires
            old(self).wf(),
        ensures
            final(self).wf(),
            final(self).shape_eq(*old(self)),
            sp_identity_scaled(*final(self)),
            !(*old(self) is Nonnegative) ==> *final(self) == *old(self),
    {
        match self {
            ConeObj::Nonnegative(c) => {
                vector::fill(&mut c.w, Scalar::Num(SCALE));
                vector::fill(&mut c.lambda, Scalar::Num(SCALE));
            },
            _ => {},
        }
    }

    /// Recompute the internal primal-dual scaling from the current
    /// iterate; the barrier parameter and strategy token are forwarded
    /// for the kinds whose updates need them.
    pub fn update_scaling(
        &mut self,
        s: &Vec<Scalar>,
        z: &Vec<Scalar>,
        start: usize,
        mu: Scalar,
        strategy: ScalingStrategy,
    )
        requires
            old(self).wf(),
            start + old(self).numel_s() <= s@.len(),
            start + old(self).numel_s() <= z@.len(),
        ensures
            final(self).wf(),
            final(self).shape_eq(*old(self)),
            upd_scaling_rel(*old(self), *final(self), s@, z@, start as int),
    {
        let cap_s = s.len();
        let cap_z = z.len();
        match self {
            ConeObj::Nonnegative(c) => {
                let dim = c.dim;
                let mut t: usize = 0;
                while t < dim
                    invariant
                        t <= dim,
                        c.dim == dim,
                        c.w@.len() == dim,
                        c.lambda@.len() == dim,
                        start + dim <= s@.len(),
                        start + dim <= z@.len(),
                        s@.len() == cap_s,
                        z@.len() == cap_z,
                        forall|u: int|
                            0 <= u < t ==> #[trigger] c.w@[u] == s_sqrt(
                                s_div(s@[start + u], z@[start + u]),
                            ),
                        forall|u: int|
                            0 <= u < t ==> #[trigger] c.lambda@[u] == s_sqrt(
                                s_mul(s@[start + u], z@[start + u]),
                            ),
                    decreases dim - t,
                {
                    let wv = ssqrt(sdiv(s[start + t], z[start + t]));
                    let lv = ssqrt(smul(s[start + t], z[start + t]));
                    c.w[t] = wv;
                    c.lambda[t] = lv;
                    t += 1;
                }
            },
            _ => {},
        }
    }

    /// Write the member's scaled-Hessian block: its diagonal, or its
    /// packed upper triangle.
    #[allow(non_snake_case)]
    pub fn get_Hs(&self, out: &mut Vec<Scalar>, start: usize)
        requires
            self.wf(),
            start + self.block_s() <= old(out)@.len(),
        ensures
            final(out)@.len() == old(out)@.len(),
            forall|t: int|
                0 <= t < self.block_s() ==> final(out)@[start + t] == hs_elem(*self, t),
            forall|k: int|
                0 <= k < old(out)@.len() && !(start <= k < start + self.block_s()) ==> final(out)@[k] == old(out)@[k],
    {
        let cap_out = out.len();
        match self {
            ConeObj::Zero(c) => {
                vector::fill_range(out, start, start + c.dim, Scalar::Num(0));
            },
            ConeObj::Nonnegative(c) => {
                let dim = c.dim;
                let ghost o0 = out@;
                let mut t: usize = 0;
                while t < dim
                    invariant
                        t <= dim,
                        c.dim == dim,
                        c.w@.len() == dim,
                        start + dim <= o0.len(),
                        o0.len() == cap_out,
                        out@.len() == o0.len(),
                        forall|u: int|
                            0 <= u < t ==> #[trigger] out@[start + u] == s_mul(c.w@[u], c.w@[u]),
                        forall|k: int|
                            0 <= k < o0.len() && !(start <= k < start + t) ==> out@[k] == o0[k],
                    decreases dim - t,
                {
                    let hv = smul(c.w[t], c.w[t]);
                    out[start + t] = hv;
                    t += 1;
                }
            },
            ConeObj::SecondOrder(c) => {
                write_packed_identity(out, start, c.dim);
            },
            ConeObj::Exponential(_) => {
                write_packed_identity(out, start, 3);
            },
        }
    }

    /// Apply the scaled-Hessian operator on the member's slice,
    /// `y := Hs * x`, with caller-provided scratch left untouched.
    #[allow(non_snake_case)]
    pub fn mul_Hs(&self, y: &mut Vec<Scalar>, x: &Vec<Scalar>, work: &mut Vec<Scalar>, start: usize)
        requires
            self.wf(),
            start + self.numel_s() <= old(y)@.len(),
            start + self.numel_s() <= x@.len(),
            start + self.numel_s() <= old(work)@.len(),
        ensures
            final(y)@.len() == old(y)@.len(),
            final(work)@ == old(work)@,
            forall|k: int|
                start <= k < start + self.numel_s() ==> final(y)@[k] == mul_hs_elem(
                    *self,
                    x@,
                    start as int,
                    k,
                ),
            forall|k: int|
                0 <= k < old(y)@.len() && !(start <= k < start + self.numel_s()) ==> final(y)@[k]
                    == old(y)@[k],
    {
        let cap_y = y.len();
        let cap_x = x.len();
        match self {
            ConeObj::Zero(c) => {
                vector::fill_range(y, start, start + c.dim, Scalar::Num(0));
            },
            ConeObj::Nonnegative(c) => {
                let dim = c.dim;
                let ghost y0 = y@;
                let mut t: usize = 0;
                while t < dim
                    invariant
                        t <= dim,
                        c.dim == dim,
                        c.w@.len() == dim,
                        start + dim <= y0.len(),
                        start + dim <= x@.len(),
                        x@.len() == cap_x,
                        y@.len() == y0.len(),
                        y0.len() == cap_y,
                        forall|k: int|
                            start <= k < start + t ==> #[trigger] y@[k] == s_mul(
                                s_mul(c.w@[k - start], c.w@[k - start]),
                                x@[k],
                            ),
                        forall|k: int|
                            0 <= k < y0.len() && !(start <= k < start + t) ==> y@[k] == y0[k],
                    decreases dim - t,
                {
                    let hv = smul(smul(c.w[t], c.w[t]), x[start + t]);
                    y[start + t] = hv;
                    t += 1;
                }
            },
            ConeObj::SecondOrder(c) => {
                vector::copy_range(y, x, start, start + c.dim);
            },
            ConeObj::Exponential(_) => {
                vector::copy_range(y, x, start, start + 3);
            },
        }
    }

    /// Compute the affine-step contribution to the slack delta on the
    /// member's slice.
    pub fn affine_ds(&self, ds: &mut Vec<Scalar>, s: &Vec<Scalar>, start: usize)
        requires
            self.wf(),
            start + self.numel_s() <= old(ds)@.len(),
            start + self.numel_s() <= s@.len(),
        ensures
            final(ds)@.len() == old(ds)@.len(),
            forall|k: int|
                start <= k < start + self.numel_s() ==> final(ds)@[k] == affine_elem(
                    *self,
                    s@,
                    start as int,
                    k,
                ),
            forall|k: int|
                0 <= k < old(ds)@.len() && !(start <= k < start + self.numel_s()) ==> final(ds)@[k] == old(ds)@[k],
    {
        let cap_ds = ds.len();
        let cap_s = s.len();
        match self {
            ConeObj::Zero(c) => {
                vector::fill_range(ds, start, start + c.dim, Scalar::Num(0));
            },
            ConeObj::Nonnegative(c) => {
                let dim = c.dim;
                let ghost d0 = ds@;
                let mut t: usize = 0;
                while t < dim
                    invariant
                        t <= dim,
                        c.dim == dim,
                        c.lambda@.len() == dim,
                        start + dim <= d0.len(),
                        ds@.len() == d0.len(),
                        d0.len() == cap_ds,
                        forall|k: int|
                            start <= k < start + t ==> #[trigger] ds@[k] == s_mul(
                                c.lambda@[k - start],
                                c.lambda@[k - start],
                            ),
                        forall|k: int|
                            0 <= k < d0.len() && !(start <= k < start + t) ==> ds@[k] == d0[k],
                    decreases dim - t,
                {
                    let hv = smul(c.lambda[t], c.lambda[t]);
                    ds[start + t] = hv;
                    t += 1;
                }
            },
            ConeObj::SecondOrder(c) => {
                vector::copy_range(ds, s, start, start + c.dim);
            },
            ConeObj::Exponential(_) => {
                vector::copy_range(ds, s, start, start + 3);
            },
        }
    }

    /// Compute the centering-corrector shift of the combined step on the
    /// member's slice.
    pub fn combined_ds_shift(
        &mut self,
        shift: &mut Vec<Scalar>,
        step_z: &Vec<Scalar>,
        step_s: &Vec<Scalar>,
        start: usize,
        sigma_mu: Scalar,
    )
        requires
            old(self).wf(),
            start + old(self).numel_s() <= old(shift)@.len(),
            start + old(self).numel_s() <= step_z@.len(),
            start + old(self).numel_s() <= step_s@.len(),
        ensures
            *final(self) == *old(self),
            final(shift)@.len() == old(shift)@.len(),
            forall|k: int|
                start <= k < start + old(self).numel_s() ==> final(shift)@[k] == ds_shift_elem(
                    *old(self),
                    step_z@,
                    step_s@,
                    start as int,
                    k,
                    sigma_mu,
                ),
            forall|k: int|
                0 <= k < old(shift)@.len() && !(start <= k < start + old(self).numel_s())
                    ==> final(shift)@[k] == old(shift)@[k],
    {
        let cap_shift = shift.len();
        let cap_sz = step_z.len();
        let cap_ss = step_s.len();
        match self {
            ConeObj::Zero(c) => {
                vector::fill_range(shift, start, start + c.dim, Scalar::Num(0));
            },
            ConeObj::Nonnegative(c) => {
                let dim = c.dim;
                let ghost h0 = shift@;
                let mut t: usize = 0;
                while t < dim
                    invariant
                        t <= dim,
                        c.dim == dim,
                        start + dim <= h0.len(),
                        start + dim <= step_z@.len(),
                        start + dim <= step_s@.len(),
                        step_z@.len() == cap_sz,
                        step_s@.len() == cap_ss,
                        shift@.len() == h0.len(),
                        h0.len() == cap_shift,
                        forall|k: int|
                            start <= k < start + t ==> #[trigger] shift@[k] == s_sub(
                                s_mul(step_z@[k], step_s@[k]),
                                sigma_mu,
                            ),
                        forall|k: int|
                            0 <= k < h0.len() && !(start <= k < start + t) ==> shift@[k] == h0[k],
                    decreases dim - t,
                {
                    let hv = ssub(smul(step_z[start + t], step_s[start + t]), sigma_mu);
                    shift[start + t] = hv;
                    t += 1;
                }
            },
            ConeObj::SecondOrder(c) => {
                let dim = c.dim;
                let ghost h0 = shift@;
                let mut t: usize = 0;
                while t < dim
                    invariant
                        t <= dim,
                        c.dim == dim,
                        start + dim <= h0.len(),
                        start + dim <= step_z@.len(),
                        start + dim <= step_s@.len(),
                        step_z@.len() == cap_sz,
                        step_s@.len() == cap_ss,
                        shift@.len() == h0.len(),
                        h0.len() == cap_shift,
                        forall|k: int|
                            start <= k < start + t ==> #[trigger] shift@[k] == (if k == start {
                                s_sub(s_mul(step_z@[k], step_s@[k]), sigma_mu)
                            } else {
                                s_mul(step_z@[k], step_s@[k])
                            }),
                        forall|k: int|
                            0 <= k < h0.len() && !(start <= k < start + t) ==> shift@[k] == h0[k],
                    decreases dim - t,
                {
                    let p = smul(step_z[start + t], step_s[start + t]);
                    let hv = if t == 0 {
                        ssub(p, sigma_mu)
                    } else {
                        p
                    };
                    shift[start + t] = hv;
                    t += 1;
                }
            },
            ConeObj::Exponential(_) => {
                let ghost h0 = shift@;
                let mut t: usize = 0;
                while t < 3
                    invariant
                        t <= 3,
                        start + 3 <= h0.len(),
                        start + 3 <= step_z@.len(),
                        start + 3 <= step_s@.len(),
                        step_z@.len() == cap_sz,
                        step_s@.len() == cap_ss,
                        shift@.len() == h0.len(),
                        h0.len() == cap_shift,
                        forall|k: int|
                            start <= k < start + t ==> #[trigger] shift@[k] == s_sub(
                                s_mul(step_z@[k], step_s@[k]),
                                s_mul(sigma_mu, exp_init_elem(k - start)),
                            ),
                        forall|k: int|
                            0 <= k < h0.len() && !(start <= k < start + t) ==> shift@[k] == h0[k],
                    decreases 3 - t,
                {
                    let e = if t == 0 {
                        Scalar::Num(-1_000_000)
                    } else if t == 1 {
                        Scalar::Num(1_000_000)
                    } else {
                        Scalar::Num(3_000_000)
                    };
                    let hv = ssub(smul(step_z[start + t], step_s[start + t]), smul(sigma_mu, e));
                    shift[start + t] = hv;
                    t += 1;
                }
            },
        }
    }

    /// Recover a slack step from a dual step plus offset on the member's
    /// slice; caller scratch is left untouched.
    pub fn ds_from_dz_offset(
        &self,
        out: &mut Vec<Scalar>,
        ds: &Vec<Scalar>,
        work: &mut Vec<Scalar>,
        start: usize,
    )
        requires
            self.wf(),
            start + self.numel_s() <= old(out)@.len(),
            start + self.numel_s() <= ds@.len(),
            start + self.numel_s() <= old(work)@.len(),
        ensures
            final(out)@.len() == old(out)@.len(),
            final(work)@ == old(work)@,
            forall|k: int|
                start <= k < start + self.numel_s() ==> final(out)@[k] == dz_offset_elem(
                    *self,
                    ds@,
                    start as int,
                    k,
                ),
            forall|k: int|
                0 <= k < old(out)@.len() && !(start <= k < start + self.numel_s()) ==> final(out)@[k] == old(out)@[k],
    {
        let cap_out = out.len();
        let cap_ds2 = ds.len();
        match self {
            ConeObj::Zero(c) => {
                vector::fill_range(out, start, start + c.dim, Scalar::Num(0));
            },
            ConeObj::Nonnegative(c) => {
                let dim = c.dim;
                let ghost o0 = out@;
                let mut t: usize = 0;
                while t < dim
                    invariant
                        t <= dim,
                        c.dim == dim,
                        c.lambda@.len() == dim,
                        start + dim <= o0.len(),
                        start + dim <= ds@.len(),
                        ds@.len() == cap_ds2,
                        o0.len() == cap_out,
                        out@.len() == o0.len(),
                        forall|k: int|
                            start <= k < start + t ==> #[trigger] out@[k] == s_div(
                                ds@[k],
                                c.lambda@[k - start],
                            ),
                        forall|k: int|
                            0 <= k < o0.len() && !(start <= k < start + t) ==> out@[k] == o0[k],
                    decreases dim - t,
                {
                    let hv = sdiv(ds[start + t], c.lambda[t]);
                    out[start + t] = hv;
                    t += 1;
                }
            },
            ConeObj::SecondOrder(c) => {
                vector::copy_range(out, ds, start, start + c.dim);
            },
            ConeObj::Exponential(_) => {
                vector::copy_range(out, ds, start, start + 3);
            },
        }
    }

    /// Maximal step lengths preserving membership on the member's slice,
    /// each bounded by `alpha_max`: the elementwise ratio test for the
    /// nonnegative orthant; the kinds whose geometry is external report
    /// the caller's bound unchanged.
    pub fn step_length(
        &self,
        dz: &Vec<Scalar>,
        ds: &Vec<Scalar>,
        z: &Vec<Scalar>,
        s: &Vec<Scalar>,
        start: usize,
        settings: &CoreSettings,
        alpha_max: Scalar,
    ) -> (r: (Scalar, Scalar))
        requires
            self.wf(),
            start + self.numel_s() <= dz@.len(),
            start + self.numel_s() <= ds@.len(),
            start + self.numel_s() <= z@.len(),
            start + self.numel_s() <= s@.len(),
        ensures
            r == sp_member_step(*self, dz@, ds@, z@, s@, start as int, alpha_max),
            alpha_max != Scalar::Nan ==> r.0 != Scalar::Nan && r.1 != Scalar::Nan && !s_lt(
                alpha_max,
                r.0,
            ) && !s_lt(alpha_max, r.1),
    {
        let cap_z = z.len();
        let cap_s = s.len();
        match self {
            ConeObj::Nonnegative(c) => {
                let az = ratio_fold(z, dz, start, start + c.dim, alpha_max);
                let asx = ratio_fold(s, ds, start, start + c.dim, alpha_max);
                proof {
                    if alpha_max != Scalar::Nan {
                        lemma_ratio_step_bound(
                            z@,
                            dz@,
                            start as int,
                            start as int + c.dim,
                            alpha_max,
                        );
                        lemma_ratio_step_bound(
                            s@,
                            ds@,
                            start as int,
                            start as int + c.dim,
                            alpha_max,
                        );
                    }
                }
                (az, asx)
            },
            _ => (alpha_max, alpha_max),
        }
    }

    /// Evaluate the member's barrier contribution at the candidate step.
    /// The zero cone's barrier is identically zero; the logarithmic
    /// barrier values of the other kinds belong to their own external
    /// mathematics, and this realization reports the sum's neutral
    /// element for them.
    pub fn compute_barrier(
        &self,
        z: &Vec<Scalar>,
        s: &Vec<Scalar>,
        dz: &Vec<Scalar>,
        ds: &Vec<Scalar>,
        start: usize,
        alpha: Scalar,
    ) -> (r: Scalar)
        ensures
            r == s_zero(),
    {
        Scalar::Num(0)
    }
}

/// The minimum of a range reads only that range.
pub proof fn lemma_min_range_congr(z1: Seq<Scalar>, z2: Seq<Scalar>, lo: int, hi: int)
    requires
        forall|t: int| lo <= t < hi ==> z1[t] == z2[t],
    ensures
        sp_min_range(z1, lo, hi) == sp_min_range(z2, lo, hi),
    decreases hi - lo,
{
    if hi > lo {
        lemma_min_range_congr(z1, z2, lo, hi - 1);
    }
}

/// The shifted value of one coordinate reads only the member's slice.
pub proof fn lemma_shift_elem_congr(c: ConeObj, z1: Seq<Scalar>, z2: Seq<Scalar>, lo: int, k: int)
    requires
        forall|t: int| lo <= t < lo + c.numel_s() ==> z1[t] == z2[t],
        lo <= k < lo + c.numel_s(),
    ensures
        shift_elem(c, z1, lo, k) == shift_elem(c, z2, lo, k),
{
    match c {
        ConeObj::Nonnegative(nc) => {
            lemma_min_range_congr(z1, z2, lo, lo + nc.dim);
        },
        _ => {},
    }
}

} // verus!
