//! Sparse matrix kernel: compressed-sparse-column storage and its
//! linear-algebra operations.
//!
//! An `m` by `n` matrix is held as three coupled sequences: column
//! pointers (length `n + 1`, non-decreasing, first zero, last the number
//! of stored entries), row indices and values (parallel, one per stored
//! entry). Column `j` owns the entries at positions
//! `colptr[j] .. colptr[j + 1]`; no row ordering inside a column is
//! assumed.

use vstd::prelude::*;

use crate::scalar::{
    s_abs, s_add, s_max, s_mul, s_neg, s_neg_one, s_one, s_sub, s_zero, sabs, sadd, smax, smul,
    ssub, Scalar, SCALE,
};
use crate::vector;

verus! {

/// Orientation of a matrix-vector product: the matrix itself or its
/// transpose.
#[derive(Clone, Copy, Debug, PartialEq, Eq, Structural)]
pub enum MatrixShape {
    N,
    T,
}

/// A sparse matrix in compressed-sparse-column storage.
pub struct CscMatrix {
    /// Number of rows.
    pub m: usize,
    /// Number of columns.
    pub n: usize,
    /// Column pointers, length `n + 1`.
    pub colptr: Vec<usize>,
    /// Row index of each stored entry.
    pub rowval: Vec<usize>,
    /// Value of each stored entry.
    pub nzval: Vec<Scalar>,
}

impl CscMatrix {
    /// The structural invariant of the storage.
    pub open spec fn wf(self) -> bool {
        &&& self.colptr.len() == self.n + 1
        &&& self.colptr@[0] == 0
        &&& forall|t: int| 0 <= t < self.n ==> #[trigger] self.colptr@[t] <= self.colptr@[t + 1]
        &&& self.colptr@[self.n as int] == self.nzval.len()
        &&& self.rowval.len() == self.nzval.len()
        &&& forall|k: int| 0 <= k < self.rowval@.len() ==> self.rowval@[k] < self.m
    }
}

/// Non-decreasing column pointers compare across any index pair.
pub proof fn lemma_colptr_mono(c: Seq<usize>, i: int, j: int)
    requires
        forall|t: int| 0 <= t < c.len() - 1 ==> #[trigger] c[t] <= c[t + 1],
        0 <= i <= j < c.len(),
    ensures
        c[i] <= c[j],
    decreases j - i,
{
    if i < j {
        lemma_colptr_mono(c, i, j - 1);
    }
}

/// The column that owns the stored entry at flat position `k`.
pub open spec fn entry_col(c: Seq<usize>, k: int) -> int {
    choose|j: int| 0 <= j < c.len() - 1 && #[trigger] c[j] <= k < c[j + 1]
}

/// A flat position inside the pointer bracket of column `j` belongs to
/// column `j` and to no other.
pub proof fn lemma_entry_col_at(c: Seq<usize>, j: int, k: int)
    requires
        forall|t: int| 0 <= t < c.len() - 1 ==> #[trigger] c[t] <= c[t + 1],
        0 <= j < c.len() - 1,
        c[j] <= k < c[j + 1],
    ensures
        entry_col(c, k) == j,
{
    assert(exists|t: int| 0 <= t < c.len() - 1 && #[trigger] c[t] <= k < c[t + 1]);
    let j2 = entry_col(c, k);
    if j2 < j {
        lemma_colptr_mono(c, j2 + 1, j);
        assert(false);
    }
    if j2 > j {
        lemma_colptr_mono(c, j + 1, j2);
        assert(false);
    }
}

/// Fold of absolute values over the flat entry range `[lo, hi)` into a
/// running maximum `acc`.
pub open spec fn sp_absmax_range(nz: Seq<Scalar>, lo: int, hi: int, acc: Scalar) -> Scalar
    decreases hi - lo,
{
    if hi <= lo {
        acc
    } else {
        s_max(sp_absmax_range(nz, lo, hi - 1, acc), s_abs(nz[hi - 1]))
    }
}

/// Row-maxima sweep: entry `k - 1` raises the running maximum of its row.
pub open spec fn sp_row_sweep(rv: Seq<usize>, nz: Seq<Scalar>, acc: Seq<Scalar>, k: int) -> Seq<
    Scalar,
>
    decreases k,
{
    if k <= 0 {
        acc
    } else {
        let prev = sp_row_sweep(rv, nz, acc, k - 1);
        let r = rv[k - 1] as int;
        prev.update(r, s_max(prev[r], s_abs(nz[k - 1])))
    }
}

/// Symmetric sweep: entry `k - 1` raises the running maxima of both its
/// column and its row.
pub open spec fn sp_sym_sweep(
    cp: Seq<usize>,
    rv: Seq<usize>,
    nz: Seq<Scalar>,
    acc: Seq<Scalar>,
    k: int,
) -> Seq<Scalar>
    decreases k,
{
    if k <= 0 {
        acc
    } else {
        let prev = sp_sym_sweep(cp, rv, nz, acc, k - 1);
        let j = entry_col(cp, k - 1);
        let a = s_abs(nz[k - 1]);
        let n1 = prev.update(j, s_max(prev[j], a));
        let r = rv[k - 1] as int;
        n1.update(r, s_max(n1[r], a))
    }
}

/// The `b*y` phase of a product, with the exact-case branches for `b` in
/// `{0, 1, -1}`; with `b == 0` the old `y` is never read.
pub open spec fn sp_bphase(y: Seq<Scalar>, b: Scalar) -> Seq<Scalar> {
    if b == s_zero() {
        Seq::new(y.len(), |i: int| s_zero())
    } else if b == s_one() {
        y
    } else if b == s_neg_one() {
        Seq::new(y.len(), |i: int| s_neg(y[i]))
    } else {
        Seq::new(y.len(), |i: int| s_mul(y[i], b))
    }
}

/// One accumulation step of a product, with the exact-case branches for
/// `a` in `{1, -1}` that skip the extra multiply.
pub open spec fn sp_gemv_upd(yv: Scalar, a: Scalar, nz: Scalar, xj: Scalar) -> Scalar {
    if a == s_one() {
        s_add(yv, s_mul(nz, xj))
    } else if a == s_neg_one() {
        s_sub(yv, s_mul(nz, xj))
    } else {
        s_add(yv, s_mul(s_mul(a, nz), xj))
    }
}

/// Accumulation sweep of `a*A*x` over the first `k` stored entries.
pub open spec fn sp_sweep_n(
    cp: Seq<usize>,
    rv: Seq<usize>,
    nz: Seq<Scalar>,
    x: Seq<Scalar>,
    a: Scalar,
    y: Seq<Scalar>,
    k: int,
) -> Seq<Scalar>
    decreases k,
{
    if k <= 0 {
        y
    } else {
        let prev = sp_sweep_n(cp, rv, nz, x, a, y, k - 1);
        let row = rv[k - 1] as int;
        prev.update(row, sp_gemv_upd(prev[row], a, nz[k - 1], x[entry_col(cp, k - 1)]))
    }
}

/// Accumulation sweep of `a*A^T*x` over the first `k` stored entries.
pub open spec fn sp_sweep_t(
    cp: Seq<usize>,
    rv: Seq<usize>,
    nz: Seq<Scalar>,
    x: Seq<Scalar>,
    a: Scalar,
    y: Seq<Scalar>,
    k: int,
) -> Seq<Scalar>
    decreases k,
{
    if k <= 0 {
        y
    } else {
        let prev = sp_sweep_t(cp, rv, nz, x, a, y, k - 1);
        let j = entry_col(cp, k - 1);
        prev.update(j, sp_gemv_upd(prev[j], a, nz[k - 1], x[rv[k - 1] as int]))
    }
}

/// The whole product `a*op(A)*x + b*y`.
pub open spec fn sp_gemv(
    mat: CscMatrix,
    shape: MatrixShape,
    x: Seq<Scalar>,
    a: Scalar,
    b: Scalar,
    y: Seq<Scalar>,
) -> Seq<Scalar> {
    let yb = sp_bphase(y, b);
    if a == s_zero() {
        yb
    } else if shape == MatrixShape::N {
        sp_sweep_n(mat.colptr@, mat.rowval@, mat.nzval@, x, a, yb, mat.nzval@.len() as int)
    } else {
        sp_sweep_t(mat.colptr@, mat.rowval@, mat.nzval@, x, a, yb, mat.nzval@.len() as int)
    }
}

/// Apply the `b*y` phase in place.
fn apply_bphase(y: &mut Vec<Scalar>, b: Scalar)
    ensures
        final(y)@ == sp_bphase(old(y)@, b),
{
    if b == Scalar::Num(0) {
        vector::fill(y, Scalar::Num(0));
        proof {
            assert(y@ =~= sp_bphase(old(y)@, b));
        }
    } else if b == Scalar::Num(SCALE) {
    } else if b == Scalar::Num(-1_000_000) {
        vector::negate(y);
        proof {
            assert(y@ =~= sp_bphase(old(y)@, b));
        }
    } else {
        vector::scale(y, b);
        proof {
            assert(y@ =~= sp_bphase(old(y)@, b));
        }
    }
}

/// Sparse product without transpose: `y := a*A*x + b*y`.
#[allow(non_snake_case)]
pub fn _csc_axpby_N(mat: &CscMatrix, y: &mut Vec<Scalar>, x: &Vec<Scalar>, a: Scalar, b: Scalar)
    requires
        mat.wf(),
        x@.len() == mat.n,
        old(y)@.len() == mat.m,
    ensures
        final(y)@ == sp_gemv(*mat, MatrixShape::N, x@, a, b, old(y)@),
{
    apply_bphase(y, b);
    if a == Scalar::Num(0) {
        return ;
    }
    let ghost yb = y@;
    let ghost cp = mat.colptr@;
    let ghost rv = mat.rowval@;
    let ghost nz = mat.nzval@;
    let n = mat.n;
    let mut j: usize = 0;
    while j < n
        invariant
            mat.wf(),
            n == mat.n,
            j <= n,
            x@.len() == mat.n,
            yb.len() == mat.m,
            y@.len() == mat.m,
            cp == mat.colptr@,
            rv == mat.rowval@,
            nz == mat.nzval@,
            y@ == sp_sweep_n(cp, rv, nz, x@, a, yb, cp[j as int] as int),
        decreases n - j,
    {
        let lo = mat.colptr[j];
        let hi = mat.colptr[j + 1];
        proof {
            lemma_colptr_mono(cp, j + 1 as int, n as int);
        }
        let mut k: usize = lo;
        while k < hi
            invariant
                mat.wf(),
                n == mat.n,
                j < n,
                x@.len() == mat.n,
                yb.len() == mat.m,
                y@.len() == mat.m,
                cp == mat.colptr@,
                rv == mat.rowval@,
                nz == mat.nzval@,
                lo == cp[j as int],
                hi == cp[j as int + 1],
                lo <= k <= hi,
                hi <= nz.len(),
                y@ == sp_sweep_n(cp, rv, nz, x@, a, yb, k as int),
            decreases hi - k,
        {
            proof {
                lemma_entry_col_at(cp, j as int, k as int);
            }
            let row = mat.rowval[k];
            let t = if a == Scalar::Num(SCALE) {
                sadd(y[row], smul(mat.nzval[k], x[j]))
            } else if a == Scalar::Num(-1_000_000) {
                ssub(y[row], smul(mat.nzval[k], x[j]))
            } else {
                sadd(y[row], smul(smul(a, mat.nzval[k]), x[j]))
            };
            y[row] = t;
            k += 1;
        }
        j += 1;
    }
}

/// Sparse product with transpose: `y := a*A^T*x + b*y`.
#[allow(non_snake_case)]
pub fn _csc_axpby_T(mat: &CscMatrix, y: &mut Vec<Scalar>, x: &Vec<Scalar>, a: Scalar, b: Scalar)
    requires
        mat.wf(),
        x@.len() == mat.m,
        old(y)@.len() == mat.n,
    ensures
        final(y)@ == sp_gemv(*mat, MatrixShape::T, x@, a, b, old(y)@),
{
    apply_bphase(y, b);
    if a == Scalar::Num(0) {
        return ;
    }
    let ghost yb = y@;
    let ghost cp = mat.colptr@;
    let ghost rv = mat.rowval@;
    let ghost nz = mat.nzval@;
    let n = mat.n;
    let mut j: usize = 0;
    while j < n
        invariant
            mat.wf(),
            n == mat.n,
            j <= n,
            x@.len() == mat.m,
            yb.len() == mat.n,
            y@.len() == mat.n,
            cp == mat.colptr@,
            rv == mat.rowval@,
            nz == mat.nzval@,
            y@ == sp_sweep_t(cp, rv, nz, x@, a, yb, cp[j as int] as int),
        decreases n - j,
    {
        let lo = mat.colptr[j];
        let hi = mat.colptr[j + 1];
        proof {
            lemma_colptr_mono(cp, j + 1 as int, n as int);
        }
        let mut k: usize = lo;
        while k < hi
            invariant
                mat.wf(),
                n == mat.n,
                j < n,
                x@.len() == mat.m,
                yb.len() == mat.n,
                y@.len() == mat.n,
                cp == mat.colptr@,
                rv == mat.rowval@,
                nz == mat.nzval@,
                lo == cp[j as int],
                hi == cp[j as int + 1],
                lo <= k <= hi,
                hi <= nz.len(),
                y@ == sp_sweep_t(cp, rv, nz, x@, a, yb, k as int),
            decreases hi - k,
        {
            proof {
                lemma_entry_col_at(cp, j as int, k as int);
            }
            let row = mat.rowval[k];
            let t = if a == Scalar::Num(SCALE) {
                sadd(y[j], smul(mat.nzval[k], x[row]))
            } else if a == Scalar::Num(-1_000_000) {
                ssub(y[j], smul(mat.nzval[k], x[row]))
            } else {
                sadd(y[j], smul(smul(a, mat.nzval[k]), x[row]))
            };
            y[j] = t;
            k += 1;
        }
        j += 1;
    }
}

impl CscMatrix {
    /// Number of rows.
    pub fn nrows(&self) -> (r: usize)
        ensures
            r == self.m,
    {
        self.m
    }

    /// Number of columns.
    pub fn ncols(&self) -> (r: usize)
        ensures
            r == self.n,
    {
        self.n
    }

    /// Whether the matrix is square.
    pub fn is_square(&self) -> (r: bool)
        ensures
            r == (self.m == self.n),
    {
        self.m == self.n
    }

    /// Multiply every stored value by `c`.
    pub fn scale(&mut self, c: Scalar)
        ensures
            final(self).m == old(self).m,
            final(self).n == old(self).n,
            final(self).colptr@ == old(self).colptr@,
            final(self).rowval@ == old(self).rowval@,
            final(self).nzval@.len() == old(self).nzval@.len(),
            forall|k: int|
                0 <= k < final(self).nzval@.len() ==> final(self).nzval@[k] == s_mul(
                    old(self).nzval@[k],
                    c,
                ),
    {
        vector::scale(&mut self.nzval, c);
    }

    /// Per column, the maximum absolute value among its stored entries,
    /// accumulated into the caller's running values.
    pub fn col_norms_no_reset(&self, norms: &mut Vec<Scalar>)
        requires
            self.wf(),
            old(norms)@.len() == self.n,
        ensures
            final(norms)@.len() == self.n,
            forall|i: int|
                0 <= i < self.n ==> final(norms)@[i] == sp_absmax_range(
                    self.nzval@,
                    self.colptr@[i] as int,
                    self.colptr@[i + 1] as int,
                    old(norms)@[i],
                ),
    {
        let ghost n0 = norms@;
        let n = self.n;
        let mut i: usize = 0;
        while i < n
            invariant
                self.wf(),
                n == self.n,
                i <= n,
                n0.len() == self.n,
                norms@.len() == self.n,
                forall|t: int|
                    0 <= t < i ==> norms@[t] == sp_absmax_range(
                        self.nzval@,
                        self.colptr@[t] as int,
                        self.colptr@[t + 1] as int,
                        n0[t],
                    ),
                forall|t: int| i <= t < n ==> norms@[t] == n0[t],
            decreases n - i,
        {
            let lo = self.colptr[i];
            let hi = self.colptr[i + 1];
            proof {
                lemma_colptr_mono(self.colptr@, i + 1 as int, n as int);
            }
            let mut acc = norms[i];
            let mut k: usize = lo;
            while k < hi
                invariant
                    self.wf(),
                    i < n,
                    n == self.n,
                    lo == self.colptr@[i as int],
                    hi == self.colptr@[i as int + 1],
                    lo <= k <= hi,
                    hi <= self.nzval@.len(),
                    norms@.len() == self.n,
                    acc == sp_absmax_range(self.nzval@, lo as int, k as int, norms@[i as int]),
                decreases hi - k,
            {
                acc = smax(acc, sabs(self.nzval[k]));
                k += 1;
            }
            norms[i] = acc;
            i += 1;
        }
    }

    /// Per column, the maximum absolute value among its stored entries.
    pub fn col_norms(&self, norms: &mut Vec<Scalar>)
        requires
            self.wf(),
            old(norms)@.len() == self.n,
        ensures
            final(norms)@.len() == self.n,
            forall|i: int|
                0 <= i < self.n ==> final(norms)@[i] == sp_absmax_range(
                    self.nzval@,
                    self.colptr@[i] as int,
                    self.colptr@[i + 1] as int,
                    s_zero(),
                ),
    {
        vector::fill(norms, Scalar::Num(0));
        self.col_norms_no_reset(norms);
    }

    /// Row-maxima accumulation over the caller's running values.
    pub fn row_norms_no_reset(&self, norms: &mut Vec<Scalar>)
        requires
            self.wf(),
            old(norms)@.len() == self.m,
        ensures
            final(norms)@ == sp_row_sweep(
                self.rowval@,
                self.nzval@,
                old(norms)@,
                self.nzval@.len() as int,
            ),
    {
        let ghost n0 = norms@;
        let nnz = self.nzval.len();
        let mut k: usize = 0;
        while k < nnz
            invariant
                self.wf(),
                nnz == self.nzval@.len(),
                k <= nnz,
                n0.len() == self.m,
                norms@.len() == self.m,
                norms@ == sp_row_sweep(self.rowval@, self.nzval@, n0, k as int),
            decreases nnz - k,
        {
            let r = self.rowval[k];
            let t = smax(norms[r], sabs(self.nzval[k]));
            norms[r] = t;
            k += 1;
        }
    }

    /// Per row, the maximum absolute value among its stored entries.
    pub fn row_norms(&self, norms: &mut Vec<Scalar>)
        requires
            self.wf(),
            old(norms)@.len() == self.m,
        ensures
            final(norms)@ == sp_row_sweep(
                self.rowval@,
                self.nzval@,
                Seq::new(self.m as nat, |i: int| s_zero()),
                self.nzval@.len() as int,
            ),
    {
        vector::fill(norms, Scalar::Num(0));
        proof {
            assert(norms@ =~= Seq::new(self.m as nat, |i: int| s_zero()));
        }
        self.row_norms_no_reset(norms);
    }

    /// Symmetric-by-convention maxima: each stored entry raises both its
    /// column and its row maximum, for use when only a triangle is stored.
    pub fn col_norms_sym_no_reset(&self, norms: &mut Vec<Scalar>)
        requires
            self.wf(),
            self.m == self.n,
            old(norms)@.len() == self.n,
        ensures
            final(norms)@ == sp_sym_sweep(
                self.colptr@,
                self.rowval@,
                self.nzval@,
                old(norms)@,
                self.nzval@.len() as int,
            ),
    {
        let ghost n0 = norms@;
        let n = self.n;
        let mut i: usize = 0;
        while i < n
            invariant
                self.wf(),
                self.m == self.n,
                n == self.n,
                i <= n,
                n0.len() == self.n,
                norms@.len() == self.n,
                norms@ == sp_sym_sweep(
                    self.colptr@,
                    self.rowval@,
                    self.nzval@,
                    n0,
                    self.colptr@[i as int] as int,
                ),
            decreases n - i,
        {
            let lo = self.colptr[i];
            let hi = self.colptr[i + 1];
            proof {
                lemma_colptr_mono(self.colptr@, i + 1 as int, n as int);
            }
            let mut k: usize = lo;
            while k < hi
                invariant
                    self.wf(),
                    self.m == self.n,
                    n == self.n,
                    i < n,
                    n0.len() == self.n,
                    norms@.len() == self.n,
                    lo == self.colptr@[i as int],
                    hi == self.colptr@[i as int + 1],
                    lo <= k <= hi,
                    hi <= self.nzval@.len(),
                    norms@ == sp_sym_sweep(
                        self.colptr@,
                        self.rowval@,
                        self.nzval@,
                        n0,
                        k as int,
                    ),
                decreases hi - k,
            {
                proof {
                    lemma_entry_col_at(self.colptr@, i as int, k as int);
                }
                let tmp = sabs(self.nzval[k]);
                let r = self.rowval[k];
                let t1 = smax(norms[i], tmp);
                norms[i] = t1;
                let t2 = smax(norms[r], tmp);
                norms[r] = t2;
                k += 1;
            }
            i += 1;
        }
    }

    /// Symmetric-by-convention maxima from a zero start.
    pub fn col_norms_sym(&self, norms: &mut Vec<Scalar>)
        requires
            self.wf(),
            self.m == self.n,
            old(norms)@.len() == self.n,
        ensures
            final(norms)@ == sp_sym_sweep(
                self.colptr@,
                self.rowval@,
                self.nzval@,
                Seq::new(self.n as nat, |i: int| s_zero()),
                self.nzval@.len() as int,
            ),
    {
        vector::fill(norms, Scalar::Num(0));
        proof {
            assert(norms@ =~= Seq::new(self.n as nat, |i: int| s_zero()));
        }
        self.col_norms_sym_no_reset(norms);
    }

    /// Left diagonal scaling: each stored entry is multiplied by the `l`
    /// weight of its row.
    pub fn lmul_diag(&mut self, l: &Vec<Scalar>)
        requires
            old(self).wf(),
            l@.len() == old(self).m,
        ensures
            final(self).m == old(self).m,
            final(self).n == old(self).n,
            final(self).colptr@ == old(self).colptr@,
            final(self).rowval@ == old(self).rowval@,
            final(self).nzval@.len() == old(self).nzval@.len(),
            forall|k: int|
                0 <= k < final(self).nzval@.len() ==> final(self).nzval@[k] == s_mul(
                    old(self).nzval@[k],
                    l@[old(self).rowval@[k] as int],
                ),
    {
        let ghost z0 = self.nzval@;
        let ghost cp0 = self.colptr@;
        let ghost rv0 = self.rowval@;
        let ghost m0 = self.m;
        let ghost n0 = self.n;
        let nnz = self.nzval.len();
        let mut k: usize = 0;
        while k < nnz
            invariant
                self.wf(),
                self.colptr@ == cp0,
                self.rowval@ == rv0,
                self.m == m0,
                self.n == n0,
                l@.len() == self.m,
                nnz == self.nzval@.len(),
                z0.len() == nnz,
                k <= nnz,
                forall|t: int| 0 <= t < k ==> self.nzval@[t] == s_mul(z0[t], l@[self.rowval@[t] as int]),
                forall|t: int| k <= t < nnz ==> self.nzval@[t] == z0[t],
        decreases nnz - k,
        {
            let r = self.rowval[k];
            let t = smul(self.nzval[k], l[r]);
            self.nzval[k] = t;
            k += 1;
        }
    }

    /// Right diagonal scaling: each stored entry is multiplied by the `r`
    /// weight of its column, column block by column block.
    #[verifier::rlimit(50)]
    pub fn rmul_diag(&mut self, r: &Vec<Scalar>)
        requires
            old(self).wf(),
            r@.len() == old(self).n,
        ensures
            final(self).m == old(self).m,
            final(self).n == old(self).n,
            final(self).colptr@ == old(self).colptr@,
            final(self).rowval@ == old(self).rowval@,
            final(self).nzval@.len() == old(self).nzval@.len(),
            forall|k: int|
                0 <= k < final(self).nzval@.len() ==> final(self).nzval@[k] == s_mul(
                    old(self).nzval@[k],
                    r@[entry_col(old(self).colptr@, k)],
                ),
    {
        let ghost z0 = self.nzval@;
        let ghost cp = self.colptr@;
        let ghost rv0 = self.rowval@;
        let ghost m0 = self.m;
        let n = self.n;
        let mut j: usize = 0;
        while j < n
            invariant
                self.wf(),
                r@.len() == self.n,
                n == self.n,
                j <= n,
                cp == self.colptr@,
                rv0 == self.rowval@,
                m0 == self.m,
                z0.len() == self.nzval@.len(),
                forall|t: int|
                    0 <= t < cp[j as int] ==> self.nzval@[t] == s_mul(z0[t], r@[entry_col(cp, t)]),
                forall|t: int| cp[j as int] <= t < z0.len() ==> self.nzval@[t] == z0[t],
            decreases n - j,
        {
            let lo = self.colptr[j];
            let hi = self.colptr[j + 1];
            proof {
                lemma_colptr_mono(cp, j + 1 as int, n as int);
            }
            let mut k: usize = lo;
            while k < hi
                invariant
                    self.wf(),
                    r@.len() == self.n,
                    n == self.n,
                    j < n,
                    cp == self.colptr@,
                    rv0 == self.rowval@,
                    m0 == self.m,
                    z0.len() == self.nzval@.len(),
                    lo == cp[j as int],
                    hi == cp[j as int + 1],
                    lo <= k <= hi,
                    hi <= z0.len(),
                    forall|t: int|
                        0 <= t < k ==> self.nzval@[t] == s_mul(z0[t], r@[entry_col(cp, t)]),
                    forall|t: int| k <= t < z0.len() ==> self.nzval@[t] == z0[t],
                decreases hi - k,
            {
                proof {
                    lemma_entry_col_at(cp, j as int, k as int);
                }
                let t = smul(self.nzval[k], r[j]);
                self.nzval[k] = t;
                k += 1;
            }
            j += 1;
        }
    }

    /// Two-sided diagonal scaling for equilibration: each stored entry is
    /// multiplied by the product of its row and column weights.
    #[verifier::rlimit(50)]
    pub fn lrmul_diag(&mut self, l: &Vec<Scalar>, r: &Vec<Scalar>)
        requires
            old(self).wf(),
            l@.len() == old(self).m,
            r@.len() == old(self).n,
        ensures
            final(self).m == old(self).m,
            final(self).n == old(self).n,
            final(self).colptr@ == old(self).colptr@,
            final(self).rowval@ == old(self).rowval@,
            final(self).nzval@.len() == old(self).nzval@.len(),
            forall|k: int|
                0 <= k < final(self).nzval@.len() ==> final(self).nzval@[k] == s_mul(
                    old(self).nzval@[k],
                    s_mul(l@[old(self).rowval@[k] as int], r@[entry_col(old(self).colptr@, k)]),
                ),
    {
        let ghost z0 = self.nzval@;
        let ghost cp = self.colptr@;
        let ghost rv0 = self.rowval@;
        let ghost m0 = self.m;
        let n = self.n;
        let mut j: usize = 0;
        while j < n
            invariant
                self.wf(),
                l@.len() == self.m,
                r@.len() == self.n,
                n == self.n,
                j <= n,
                cp == self.colptr@,
                rv0 == self.rowval@,
                m0 == self.m,
                z0.len() == self.nzval@.len(),
                forall|t: int|
                    0 <= t < cp[j as int] ==> self.nzval@[t] == s_mul(
                        z0[t],
                        s_mul(l@[self.rowval@[t] as int], r@[entry_col(cp, t)]),
                    ),
                forall|t: int| cp[j as int] <= t < z0.len() ==> self.nzval@[t] == z0[t],
            decreases n - j,
        {
            let lo = self.colptr[j];
            let hi = self.colptr[j + 1];
            proof {
                lemma_colptr_mono(cp, j + 1 as int, n as int);
            }
            let mut k: usize = lo;
            while k < hi
                invariant
                    self.wf(),
                    l@.len() == self.m,
                    r@.len() == self.n,
                    n == self.n,
                    j < n,
                    cp == self.colptr@,
                    rv0 == self.rowval@,
                    m0 == self.m,
                    z0.len() == self.nzval@.len(),
                    lo == cp[j as int],
                    hi == cp[j as int + 1],
                    lo <= k <= hi,
                    hi <= z0.len(),
                    forall|t: int|
                        0 <= t < k ==> self.nzval@[t] == s_mul(
                            z0[t],
                            s_mul(l@[self.rowval@[t] as int], r@[entry_col(cp, t)]),
                        ),
                    forall|t: int| k <= t < z0.len() ==> self.nzval@[t] == z0[t],
                decreases hi - k,
            {
                proof {
                    lemma_entry_col_at(cp, j as int, k as int);
                }
                let row = self.rowval[k];
                let w = smul(l[row], r[j]);
                let t = smul(self.nzval[k], w);
                self.nzval[k] = t;
                k += 1;
            }
            j += 1;
        }
    }

    /// Matrix-vector product `y := a*op(A)*x + b*y`, where `op` is the
    /// identity for orientation `N` and the transpose for orientation `T`.
    pub fn gemv(
        &self,
        y: &mut Vec<Scalar>,
        trans: MatrixShape,
        x: &Vec<Scalar>,
        a: Scalar,
        b: Scalar,
    )
        requires
            self.wf(),
            trans == MatrixShape::N ==> x@.len() == self.n && old(y)@.len() == self.m,
            trans == MatrixShape::T ==> x@.len() == self.m && old(y)@.len() == self.n,
        ensures
            final(y)@ == sp_gemv(*self, trans, x@, a, b, old(y)@),
    {
        match trans {
            MatrixShape::N => _csc_axpby_N(self, y, x, a, b),
            MatrixShape::T => _csc_axpby_T(self, y, x, a, b),
        }
    }
}

} // verus!
