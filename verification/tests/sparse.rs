use conic_core::scalar::Scalar;
use conic_core::sparse::{CscMatrix, MatrixShape};

fn num(x: i64) -> Scalar {
    Scalar::Num(x * 1_000_000)
}

fn diag22() -> CscMatrix {
    CscMatrix {
        m: 2,
        n: 2,
        colptr: vec![0, 1, 2],
        rowval: vec![0, 1],
        nzval: vec![num(2), num(3)],
    }
}

#[test]
fn gemv_diagonal_both_orientations() {
    let a = diag22();
    let x = vec![num(1), num(1)];
    let mut y = vec![num(0), num(0)];
    a.gemv(&mut y, MatrixShape::N, &x, num(1), num(0));
    assert_eq!(y, vec![num(2), num(3)]);
    let mut yt = vec![num(0), num(0)];
    a.gemv(&mut yt, MatrixShape::T, &x, num(1), num(0));
    assert_eq!(yt, vec![num(2), num(3)]);
}

#[test]
fn gemv_transpose_differs_off_diagonal() {
    // A = [[0, 2], [0, 0]] stored by columns.
    let a = CscMatrix { m: 2, n: 2, colptr: vec![0, 0, 1], rowval: vec![0], nzval: vec![num(2)] };
    let x = vec![num(1), num(1)];
    let mut y = vec![num(0), num(0)];
    a.gemv(&mut y, MatrixShape::N, &x, num(1), num(0));
    assert_eq!(y, vec![num(2), num(0)]);
    let mut yt = vec![num(0), num(0)];
    a.gemv(&mut yt, MatrixShape::T, &x, num(1), num(0));
    assert_eq!(yt, vec![num(0), num(2)]);
}

#[test]
fn gemv_fast_paths_and_general_case() {
    let a = diag22();
    let x = vec![num(1), num(1)];

    let mut y = vec![num(10), num(10)];
    a.gemv(&mut y, MatrixShape::N, &x, num(-1), num(1));
    assert_eq!(y, vec![num(8), num(7)]);

    let mut y = vec![num(10), num(10)];
    a.gemv(&mut y, MatrixShape::N, &x, num(1), num(-1));
    assert_eq!(y, vec![num(-8), num(-7)]);

    let mut y = vec![num(10), num(10)];
    a.gemv(&mut y, MatrixShape::N, &x, num(2), num(2));
    assert_eq!(y, vec![num(24), num(26)]);
}

#[test]
fn gemv_zero_coefficient_applies_only_b_phase() {
    let a = diag22();
    let x = vec![num(1), num(1)];
    let mut y = vec![num(5), Scalar::Nan];
    a.gemv(&mut y, MatrixShape::N, &x, num(0), num(0));
    assert_eq!(y, vec![num(0), num(0)]);
}

#[test]
fn matrix_properties_and_scale() {
    let mut a = diag22();
    assert_eq!(a.nrows(), 2);
    assert_eq!(a.ncols(), 2);
    assert!(a.is_square());
    a.scale(num(10));
    assert_eq!(a.nzval, vec![num(20), num(30)]);
}

#[test]
fn col_and_row_norms() {
    // A = [[1, -4], [-2, 0]] stored by columns.
    let a = CscMatrix {
        m: 2,
        n: 2,
        colptr: vec![0, 2, 3],
        rowval: vec![0, 1, 0],
        nzval: vec![num(1), num(-2), num(-4)],
    };
    let mut cn = vec![num(0), num(0)];
    a.col_norms(&mut cn);
    assert_eq!(cn, vec![num(2), num(4)]);
    let mut rn = vec![num(0), num(0)];
    a.row_norms(&mut rn);
    assert_eq!(rn, vec![num(4), num(2)]);
}

#[test]
fn no_reset_norms_accumulate_running_maxima() {
    let a = diag22();
    let mut cn = vec![num(5), num(1)];
    a.col_norms_no_reset(&mut cn);
    assert_eq!(cn, vec![num(5), num(3)]);
    let mut rn = vec![num(0), num(7)];
    a.row_norms_no_reset(&mut rn);
    assert_eq!(rn, vec![num(2), num(7)]);
}

#[test]
fn symmetric_norms_update_row_and_column() {
    // Upper triangle of [[1, 5], [5, 2]]: entries (0,0), (0,1), (1,1).
    let a = CscMatrix {
        m: 2,
        n: 2,
        colptr: vec![0, 1, 3],
        rowval: vec![0, 0, 1],
        nzval: vec![num(1), num(5), num(2)],
    };
    let mut cn = vec![num(0), num(0)];
    a.col_norms_sym(&mut cn);
    assert_eq!(cn, vec![num(5), num(5)]);
}

#[test]
fn diagonal_scalings() {
    let mk = || CscMatrix {
        m: 2,
        n: 2,
        colptr: vec![0, 2, 3],
        rowval: vec![0, 1, 0],
        nzval: vec![num(1), num(2), num(3)],
    };
    let l = vec![num(10), num(100)];
    let r = vec![num(2), num(5)];

    let mut a = mk();
    a.lmul_diag(&l);
    assert_eq!(a.nzval, vec![num(10), num(200), num(30)]);

    let mut a = mk();
    a.rmul_diag(&r);
    assert_eq!(a.nzval, vec![num(2), num(4), num(15)]);

    let mut a = mk();
    a.lrmul_diag(&l, &r);
    assert_eq!(a.nzval, vec![num(20), num(400), num(150)]);
}
