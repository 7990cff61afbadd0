use egobox::matrix::Matrix;
use egobox::scalar::Scalar;
use egobox::utils::constant;
use egobox::utils::linear;
use egobox::utils::pair_indices;
use egobox::utils::DistanceMatrix;
use egobox::utils::NormalizedMatrix;

fn val(x: f64) -> Scalar {
    Scalar::from_bits(x.to_bits())
}

fn mat(nrows: usize, ncols: usize, xs: &[f64]) -> Matrix {
    Matrix::new(nrows, ncols, xs.iter().map(|x| val(*x)).collect()).unwrap()
}

fn unpack(m: &Matrix) -> Vec<f64> {
    m.as_slice().iter().map(|s| f64::from_bits(s.to_bits())).collect()
}

fn abs_diff(a: Scalar, b: Scalar) -> Scalar {
    val((f64::from_bits(a.to_bits()) - f64::from_bits(b.to_bits())).abs())
}

#[test]
fn pair_indices_lists_the_upper_triangle_in_order() {
    assert_eq!(pair_indices(0), vec![]);
    assert_eq!(pair_indices(1), vec![]);
    assert_eq!(pair_indices(2), vec![(0, 1)]);
    assert_eq!(pair_indices(4), vec![(0, 1), (0, 2), (0, 3), (1, 2), (1, 3), (2, 3)]);
}

#[test]
fn pair_indices_has_n_choose_two_entries() {
    for n in 0..30usize {
        let pairs = pair_indices(n);
        assert_eq!(pairs.len(), n * n.saturating_sub(1) / 2);
        for (k, (a, b)) in pairs.iter().enumerate() {
            assert!(a < b && *b < n);
            assert_eq!(k, a * (2 * n - a - 1) / 2 + (b - a - 1));
        }
    }
}

#[test]
fn distance_matrix_holds_the_differences_pair_by_pair() {
    let x = mat(3, 2, &[0.0, 1.0, 2.0, 5.0, -1.0, 1.5]);
    let dm = DistanceMatrix::new(&x, abs_diff).unwrap();
    assert_eq!(dm.n_obs(), 3);
    assert_eq!(dm.n_features(), 2);
    assert_eq!(dm.d_indices(), &vec![(0, 1), (0, 2), (1, 2)]);
    assert_eq!(unpack(dm.d()), vec![2.0, 4.0, 1.0, 0.5, 3.0, 3.5]);
    assert_eq!((dm.d().nrows(), dm.d().ncols()), (3, 2));
}

#[test]
fn distance_matrix_of_one_row_is_empty() {
    let x = mat(1, 3, &[0.0, 1.0, 2.0]);
    let dm = DistanceMatrix::new(&x, abs_diff).unwrap();
    assert_eq!(dm.n_obs(), 1);
    assert_eq!(dm.n_features(), 3);
    assert_eq!(dm.d().nrows(), 0);
    assert!(dm.d_indices().is_empty());
}

#[test]
fn distance_matrix_from_differences_checks_the_rows() {
    let d = mat(3, 1, &[0.7, 1.5, 0.8]);
    let dm = DistanceMatrix::from_differences(3, d).unwrap();
    assert_eq!(dm.n_obs(), 3);
    assert_eq!(dm.n_features(), 1);
    assert_eq!(unpack(dm.d()), vec![0.7, 1.5, 0.8]);
    assert!(DistanceMatrix::from_differences(4, mat(3, 1, &[0.7, 1.5, 0.8])).is_none());
    assert!(DistanceMatrix::from_differences(2, mat(3, 1, &[0.7, 1.5, 0.8])).is_none());
}

#[test]
fn normalized_matrix_checks_the_statistics() {
    let data = mat(2, 2, &[-1.0, 1.0, 1.0, -1.0]);
    let nm = NormalizedMatrix::from_parts(data, mat(1, 2, &[3.0, 4.0]), mat(1, 2, &[2.0, 0.5]))
        .unwrap();
    assert_eq!((nm.nrows(), nm.ncols()), (2, 2));
    assert_eq!(unpack(nm.data()), vec![-1.0, 1.0, 1.0, -1.0]);
    assert_eq!(unpack(nm.mean()), vec![3.0, 4.0]);
    assert_eq!(unpack(nm.std_dev()), vec![2.0, 0.5]);
    let data = mat(2, 2, &[-1.0, 1.0, 1.0, -1.0]);
    assert!(
        NormalizedMatrix::from_parts(data, mat(1, 1, &[3.0]), mat(1, 2, &[2.0, 0.5])).is_none()
    );
    let data = mat(2, 2, &[-1.0, 1.0, 1.0, -1.0]);
    assert!(
        NormalizedMatrix::from_parts(data, mat(2, 1, &[3.0, 4.0]), mat(1, 2, &[2.0, 0.5]))
            .is_none()
    );
    let data = mat(2, 2, &[-1.0, 1.0, 1.0, -1.0]);
    assert!(
        NormalizedMatrix::from_parts(data, mat(1, 2, &[3.0, 4.0]), mat(1, 3, &[2.0, 0.5, 1.0]))
            .is_none()
    );
}

#[test]
fn constant_basis_is_a_column_of_ones() {
    let f = constant(&mat(3, 2, &[0.0, 1.0, 2.0, 5.0, -1.0, 1.5]));
    assert_eq!((f.nrows(), f.ncols()), (3, 1));
    assert_eq!(unpack(&f), vec![1.0, 1.0, 1.0]);
}

#[test]
fn linear_basis_puts_ones_before_the_columns() {
    let f = linear(&mat(2, 2, &[0.5, 1.0, 2.0, 5.0])).unwrap();
    assert_eq!((f.nrows(), f.ncols()), (2, 3));
    assert_eq!(unpack(&f), vec![1.0, 0.5, 1.0, 1.0, 2.0, 5.0]);
}

#[test]
fn normalized_matrix_refuses_a_zero_deviation() {
    let data = mat(2, 2, &[-1.0, 1.0, 1.0, -1.0]);
    assert!(
        NormalizedMatrix::from_parts(data, mat(1, 2, &[3.0, 4.0]), mat(1, 2, &[2.0, 0.0]))
            .is_none()
    );
    let data = mat(2, 2, &[-1.0, 1.0, 1.0, -1.0]);
    assert!(
        NormalizedMatrix::from_parts(data, mat(1, 2, &[3.0, 4.0]), mat(1, 2, &[-0.0, 1.0]))
            .is_none()
    );
}
