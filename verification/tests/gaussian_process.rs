use egobox::errors::EgoboxError;
use egobox::gaussian_process::clamped_variances;
use egobox::gaussian_process::correlation_matrix;
use egobox::gaussian_process::differences_to_training;
use egobox::gaussian_process::ft_is_ill_conditioned;
use egobox::gaussian_process::ill_conditioning_error;
use egobox::gaussian_process::kernel_column;
use egobox::gaussian_process::objective_value;
use egobox::gaussian_process::scale_columns;
use egobox::gaussian_process::symmetric_matrix;
use egobox::gaussian_process::GaussianProcess;
use egobox::gaussian_process::GpHyperParams;
use egobox::gaussian_process::GpInnerParams;
use egobox::gaussian_process::MeanModel;
use egobox::matrix::Matrix;
use egobox::scalar::Scalar;
use egobox::utils::constant;
use egobox::utils::DistanceMatrix;
use egobox::utils::NormalizedMatrix;

fn s(x: f64) -> Scalar {
    Scalar::from_bits(x.to_bits())
}

fn f(x: Scalar) -> f64 {
    f64::from_bits(x.to_bits())
}

fn m(nrows: usize, ncols: usize, xs: &[f64]) -> Matrix {
    Matrix::new(nrows, ncols, xs.iter().map(|x| s(*x)).collect()).unwrap()
}

fn to_floats(a: &Matrix) -> Vec<f64> {
    a.as_slice().iter().map(|x| f(*x)).collect()
}

fn abs_difference(a: Scalar, b: Scalar) -> Scalar {
    s((f(a) - f(b)).abs())
}

fn difference(a: Scalar, b: Scalar) -> Scalar {
    s(f(a) - f(b))
}

fn standardize(v: Scalar, mean: Scalar, std: Scalar) -> Scalar {
    s((f(v) - f(mean)) / f(std))
}

fn squared_exponential(theta: &Vec<Scalar>, d: &Matrix, row: usize) -> Scalar {
    let mut sum = 0.0;
    for j in 0..d.ncols() {
        let dj = f(d.entry(row, j));
        sum += f(theta[j]) * dj * dj;
    }
    s((-sum).exp())
}

fn normalized(x: &[f64]) -> NormalizedMatrix {
    let n = x.len() as f64;
    let mean = x.iter().sum::<f64>() / n;
    let var = x.iter().map(|v| (v - mean) * (v - mean)).sum::<f64>() / (n - 1.0);
    let std = if var.sqrt() == 0.0 { 1.0 } else { var.sqrt() };
    let data: Vec<f64> = x.iter().map(|v| (v - mean) / std).collect();
    NormalizedMatrix::from_parts(m(x.len(), 1, &data), m(1, 1, &[mean]), m(1, 1, &[std])).unwrap()
}

fn cholesky(a: &Matrix) -> Vec<Vec<f64>> {
    let n = a.nrows();
    let mut l = vec![vec![0.0; n]; n];
    for i in 0..n {
        for j in 0..=i {
            let mut sum = f(a.entry(i, j));
            for k in 0..j {
                sum -= l[i][k] * l[j][k];
            }
            if i == j {
                assert!(sum > 0.0);
                l[i][j] = sum.sqrt();
            } else {
                l[i][j] = sum / l[j][j];
            }
        }
    }
    l
}

fn solve_lower(l: &Vec<Vec<f64>>, b: &[f64]) -> Vec<f64> {
    let n = b.len();
    let mut x = vec![0.0; n];
    for i in 0..n {
        let mut sum = b[i];
        for k in 0..i {
            sum -= l[i][k] * x[k];
        }
        x[i] = sum / l[i][i];
    }
    x
}

fn solve_lower_transposed(l: &Vec<Vec<f64>>, b: &[f64]) -> Vec<f64> {
    let n = b.len();
    let mut x = vec![0.0; n];
    for i in (0..n).rev() {
        let mut sum = b[i];
        for k in i + 1..n {
            sum -= l[k][i] * x[k];
        }
        x[i] = sum / l[i][i];
    }
    x
}

fn flatten(l: &Vec<Vec<f64>>) -> Vec<f64> {
    l.iter().flat_map(|row| row.iter().copied()).collect()
}

struct Toy {
    gp: GaussianProcess,
    chol: Vec<Vec<f64>>,
    norm_ft: f64,
}

fn toy() -> Toy {
    let xt = [0.5, 1.2, 2.0, 3.0, 4.0];
    let yt = [0.0, 1.0, 1.5, 0.5, 1.0];
    let n = xt.len();
    let xtrain = normalized(&xt);
    let ytrain = normalized(&yt);
    let theta = vec![s(5.62341325)];
    let dm = DistanceMatrix::new(xtrain.data(), abs_difference).unwrap();
    let r = kernel_column(&theta, dm.d(), squared_exponential);
    let r_mx = correlation_matrix(&dm, &r).unwrap();
    let chol = cholesky(&r_mx);
    let fx = to_floats(&constant(xtrain.data()));
    let ft = solve_lower(&chol, &fx);
    let yn = to_floats(ytrain.data());
    let y_t = solve_lower(&chol, &yn);
    let ftft: f64 = ft.iter().map(|v| v * v).sum();
    let fty: f64 = ft.iter().zip(y_t.iter()).map(|(a, b)| a * b).sum();
    let beta = fty / ftft;
    let rho: Vec<f64> = y_t.iter().zip(ft.iter()).map(|(y, t)| y - t * beta).collect();
    let gamma = solve_lower_transposed(&chol, &rho);
    let std_y = f(ytrain.std_dev().entry(0, 0));
    let sigma2 = rho.iter().map(|v| v * v).sum::<f64>() / n as f64 * std_y * std_y;
    let norm_ft = ftft.sqrt();
    let inner = GpInnerParams::new(
        vec![s(sigma2)],
        m(1, 1, &[beta]),
        m(n, 1, &gamma),
        m(n, n, &flatten(&chol)),
        m(n, 1, &ft),
        m(1, 1, &[norm_ft]),
    )
    .unwrap();
    let gp = GaussianProcess::new(theta, MeanModel::Constant, inner, xtrain, ytrain).unwrap();
    Toy { gp, chol, norm_ft }
}

#[test]
fn gp_predicts_values_on_toy_data() {
    let toy = toy();
    let gp = &toy.gp;
    let x = m(2, 1, &[1.0, 2.1]);
    assert_eq!(gp.check_input(&x), Ok(()));
    let corr = gp
        .compute_correlation(&x, standardize, difference, squared_exponential)
        .unwrap();
    assert_eq!((corr.nrows(), corr.ncols()), (2, 5));
    let beta = f(gp.inner_params().beta().entry(0, 0));
    let gamma = to_floats(gp.inner_params().gamma());
    let std_y = f(gp.ytrain().std_dev().entry(0, 0));
    let mean_y = f(gp.ytrain().mean().entry(0, 0));
    let expected = [0.6856779931432053, 1.4484644169993859];
    for i in 0..2 {
        let mut y = beta;
        for k in 0..5 {
            y += f(corr.entry(i, k)) * gamma[k];
        }
        let y = y * std_y + mean_y;
        assert!((y - expected[i]).abs() < 1e-6, "{} against {}", y, expected[i]);
    }
}

#[test]
fn gp_predicts_variances_on_toy_data() {
    let toy = toy();
    let gp = &toy.gp;
    let x = m(2, 1, &[1.0, 2.1]);
    let corr = gp
        .compute_correlation(&x, standardize, difference, squared_exponential)
        .unwrap();
    let ft = to_floats(gp.inner_params().ft());
    let sigma2 = f(gp.inner_params().sigma2()[0]);
    let mut mse = Vec::new();
    for i in 0..2 {
        let row: Vec<f64> = (0..5).map(|k| f(corr.entry(i, k))).collect();
        let rt = solve_lower(&toy.chol, &row);
        let lhs: f64 = ft.iter().zip(rt.iter()).map(|(a, b)| a * b).sum::<f64>() - 1.0;
        let u = lhs / toy.norm_ft;
        let b = 1.0 - rt.iter().map(|v| v * v).sum::<f64>() + u * u;
        mse.push(sigma2 * b);
    }
    let vars = clamped_variances(m(1, 2, &mse), 2).unwrap();
    assert_eq!((vars.nrows(), vars.ncols()), (2, 1));
    let expected = [0.03422835527498675, 0.014105203477142668];
    for i in 0..2 {
        let v = f(vars.entry(i, 0));
        assert!((v - expected[i]).abs() < 1e-6, "{} against {}", v, expected[i]);
        assert!(v >= 0.0);
    }
}

#[test]
fn gp_reproduces_the_training_outputs() {
    let toy = toy();
    let gp = &toy.gp;
    let xt = [0.5, 1.2, 2.0, 3.0, 4.0];
    let yt = [0.0, 1.0, 1.5, 0.5, 1.0];
    let x = m(5, 1, &xt);
    let corr = gp
        .compute_correlation(&x, standardize, difference, squared_exponential)
        .unwrap();
    let beta = f(gp.inner_params().beta().entry(0, 0));
    let gamma = to_floats(gp.inner_params().gamma());
    let std_y = f(gp.ytrain().std_dev().entry(0, 0));
    let mean_y = f(gp.ytrain().mean().entry(0, 0));
    for i in 0..5 {
        let mut y = beta;
        for k in 0..5 {
            y += f(corr.entry(i, k)) * gamma[k];
        }
        let y = y * std_y + mean_y;
        assert!((y - yt[i]).abs() < 1e-6);
    }
}

#[test]
fn basis_size_counts_the_basis_functions() {
    assert_eq!(MeanModel::Constant.basis_size(0), Some(1));
    assert_eq!(MeanModel::Constant.basis_size(7), Some(1));
    assert_eq!(MeanModel::Linear.basis_size(0), Some(1));
    assert_eq!(MeanModel::Linear.basis_size(3), Some(4));
    assert_eq!(MeanModel::Linear.basis_size(usize::MAX), None);
    assert_eq!(MeanModel::Quadratic.basis_size(0), Some(1));
    assert_eq!(MeanModel::Quadratic.basis_size(1), Some(3));
    assert_eq!(MeanModel::Quadratic.basis_size(2), Some(6));
    assert_eq!(MeanModel::Quadratic.basis_size(3), Some(10));
    assert_eq!(MeanModel::Quadratic.basis_size(usize::MAX), None);
    assert_eq!(MeanModel::Quadratic.basis_size(usize::MAX / 2), None);
}

#[test]
fn hyper_params_start_from_one_hundredth() {
    let p = GpHyperParams::new(MeanModel::Constant);
    assert_eq!(f(p.initial_theta()), 1e-2);
    assert_eq!(p.mean(), MeanModel::Constant);
    let p = GaussianProcess::params(MeanModel::Linear);
    assert_eq!(f(p.initial_theta()), 1e-2);
    assert_eq!(p.mean(), MeanModel::Linear);
}

#[test]
fn hyper_params_setters_change_one_field() {
    let p = GpHyperParams::new(MeanModel::Constant).with_initial_theta(s(0.3));
    assert_eq!(f(p.initial_theta()), 0.3);
    assert_eq!(p.mean(), MeanModel::Constant);
    let p = p.with_mean(MeanModel::Quadratic);
    assert_eq!(f(p.initial_theta()), 0.3);
    assert_eq!(p.mean(), MeanModel::Quadratic);
}

#[test]
fn theta_search_lays_out_the_optimisation() {
    let p = GpHyperParams::new(MeanModel::Constant);
    let search = p.theta_search(3).unwrap();
    assert_eq!(search.start, vec![s(0.01), s(0.01), s(0.01)]);
    assert_eq!(f(search.lower), -6.0);
    assert_eq!(f(search.upper), 2.0);
    assert_eq!(f(search.tolerance), 1e-2);
    assert_eq!(f(search.initial_step), 0.5);
    assert_eq!(search.max_evaluations, 30);
    let one = p.with_initial_theta(s(2.5)).theta_search(1).unwrap();
    assert_eq!(one.start, vec![s(2.5)]);
    assert_eq!(one.max_evaluations, 10);
    let none = p.theta_search(0).unwrap();
    assert!(none.start.is_empty());
    assert_eq!(none.max_evaluations, 0);
}

#[test]
fn theta_search_refuses_what_cannot_be_counted() {
    let p = GpHyperParams::new(MeanModel::Constant);
    assert!(p.theta_search(429_496_730).is_none());
    assert!(p.theta_search(usize::MAX).is_none());
}

#[test]
fn correlation_matrix_has_the_nugget_on_its_diagonal() {
    let dm = DistanceMatrix::from_differences(3, m(3, 1, &[0.0, 0.0, 0.0])).unwrap();
    let r = m(3, 1, &[0.1, 0.2, 0.3]);
    let c = correlation_matrix(&dm, &r).unwrap();
    let d = 1.0 + 10.0 * f64::EPSILON;
    assert!(d > 1.0);
    assert_eq!(to_floats(&c), vec![d, 0.1, 0.2, 0.1, d, 0.3, 0.2, 0.3, d]);
}

#[test]
fn symmetric_matrix_is_symmetric_with_the_given_diagonal() {
    let dm = DistanceMatrix::from_differences(3, m(3, 1, &[0.0, 0.0, 0.0])).unwrap();
    let r = m(3, 1, &[0.1, 0.2, 0.3]);
    let c = symmetric_matrix(&dm, &r, s(1.5)).unwrap();
    assert_eq!((c.nrows(), c.ncols()), (3, 3));
    assert_eq!(to_floats(&c), vec![1.5, 0.1, 0.2, 0.1, 1.5, 0.3, 0.2, 0.3, 1.5]);
}

#[test]
fn symmetric_matrix_of_four_rows() {
    let dm = DistanceMatrix::from_differences(4, m(6, 1, &[0.0; 6])).unwrap();
    let r = m(6, 1, &[1.0, 2.0, 3.0, 4.0, 5.0, 6.0]);
    let c = symmetric_matrix(&dm, &r, s(9.0)).unwrap();
    assert_eq!(
        to_floats(&c),
        vec![9.0, 1.0, 2.0, 3.0, 1.0, 9.0, 4.0, 5.0, 2.0, 4.0, 9.0, 6.0, 3.0, 5.0, 6.0, 9.0]
    );
}

#[test]
fn correlation_matrix_refuses_a_wrong_list() {
    let dm = DistanceMatrix::from_differences(3, m(3, 1, &[0.0, 0.0, 0.0])).unwrap();
    assert_eq!(
        correlation_matrix(&dm, &m(2, 1, &[0.1, 0.2])).unwrap_err(),
        EgoboxError::InvalidInput
    );
    assert_eq!(
        symmetric_matrix(&dm, &m(1, 3, &[0.1, 0.2, 0.3]), s(1.0)).unwrap_err(),
        EgoboxError::InvalidInput
    );
}

#[test]
fn ill_conditioning_is_told_below_the_threshold() {
    assert!(ft_is_ill_conditioned(s(1e-11)));
    assert!(ft_is_ill_conditioned(s(0.0)));
    assert!(ft_is_ill_conditioned(s(9.99e-11)));
    assert!(!ft_is_ill_conditioned(s(1e-10)));
    assert!(!ft_is_ill_conditioned(s(1e-9)));
    assert!(!ft_is_ill_conditioned(s(1.0)));
    assert!(!ft_is_ill_conditioned(s(f64::NAN)));
}

#[test]
fn ill_conditioning_is_blamed_on_the_basis_above_the_threshold() {
    assert_eq!(ill_conditioning_error(s(1e16)), EgoboxError::LikelihoodIncompatibleBasis);
    assert_eq!(
        ill_conditioning_error(s(f64::INFINITY)),
        EgoboxError::LikelihoodIncompatibleBasis
    );
    assert_eq!(ill_conditioning_error(s(1e15)), EgoboxError::LikelihoodIllConditioned);
    assert_eq!(ill_conditioning_error(s(1e3)), EgoboxError::LikelihoodIllConditioned);
    assert_eq!(ill_conditioning_error(s(f64::NAN)), EgoboxError::LikelihoodIllConditioned);
}

#[test]
fn objective_is_the_likelihood_with_its_sign_changed() {
    assert_eq!(f(objective_value(&Ok(s(-0.25)))), 0.25);
    assert_eq!(f(objective_value(&Ok(s(3.0)))), -3.0);
    assert_eq!(f(objective_value(&Err(EgoboxError::LinalgFailure))), f64::INFINITY);
    assert_eq!(f(objective_value(&Err(EgoboxError::LikelihoodIllConditioned))), f64::INFINITY);
}

#[test]
fn inner_params_default_is_zero() {
    let g = GpInnerParams::default();
    assert_eq!(g.sigma2(), &vec![s(0.0)]);
    for part in [g.beta(), g.gamma(), g.r_chol(), g.ft(), g.ft_qr_r()] {
        assert_eq!((part.nrows(), part.ncols()), (1, 1));
        assert_eq!(to_floats(part), vec![0.0]);
    }
}

#[test]
fn inner_params_check_the_shapes() {
    let ok = GpInnerParams::new(
        vec![s(1.0), s(2.0)],
        m(3, 2, &[0.0; 6]),
        m(4, 2, &[0.0; 8]),
        m(4, 4, &[0.0; 16]),
        m(4, 3, &[0.0; 12]),
        m(3, 3, &[0.0; 9]),
    );
    assert!(ok.is_ok());
    let bad_gamma = GpInnerParams::new(
        vec![s(1.0), s(2.0)],
        m(3, 2, &[0.0; 6]),
        m(5, 2, &[0.0; 10]),
        m(4, 4, &[0.0; 16]),
        m(4, 3, &[0.0; 12]),
        m(3, 3, &[0.0; 9]),
    );
    assert_eq!(bad_gamma.unwrap_err(), EgoboxError::InvalidInput);
    let bad_chol = GpInnerParams::new(
        vec![s(1.0)],
        m(1, 1, &[0.0]),
        m(2, 1, &[0.0; 2]),
        m(2, 3, &[0.0; 6]),
        m(2, 1, &[0.0; 2]),
        m(1, 1, &[0.0]),
    );
    assert_eq!(bad_chol.unwrap_err(), EgoboxError::InvalidInput);
}

#[test]
fn gaussian_process_checks_its_parts() {
    let inner = GpInnerParams::default();
    let xtrain = normalized(&[1.0, 2.0]);
    let ytrain = normalized(&[1.0, 2.0]);
    let bad = GaussianProcess::new(vec![s(1.0)], MeanModel::Constant, inner, xtrain, ytrain);
    assert_eq!(bad.unwrap_err(), EgoboxError::InvalidInput);
    let toy = toy();
    assert_eq!(toy.gp.theta(), &vec![s(5.62341325)]);
    assert_eq!(toy.gp.mean(), MeanModel::Constant);
    assert_eq!(toy.gp.xtrain().nrows(), 5);
}

#[test]
fn check_input_refuses_other_columns() {
    let toy = toy();
    assert_eq!(toy.gp.check_input(&m(3, 1, &[0.0, 1.0, 2.0])), Ok(()));
    assert_eq!(toy.gp.check_input(&m(0, 1, &[])), Ok(()));
    assert_eq!(
        toy.gp.check_input(&m(1, 2, &[0.0, 1.0])),
        Err(EgoboxError::InvalidInput)
    );
    assert_eq!(
        toy.gp
            .compute_correlation(&m(1, 2, &[0.0, 1.0]), standardize, difference, squared_exponential)
            .unwrap_err(),
        EgoboxError::InvalidInput
    );
}

#[test]
fn shape_correlation_puts_one_point_per_row() {
    let toy = toy();
    let r = m(10, 1, &[0.0, 1.0, 2.0, 3.0, 4.0, 5.0, 6.0, 7.0, 8.0, 9.0]);
    let c = toy.gp.shape_correlation(r, 2).unwrap();
    assert_eq!((c.nrows(), c.ncols()), (2, 5));
    assert_eq!(f(c.entry(1, 0)), 5.0);
    assert_eq!(f(c.entry(0, 4)), 4.0);
    let short = m(9, 1, &[0.0; 9]);
    assert_eq!(toy.gp.shape_correlation(short, 2).unwrap_err(), EgoboxError::InvalidInput);
}

#[test]
fn clamped_variances_are_one_column_without_negatives() {
    let v = clamped_variances(m(1, 3, &[0.5, -1e-18, 0.0]), 3).unwrap();
    assert_eq!((v.nrows(), v.ncols()), (3, 1));
    assert_eq!(to_floats(&v), vec![0.5, 0.0, 0.0]);
    assert_eq!(
        clamped_variances(m(1, 3, &[0.5, -1e-18, 0.0]), 2).unwrap_err(),
        EgoboxError::InvalidInput
    );
}

#[test]
fn scale_columns_uses_the_statistics_of_each_column() {
    let stats = NormalizedMatrix::from_parts(
        m(1, 2, &[0.0, 0.0]),
        m(1, 2, &[1.0, 10.0]),
        m(1, 2, &[2.0, 5.0]),
    )
    .unwrap();
    let out = scale_columns(&m(2, 2, &[3.0, 20.0, 1.0, 0.0]), &stats, standardize).unwrap();
    assert_eq!(to_floats(&out), vec![1.0, 2.0, 0.0, -2.0]);
    assert_eq!(
        scale_columns(&m(2, 1, &[3.0, 20.0]), &stats, standardize).unwrap_err(),
        EgoboxError::InvalidInput
    );
}

#[test]
fn differences_to_training_run_over_the_training_rows_first() {
    let train = m(3, 1, &[10.0, 20.0, 30.0]);
    let query = m(2, 1, &[1.0, 2.0]);
    let dx = differences_to_training(&train, &query, difference).unwrap();
    assert_eq!((dx.nrows(), dx.ncols()), (6, 1));
    assert_eq!(to_floats(&dx), vec![9.0, 19.0, 29.0, 8.0, 18.0, 28.0]);
    let wide = m(1, 2, &[1.0, 2.0]);
    assert_eq!(
        differences_to_training(&train, &wide, difference).unwrap_err(),
        EgoboxError::InvalidInput
    );
    let nothing = differences_to_training(&m(0, 1, &[]), &query, difference).unwrap();
    assert_eq!((nothing.nrows(), nothing.ncols()), (0, 1));
}

#[test]
fn kernel_column_has_one_correlation_per_row() {
    let d = m(3, 2, &[0.0, 0.0, 1.0, 0.0, 1.0, 2.0]);
    let theta = vec![s(0.5), s(0.25)];
    let r = kernel_column(&theta, &d, squared_exponential);
    assert_eq!((r.nrows(), r.ncols()), (3, 1));
    let got = to_floats(&r);
    assert_eq!(got[0], 1.0);
    assert_eq!(got[1], (-0.5f64).exp());
    assert_eq!(got[2], (-1.5f64).exp());
}

#[test]
fn inner_params_want_triangular_factors() {
    let full_chol = GpInnerParams::new(
        vec![s(1.0)],
        m(1, 1, &[0.0]),
        m(2, 1, &[0.0; 2]),
        m(2, 2, &[1.0, 0.5, 0.5, 1.0]),
        m(2, 1, &[0.0; 2]),
        m(1, 1, &[1.0]),
    );
    assert_eq!(full_chol.unwrap_err(), EgoboxError::InvalidInput);
    let full_r = GpInnerParams::new(
        vec![s(1.0)],
        m(2, 1, &[0.0; 2]),
        m(2, 1, &[0.0; 2]),
        m(2, 2, &[1.0, 0.0, 0.5, 1.0]),
        m(2, 2, &[0.0; 4]),
        m(2, 2, &[1.0, 2.0, 3.0, 4.0]),
    );
    assert_eq!(full_r.unwrap_err(), EgoboxError::InvalidInput);
    let fine = GpInnerParams::new(
        vec![s(1.0)],
        m(2, 1, &[0.0; 2]),
        m(2, 1, &[0.0; 2]),
        m(2, 2, &[1.0, 0.0, 0.5, 1.0]),
        m(2, 2, &[0.0; 4]),
        m(2, 2, &[1.0, 2.0, 0.0, 4.0]),
    );
    assert!(fine.is_ok());
}
