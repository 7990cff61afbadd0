use egobox::errors::MoeError;
use egobox::gaussian_process::MeanModel;
use egobox::matrix::Matrix;
use egobox::moe::parameters::GpMixtureParams;
use egobox::moe::parameters::GpMixtureValidParams;
use egobox::moe::parameters::GpType;
use egobox::moe::types::CorrelationModel;
use egobox::moe::types::CorrelationSpec;
use egobox::moe::types::GaussianMixture;
use egobox::moe::types::Inducings;
use egobox::moe::types::Recombination;
use egobox::moe::types::RegressionSpec;
use egobox::moe::types::SparseMethod;
use egobox::moe::types::ThetaTuning;
use egobox::scalar::Scalar;
use rand_xoshiro::Xoshiro256Plus;

fn x(v: f64) -> Scalar {
    Scalar::from_bits(v.to_bits())
}

fn grid(nrows: usize, ncols: usize, xs: &[f64]) -> Matrix {
    Matrix::new(nrows, ncols, xs.iter().map(|v| x(*v)).collect()).unwrap()
}

fn seeded() -> GpMixtureParams<u8, u64> {
    GpMixtureParams::new_with_rng(GpType::FullGp, 42u64)
}

fn message_of<T>(r: Result<T, MoeError>) -> String {
    match r {
        Ok(_) => panic!("accepted"),
        Err(e) => e.message(),
    }
}

fn tuning_parts(t: &ThetaTuning) -> (bool, Vec<f64>, Vec<(f64, f64)>) {
    let unpack = |s: &Scalar| f64::from_bits(s.to_bits());
    match t {
        ThetaTuning::Fixed(v) => (true, v.iter().map(unpack).collect(), vec![]),
        ThetaTuning::Optimized { init, bounds } => (
            false,
            init.iter().map(unpack).collect(),
            bounds.iter().map(|(lo, hi)| (unpack(lo), unpack(hi))).collect(),
        ),
    }
}

#[test]
fn new_with_rng_sets_the_defaults() {
    let p = seeded().check().unwrap();
    assert!(matches!(p.gp_type(), GpType::FullGp));
    assert_eq!(p.n_clusters(), 1);
    assert_eq!(p.recombination(), Recombination::Smooth(Some(x(1.0))));
    assert_eq!(p.regression_spec(), RegressionSpec::constant());
    assert_eq!(p.correlation_spec(), CorrelationSpec::squared_exponential());
    assert_eq!(
        tuning_parts(p.theta_tuning()),
        (false, vec![0.01], vec![(1e-6, 100.0)])
    );
    assert_eq!(p.kpls_dim(), None);
    assert_eq!(p.n_start(), 10);
    assert!(p.gmm().is_none());
    assert!(p.gmx().is_none());
    assert_eq!(p.rng(), 42u64);
}

#[test]
fn new_seeds_the_generator_from_the_system() {
    let a = GpMixtureParams::<u8, Xoshiro256Plus>::new().check().unwrap();
    let b = GpMixtureParams::<u8, Xoshiro256Plus>::new().check().unwrap();
    assert_ne!(a.rng(), b.rng());
    assert_eq!(a.recombination(), Recombination::Smooth(Some(x(1.0))));
    assert_eq!(a.n_clusters(), 1);
    assert_eq!(a.n_start(), 10);
}

#[test]
fn default_recombines_hard() {
    let p = GpMixtureParams::<u8, Xoshiro256Plus>::default().check().unwrap();
    assert_eq!(p.recombination(), Recombination::Hard);
    assert_eq!(p.n_clusters(), 1);
    assert_eq!(p.n_start(), 10);
    assert_eq!(p.kpls_dim(), None);
    assert_eq!(p.regression_spec(), RegressionSpec::constant());
    assert_eq!(p.correlation_spec(), CorrelationSpec::squared_exponential());
    let v = GpMixtureValidParams::<u8, Xoshiro256Plus>::default();
    assert_eq!(v.recombination(), Recombination::Hard);
    assert_eq!(tuning_parts(v.theta_tuning()), (false, vec![0.01], vec![(1e-6, 100.0)]));
}

#[test]
fn setters_change_their_field() {
    let p = seeded()
        .n_clusters(3)
        .recombination(Recombination::Hard)
        .regression_spec(RegressionSpec::all())
        .correlation_spec(CorrelationSpec::matern32().union(CorrelationSpec::matern52()))
        .kpls_dim(Some(2))
        .n_start(5)
        .gmm(7u8)
        .gp_type(GpType::SparseGp {
            sparse_method: SparseMethod::Vfe,
            inducings: Inducings::Randomized(10),
        })
        .check()
        .unwrap();
    assert_eq!(p.n_clusters(), 3);
    assert_eq!(p.recombination(), Recombination::Hard);
    assert_eq!(p.regression_spec(), RegressionSpec::all());
    assert!(p.correlation_spec().contains(CorrelationModel::Matern32));
    assert!(p.correlation_spec().contains(CorrelationModel::Matern52));
    assert!(!p.correlation_spec().contains(CorrelationModel::SquaredExponential));
    assert_eq!(p.kpls_dim(), Some(2));
    assert_eq!(p.n_start(), 5);
    assert_eq!(p.gmm(), Some(&7u8));
    assert!(matches!(
        p.gp_type(),
        GpType::SparseGp { sparse_method: SparseMethod::Vfe, inducings: Inducings::Randomized(10) }
    ));
    assert_eq!(p.rng(), 42u64);
}

#[test]
fn theta_init_keeps_the_bounds() {
    let p = seeded().theta_init(vec![x(0.5), x(0.7)]).check().unwrap();
    assert_eq!(
        tuning_parts(p.theta_tuning()),
        (false, vec![0.5, 0.7], vec![(1e-6, 100.0)])
    );
}

#[test]
fn theta_init_replaces_fixed_lengths() {
    let p = seeded()
        .theta_tuning(ThetaTuning::Fixed(vec![x(1.0)]))
        .theta_init(vec![x(0.5), x(0.7)])
        .check()
        .unwrap();
    assert_eq!(tuning_parts(p.theta_tuning()), (true, vec![0.5, 0.7], vec![]));
}

#[test]
fn theta_bounds_keep_the_start() {
    let p = seeded()
        .theta_bounds(vec![(x(1e-3), x(1.0)), (x(1e-2), x(10.0))])
        .check()
        .unwrap();
    assert_eq!(
        tuning_parts(p.theta_tuning()),
        (false, vec![0.01], vec![(1e-3, 1.0), (1e-2, 10.0)])
    );
}

#[test]
fn theta_bounds_leave_fixed_lengths_alone() {
    let p = seeded()
        .theta_tuning(ThetaTuning::Fixed(vec![x(1.0)]))
        .theta_bounds(vec![(x(1e-3), x(1.0))])
        .check()
        .unwrap();
    assert_eq!(tuning_parts(p.theta_tuning()), (true, vec![1.0], vec![]));
}

#[test]
fn with_rng_switches_the_projection_off() {
    let p = seeded()
        .n_clusters(4)
        .kpls_dim(Some(3))
        .n_start(2)
        .gmm(9u8)
        .with_rng("other")
        .check()
        .unwrap();
    assert_eq!(p.rng(), "other");
    assert_eq!(p.kpls_dim(), None);
    assert_eq!(p.n_clusters(), 4);
    assert_eq!(p.n_start(), 2);
    assert_eq!(p.gmm(), Some(&9u8));
    assert_eq!(p.recombination(), Recombination::Smooth(Some(x(1.0))));
}

#[test]
fn check_refuses_a_projection_on_nothing() {
    assert_eq!(message_of(seeded().kpls_dim(Some(0)).check()), "`kpls_dim` canot be 0!");
    assert!(seeded().kpls_dim(Some(0)).check_ref().is_err());
    assert!(seeded().kpls_dim(Some(1)).check_ref().is_ok());
    assert!(seeded().kpls_dim(None).check_ref().is_ok());
}

#[test]
fn check_refuses_no_cluster() {
    assert_eq!(message_of(seeded().n_clusters(0).check()), "`n_clusters` cannot be 0!");
    assert_eq!(
        message_of(seeded().n_clusters(0).kpls_dim(Some(0)).check()),
        "`n_clusters` cannot be 0!"
    );
}

#[test]
fn check_refuses_no_start() {
    assert_eq!(message_of(seeded().n_start(0).check()), "`n_start` cannot be 0!");
    assert_eq!(
        message_of(seeded().n_start(0).kpls_dim(Some(0)).check()),
        "`kpls_dim` canot be 0!"
    );
}

#[test]
fn check_refuses_a_negative_heaviness() {
    let text = "`recombination` heaviness cannot be negative!";
    assert_eq!(
        message_of(seeded().recombination(Recombination::Smooth(Some(x(-0.5)))).check()),
        text
    );
    assert_eq!(
        message_of(seeded().recombination(Recombination::Smooth(Some(x(f64::NAN)))).check()),
        text
    );
    assert!(seeded().recombination(Recombination::Smooth(Some(x(0.0)))).check().is_ok());
    assert!(seeded().recombination(Recombination::Smooth(Some(x(2.5)))).check().is_ok());
    assert!(seeded().recombination(Recombination::Smooth(None)).check().is_ok());
    assert!(seeded().recombination(Recombination::Hard).check().is_ok());
}

#[test]
fn check_ref_lends_the_same_settings() {
    let p = seeded().n_clusters(2).n_start(3);
    let v = p.check_ref().unwrap();
    assert_eq!(v.n_clusters(), 2);
    assert_eq!(v.n_start(), 3);
}

#[test]
fn checked_settings_can_be_worked_on_again() {
    let v = seeded().n_clusters(2).check().unwrap();
    let p = GpMixtureParams::from(v).n_start(4).check().unwrap();
    assert_eq!(p.n_clusters(), 2);
    assert_eq!(p.n_start(), 4);
}

#[test]
fn recombination_validity() {
    assert!(Recombination::Hard.is_valid());
    assert!(Recombination::Smooth(None).is_valid());
    assert!(Recombination::Smooth(Some(x(1.0))).is_valid());
    assert!(Recombination::Smooth(Some(x(-0.0))).is_valid());
    assert!(!Recombination::Smooth(Some(x(-1e-300))).is_valid());
    assert!(Recombination::Smooth(Some(x(f64::INFINITY))).is_valid());
}

#[test]
fn regression_spec_is_a_set_of_bases() {
    let s = RegressionSpec::constant().union(RegressionSpec::quadratic());
    assert!(s.contains(MeanModel::Constant));
    assert!(!s.contains(MeanModel::Linear));
    assert!(s.contains(MeanModel::Quadratic));
    assert!(!s.is_empty());
    assert!(RegressionSpec::linear().contains(MeanModel::Linear));
    assert!(!RegressionSpec::linear().contains(MeanModel::Constant));
    let all = RegressionSpec::all();
    assert!(all.contains(MeanModel::Constant) && all.contains(MeanModel::Linear));
    assert_eq!(s.union(RegressionSpec::linear()), all);
    let none = RegressionSpec { constant: false, linear: false, quadratic: false };
    assert!(none.is_empty());
}

#[test]
fn correlation_spec_is_a_set_of_kernels() {
    let s = CorrelationSpec::squared_exponential().union(CorrelationSpec::absolute_exponential());
    assert!(s.contains(CorrelationModel::SquaredExponential));
    assert!(s.contains(CorrelationModel::AbsoluteExponential));
    assert!(!s.contains(CorrelationModel::Matern32));
    assert!(!s.contains(CorrelationModel::Matern52));
    let all = CorrelationSpec::all();
    assert_eq!(s.union(CorrelationSpec::matern32()).union(CorrelationSpec::matern52()), all);
}

#[test]
fn theta_tuning_default_searches_from_one_hundredth() {
    assert_eq!(
        tuning_parts(&ThetaTuning::default()),
        (false, vec![0.01], vec![(1e-6, 100.0)])
    );
}

#[test]
fn gaussian_mixture_checks_the_shapes() {
    let ok = GaussianMixture::new(
        vec![x(0.4), x(0.6)],
        grid(2, 2, &[0.0, 0.0, 1.0, 1.0]),
        vec![grid(2, 2, &[1.0, 0.0, 0.0, 1.0]), grid(2, 2, &[2.0, 0.0, 0.0, 2.0])],
    )
    .unwrap();
    assert_eq!(ok.n_clusters(), 2);
    assert_eq!(ok.weights(), &vec![x(0.4), x(0.6)]);
    assert_eq!(ok.means().nrows(), 2);
    assert_eq!(ok.covariances().len(), 2);
    let text = "weights, means and covariances do not have matching shapes";
    assert_eq!(
        message_of(GaussianMixture::new(
            vec![x(1.0)],
            grid(2, 2, &[0.0, 0.0, 1.0, 1.0]),
            vec![grid(2, 2, &[1.0, 0.0, 0.0, 1.0])],
        )),
        text
    );
    assert_eq!(
        message_of(GaussianMixture::new(
            vec![x(0.4), x(0.6)],
            grid(2, 2, &[0.0, 0.0, 1.0, 1.0]),
            vec![grid(2, 2, &[1.0, 0.0, 0.0, 1.0])],
        )),
        text
    );
    assert_eq!(
        message_of(GaussianMixture::new(
            vec![x(0.4), x(0.6)],
            grid(2, 2, &[0.0, 0.0, 1.0, 1.0]),
            vec![grid(2, 2, &[1.0, 0.0, 0.0, 1.0]), grid(1, 2, &[2.0, 0.0])],
        )),
        text
    );
}

#[test]
fn gmx_hands_the_mixture_in() {
    let g = GaussianMixture::new(vec![x(1.0)], grid(1, 1, &[0.0]), vec![grid(1, 1, &[1.0])])
        .unwrap();
    let p = seeded().gmx(g).check().unwrap();
    assert_eq!(p.gmx().unwrap().n_clusters(), 1);
}

#[test]
fn smooth_recombination_without_heaviness_is_hard() {
    assert!(Recombination::Hard.is_hard());
    assert!(Recombination::Smooth(Some(x(0.0))).is_hard());
    assert!(Recombination::Smooth(Some(x(-0.0))).is_hard());
    assert!(!Recombination::Smooth(Some(x(1.0))).is_hard());
    assert!(!Recombination::Smooth(Some(x(1e-300))).is_hard());
    assert!(!Recombination::Smooth(None).is_hard());
}
