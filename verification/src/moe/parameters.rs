//! The settings of a mixture of experts: a builder that takes any value, and
//! the record that comes out of its check.
use crate::errors::MoeError;
use crate::moe::types::CorrelationSpec;
use crate::moe::types::GaussianMixture;
use crate::moe::types::Inducings;
use crate::moe::types::Recombination;
use crate::moe::types::RegressionSpec;
use crate::moe::types::SparseMethod;
use crate::moe::types::ThetaTuning;
use crate::moe::types::THETA_INIT_BITS;
use crate::moe::types::THETA_LOWER_BITS;
use crate::moe::types::THETA_UPPER_BITS;
use crate::scalar::Scalar;
use crate::scalar::ONE_BITS;
use ndarray_rand::rand::SeedableRng;
use rand_xoshiro::Xoshiro256Plus;
use vstd::prelude::*;

verus! {

/// The generator of `rand_xoshiro`; what it holds is its own business.
#[verifier::external_type_specification]
#[verifier::external_body]
pub struct ExXoshiro256Plus(rand_xoshiro::Xoshiro256Plus);

/// Calls `SeedableRng::from_entropy` for `Xoshiro256Plus`, which seeds a
/// generator from what the operating system provides. Nothing is claimed of
/// the generator that comes back. The call does not return where the
/// operating system has no entropy to give.
#[verifier::external_body]
fn rng_from_entropy() -> (rng: Xoshiro256Plus) {
    Xoshiro256Plus::from_entropy()
}

/// The kind of Gaussian process that each expert is.
#[derive(Debug)]
pub enum GpType {
    /// A process trained on every point of its cluster.
    FullGp,
    /// A process that stands on a few inducing points.
    SparseGp { sparse_method: SparseMethod, inducings: Inducings },
}

/// The settings of a mixture of experts, field by field. `G` is the type of
/// a fitted clustering that may be handed in, `R` that of the random number
/// generator.
pub struct GpMixtureSettings<G, R> {
    /// The kind of Gaussian process that each expert is.
    pub gp_type: GpType,
    /// Number of clusters, hence of experts.
    pub n_clusters: usize,
    /// How the predictions of the experts are put together.
    pub recombination: Recombination,
    /// The regression bases that the experts may use.
    pub regression_spec: RegressionSpec,
    /// The correlation kernels that the experts may use.
    pub correlation_spec: CorrelationSpec,
    /// How the correlation lengths are arrived at.
    pub theta_tuning: ThetaTuning,
    /// Number of components kept by the partial least squares projection of
    /// the inputs, where one is made.
    pub kpls_dim: Option<usize>,
    /// Number of starts of the search for the correlation lengths.
    pub n_start: usize,
    /// A fitted clustering to take the mixture from.
    pub gmm: Option<G>,
    /// A mixture to cluster with; it goes before `gmm`.
    pub gmx: Option<GaussianMixture>,
    /// The random number generator.
    pub rng: R,
}

/// What is wrong with the settings, if anything: the first of a number of
/// clusters of zero, a projection on zero components, a number of starts of
/// zero, and a heaviness factor that is below zero or not a number.
pub open spec fn violation<G, R>(s: GpMixtureSettings<G, R>) -> Option<Seq<char>> {
    if s.n_clusters == 0 {
        Some("`n_clusters` cannot be 0!"@)
    } else if s.kpls_dim == Some(0usize) {
        Some("`kpls_dim` canot be 0!"@)
    } else if s.n_start == 0 {
        Some("`n_start` cannot be 0!"@)
    } else if !s.recombination.valid() {
        Some("`recombination` heaviness cannot be negative!"@)
    } else {
        None
    }
}

/// The settings of a mixture of experts once they have been checked.
#[derive(Debug)]
pub struct GpMixtureValidParams<G, R> {
    gp_type: GpType,
    n_clusters: usize,
    recombination: Recombination,
    regression_spec: RegressionSpec,
    correlation_spec: CorrelationSpec,
    theta_tuning: ThetaTuning,
    kpls_dim: Option<usize>,
    n_start: usize,
    gmm: Option<G>,
    gmx: Option<GaussianMixture>,
    rng: R,
}

impl<G, R> View for GpMixtureValidParams<G, R> {
    type V = GpMixtureSettings<G, R>;

    /// The settings, field by field.
    closed spec fn view(&self) -> GpMixtureSettings<G, R> {
        GpMixtureSettings {
            gp_type: self.gp_type,
            n_clusters: self.n_clusters,
            recombination: self.recombination,
            regression_spec: self.regression_spec,
            correlation_spec: self.correlation_spec,
            theta_tuning: self.theta_tuning,
            kpls_dim: self.kpls_dim,
            n_start: self.n_start,
            gmm: self.gmm,
            gmx: self.gmx,
            rng: self.rng,
        }
    }
}

/// The settings that stand when nothing has been chosen, but for the
/// generator: one cluster of full processes, the constant basis, the squared
/// exponential kernel, a search for the correlation lengths from 0.01
/// between 1e-6 and 100 with ten starts, no projection and no clustering
/// handed in.
pub open spec fn is_default_but_rng<G, R>(s: GpMixtureSettings<G, R>) -> bool {
    &&& s.gp_type is FullGp
    &&& s.n_clusters == 1
    &&& s.regression_spec == RegressionSpec::of(true, false, false)
    &&& s.correlation_spec == CorrelationSpec::of(true, false, false, false)
    &&& s.theta_tuning is Optimized
    &&& s.theta_tuning.init_values() == seq![Scalar::pattern(THETA_INIT_BITS)]
    &&& s.theta_tuning.bound_values() == seq![
        (Scalar::pattern(THETA_LOWER_BITS), Scalar::pattern(THETA_UPPER_BITS)),
    ]
    &&& s.kpls_dim.is_none()
    &&& s.n_start == 10
    &&& s.gmm.is_none()
    &&& s.gmx.is_none()
}

impl<G> Default for GpMixtureValidParams<G, Xoshiro256Plus> {
    /// The default settings with hard recombination and a generator seeded
    /// by the operating system.
    fn default() -> (p: GpMixtureValidParams<G, Xoshiro256Plus>)
        ensures
            is_default_but_rng(p@),
            p@.recombination == Recombination::Hard,
    {
        GpMixtureValidParams {
            gp_type: GpType::FullGp,
            n_clusters: 1,
            recombination: Recombination::Hard,
            regression_spec: RegressionSpec::constant(),
            correlation_spec: CorrelationSpec::squared_exponential(),
            theta_tuning: ThetaTuning::default(),
            kpls_dim: None,
            n_start: 10,
            gmm: None,
            gmx: None,
            rng: rng_from_entropy(),
        }
    }
}

impl<G, R> GpMixtureValidParams<G, R> {
    /// The kind of Gaussian process that each expert is.
    pub fn gp_type(&self) -> (r: &GpType)
        ensures
            *r == self@.gp_type,
    {
        &self.gp_type
    }

    /// The number of clusters, hence the number of experts of the mixture.
    pub fn n_clusters(&self) -> (r: usize)
        ensures
            r == self@.n_clusters,
    {
        self.n_clusters
    }

    /// The recombination mode.
    pub fn recombination(&self) -> (r: Recombination)
        ensures
            r == self@.recombination,
    {
        self.recombination
    }

    /// The regression bases that the experts may use.
    pub fn regression_spec(&self) -> (r: RegressionSpec)
        ensures
            r == self@.regression_spec,
    {
        self.regression_spec
    }

    /// The correlation kernels that the experts may use.
    pub fn correlation_spec(&self) -> (r: CorrelationSpec)
        ensures
            r == self@.correlation_spec,
    {
        self.correlation_spec
    }

    /// How the correlation lengths are arrived at.
    pub fn theta_tuning(&self) -> (r: &ThetaTuning)
        ensures
            *r == self@.theta_tuning,
    {
        &self.theta_tuning
    }

    /// The number of components of the projection of the inputs, if any.
    pub fn kpls_dim(&self) -> (r: Option<usize>)
        ensures
            r == self@.kpls_dim,
    {
        self.kpls_dim
    }

    /// The number of starts of the search for the correlation lengths.
    pub fn n_start(&self) -> (r: usize)
        ensures
            r == self@.n_start,
    {
        self.n_start
    }

    /// The fitted clustering to take the mixture from, if any.
    pub fn gmm(&self) -> (r: Option<&G>)
        ensures
            r.is_some() == self@.gmm.is_some(),
            r.is_some() ==> *r.unwrap() == self@.gmm.unwrap(),
    {
        self.gmm.as_ref()
    }

    /// The mixture to cluster with, if any; it goes before `gmm`.
    pub fn gmx(&self) -> (r: Option<&GaussianMixture>)
        ensures
            r.is_some() == self@.gmx.is_some(),
            r.is_some() ==> *r.unwrap() == self@.gmx.unwrap(),
    {
        self.gmx.as_ref()
    }

    /// A copy of the random number generator.
    pub fn rng(&self) -> (r: R) where R: Clone
        ensures
            cloned(self@.rng, r),
    {
        self.rng.clone()
    }
}

/// The settings of a mixture of experts while they are being chosen. Nothing
/// is refused here; `check` tells whether they can be used.
#[derive(Debug)]
pub struct GpMixtureParams<G, R>(GpMixtureValidParams<G, R>);

impl<G, R> View for GpMixtureParams<G, R> {
    type V = GpMixtureSettings<G, R>;

    /// The settings, field by field.
    closed spec fn view(&self) -> GpMixtureSettings<G, R> {
        self.0@
    }
}

impl<G> Default for GpMixtureParams<G, Xoshiro256Plus> {
    /// The default settings with hard recombination and a generator seeded
    /// by the operating system.
    fn default() -> (p: GpMixtureParams<G, Xoshiro256Plus>)
        ensures
            is_default_but_rng(p@),
            p@.recombination == Recombination::Hard,
    {
        GpMixtureParams(GpMixtureValidParams::default())
    }
}

impl<G> GpMixtureParams<G, Xoshiro256Plus> {
    /// The default settings with smooth recombination of heaviness one and
    /// a generator seeded by the operating system.
    pub fn new() -> (p: GpMixtureParams<G, Xoshiro256Plus>)
        ensures
            is_default_but_rng(p@),
            p@.recombination == Recombination::Smooth(Some(Scalar::pattern(ONE_BITS))),
    {
        GpMixtureParams::new_with_rng(GpType::FullGp, rng_from_entropy())
    }
}

impl<G, R> GpMixtureParams<G, R> {
    /// The default settings for experts of the given kind, with smooth
    /// recombination of heaviness one and the given generator.
    pub fn new_with_rng(gp_type: GpType, rng: R) -> (p: GpMixtureParams<G, R>)
        ensures
            p@.gp_type == gp_type,
            p@.rng == rng,
            p@.recombination == Recombination::Smooth(Some(Scalar::pattern(ONE_BITS))),
            gp_type is FullGp ==> is_default_but_rng(p@),
            p@.n_clusters == 1,
            p@.regression_spec == RegressionSpec::of(true, false, false),
            p@.correlation_spec == CorrelationSpec::of(true, false, false, false),
            p@.theta_tuning is Optimized,
            p@.theta_tuning.init_values() == seq![Scalar::pattern(THETA_INIT_BITS)],
            p@.theta_tuning.bound_values() == seq![
                (Scalar::pattern(THETA_LOWER_BITS), Scalar::pattern(THETA_UPPER_BITS)),
            ],
            p@.kpls_dim.is_none(),
            p@.n_start == 10,
            p@.gmm.is_none(),
            p@.gmx.is_none(),
    {
        GpMixtureParams(
            GpMixtureValidParams {
                gp_type,
                n_clusters: 1,
                recombination: Recombination::Smooth(Some(Scalar::one())),
                regression_spec: RegressionSpec::constant(),
                correlation_spec: CorrelationSpec::squared_exponential(),
                theta_tuning: ThetaTuning::default(),
                kpls_dim: None,
                n_start: 10,
                gmm: None,
                gmx: None,
                rng,
            },
        )
    }

    /// Sets the kind of Gaussian process that each expert is.
    pub fn gp_type(self, gp_type: GpType) -> (p: GpMixtureParams<G, R>)
        ensures
            p@ == (GpMixtureSettings { gp_type, ..self@ }),
    {
        let mut inner = self.0;
        inner.gp_type = gp_type;
        GpMixtureParams(inner)
    }

    /// Sets the number of clusters.
    pub fn n_clusters(self, n_clusters: usize) -> (p: GpMixtureParams<G, R>)
        ensures
            p@ == (GpMixtureSettings { n_clusters, ..self@ }),
    {
        let mut inner = self.0;
        inner.n_clusters = n_clusters;
        GpMixtureParams(inner)
    }

    /// Sets the recombination mode.
    pub fn recombination(self, recombination: Recombination) -> (p: GpMixtureParams<G, R>)
        ensures
            p@ == (GpMixtureSettings { recombination, ..self@ }),
    {
        let mut inner = self.0;
        inner.recombination = recombination;
        GpMixtureParams(inner)
    }

    /// Sets the regression bases that the experts may use.
    pub fn regression_spec(self, regression_spec: RegressionSpec) -> (p: GpMixtureParams<G, R>)
        ensures
            p@ == (GpMixtureSettings { regression_spec, ..self@ }),
    {
        let mut inner = self.0;
        inner.regression_spec = regression_spec;
        GpMixtureParams(inner)
    }

    /// Sets the correlation kernels that the experts may use.
    pub fn correlation_spec(self, correlation_spec: CorrelationSpec) -> (p: GpMixtureParams<G, R>)
        ensures
            p@ == (GpMixtureSettings { correlation_spec, ..self@ }),
    {
        let mut inner = self.0;
        inner.correlation_spec = correlation_spec;
        GpMixtureParams(inner)
    }

    /// Sets the correlation lengths: those that the search starts from where
    /// they are searched for, those that are used where they are fixed.
    pub fn theta_init(self, theta_init: Vec<Scalar>) -> (p: GpMixtureParams<G, R>)
        ensures
            p@ == (GpMixtureSettings {
                theta_tuning: match self@.theta_tuning {
                    ThetaTuning::Optimized { init, bounds } => ThetaTuning::Optimized {
                        init: theta_init,
                        bounds,
                    },
                    ThetaTuning::Fixed(_) => ThetaTuning::Fixed(theta_init),
                },
                ..self@
            }),
    {
        let mut inner = self.0;
        inner.theta_tuning = match inner.theta_tuning {
            ThetaTuning::Optimized { init: _, bounds } => ThetaTuning::Optimized {
                init: theta_init,
                bounds,
            },
            ThetaTuning::Fixed(_) => ThetaTuning::Fixed(theta_init),
        };
        GpMixtureParams(inner)
    }

    /// Sets the number of components kept by the projection of the inputs.
    pub fn kpls_dim(self, kpls_dim: Option<usize>) -> (p: GpMixtureParams<G, R>)
        ensures
            p@ == (GpMixtureSettings { kpls_dim, ..self@ }),
    {
        let mut inner = self.0;
        inner.kpls_dim = kpls_dim;
        GpMixtureParams(inner)
    }

    /// Sets the bounds of the search for the correlation lengths. Where the
    /// lengths are fixed nothing changes.
    pub fn theta_bounds(self, theta_bounds: Vec<(Scalar, Scalar)>) -> (p: GpMixtureParams<G, R>)
        ensures
            p@ == (GpMixtureSettings {
                theta_tuning: match self@.theta_tuning {
                    ThetaTuning::Optimized { init, bounds } => ThetaTuning::Optimized {
                        init,
                        bounds: theta_bounds,
                    },
                    ThetaTuning::Fixed(f) => ThetaTuning::Fixed(f),
                },
                ..self@
            }),
    {
        let mut inner = self.0;
        inner.theta_tuning = match inner.theta_tuning {
            ThetaTuning::Optimized { init, bounds: _ } => ThetaTuning::Optimized {
                init,
                bounds: theta_bounds,
            },
            ThetaTuning::Fixed(f) => ThetaTuning::Fixed(f),
        };
        GpMixtureParams(inner)
    }

    /// Sets how the correlation lengths are arrived at.
    pub fn theta_tuning(self, theta_tuning: ThetaTuning) -> (p: GpMixtureParams<G, R>)
        ensures
            p@ == (GpMixtureSettings { theta_tuning, ..self@ }),
    {
        let mut inner = self.0;
        inner.theta_tuning = theta_tuning;
        GpMixtureParams(inner)
    }

    /// Sets the number of starts of the search for the correlation lengths.
    pub fn n_start(self, n_start: usize) -> (p: GpMixtureParams<G, R>)
        ensures
            p@ == (GpMixtureSettings { n_start, ..self@ }),
    {
        let mut inner = self.0;
        inner.n_start = n_start;
        GpMixtureParams(inner)
    }

    /// Hands in a fitted clustering to take the mixture from.
    pub fn gmm(self, gmm: G) -> (p: GpMixtureParams<G, R>)
        ensures
            p@ == (GpMixtureSettings { gmm: Some(gmm), ..self@ }),
    {
        let mut inner = self.0;
        inner.gmm = Some(gmm);
        GpMixtureParams(inner)
    }

    /// Hands in a mixture to cluster with.
    pub fn gmx(self, gmx: GaussianMixture) -> (p: GpMixtureParams<G, R>)
        ensures
            p@ == (GpMixtureSettings { gmx: Some(gmx), ..self@ }),
    {
        let mut inner = self.0;
        inner.gmx = Some(gmx);
        GpMixtureParams(inner)
    }

    /// Replaces the random number generator, by one of another type if need
    /// be. The projection of the inputs is switched off; every other setting
    /// stays.
    pub fn with_rng<R2>(self, rng: R2) -> (p: GpMixtureParams<G, R2>)
        ensures
            p@ == (GpMixtureSettings {
                gp_type: self@.gp_type,
                n_clusters: self@.n_clusters,
                recombination: self@.recombination,
                regression_spec: self@.regression_spec,
                correlation_spec: self@.correlation_spec,
                theta_tuning: self@.theta_tuning,
                kpls_dim: None,
                n_start: self@.n_start,
                gmm: self@.gmm,
                gmx: self@.gmx,
                rng,
            }),
    {
        let inner = self.0;
        GpMixtureParams(
            GpMixtureValidParams {
                gp_type: inner.gp_type,
                n_clusters: inner.n_clusters,
                recombination: inner.recombination,
                regression_spec: inner.regression_spec,
                correlation_spec: inner.correlation_spec,
                theta_tuning: inner.theta_tuning,
                kpls_dim: None,
                n_start: inner.n_start,
                gmm: inner.gmm,
                gmx: inner.gmx,
                rng,
            },
        )
    }

    /// Checks the settings and lends them out as checked. They are refused,
    /// with the sentence that `violation` gives, when the number of clusters
    /// is zero, when the inputs are to be projected on zero components, when
    /// the number of starts is zero, and when the heaviness factor is below
    /// zero or not a number.
    pub fn check_ref(&self) -> (res: Result<&GpMixtureValidParams<G, R>, MoeError>)
        ensures
            res.is_ok() <==> violation(self@).is_none(),
            (res matches Ok(v) ==> v@ == self@),
            (res matches Err(e) ==> Some(e.text()) == violation(self@)),
    {
        if self.0.n_clusters == 0 {
            return Err(MoeError::InvalidValueError("`n_clusters` cannot be 0!".to_owned()));
        }
        if let Some(d) = self.0.kpls_dim {
            if d == 0 {
                return Err(MoeError::InvalidValueError("`kpls_dim` canot be 0!".to_owned()));
            }
        }
        if self.0.n_start == 0 {
            return Err(MoeError::InvalidValueError("`n_start` cannot be 0!".to_owned()));
        }
        if !self.0.recombination.is_valid() {
            return Err(
                MoeError::InvalidValueError(
                    "`recombination` heaviness cannot be negative!".to_owned(),
                ),
            );
        }
        Ok(&self.0)
    }

    /// Checks the settings and hands them over as checked; refused as
    /// `check_ref` refuses them.
    pub fn check(self) -> (res: Result<GpMixtureValidParams<G, R>, MoeError>)
        ensures
            res.is_ok() <==> violation(self@).is_none(),
            (res matches Ok(v) ==> v@ == self@),
            (res matches Err(e) ==> Some(e.text()) == violation(self@)),
    {
        match self.check_ref() {
            Ok(_) => Ok(self.0),
            Err(e) => Err(e),
        }
    }
}

impl<G, R> From<GpMixtureValidParams<G, R>> for GpMixtureParams<G, R> {
    /// Checked settings can be worked on again.
    fn from(item: GpMixtureValidParams<G, R>) -> (p: GpMixtureParams<G, R>) {
        GpMixtureParams(item)
    }
}

impl<G, R> vstd::std_specs::convert::FromSpecImpl<GpMixtureValidParams<G, R>> for GpMixtureParams<G, R> {
    /// `from` does what `from_spec` says.
    open spec fn obeys_from_spec() -> bool {
        true
    }

    /// The builder that holds the checked settings.
    closed spec fn from_spec(item: GpMixtureValidParams<G, R>) -> GpMixtureParams<G, R> {
        GpMixtureParams(item)
    }
}

/// Settings that come back from the checked record are the settings that
/// went into it.
pub proof fn lemma_from_keeps_settings<G, R>(item: GpMixtureValidParams<G, R>)
    ensures
        <GpMixtureParams<G, R> as vstd::std_specs::convert::FromSpec<
            GpMixtureValidParams<G, R>,
        >>::from_spec(item)@ == item@,
{
}

} // verus!
