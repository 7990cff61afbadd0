//! The values that the settings of a mixture of experts are made of.
use crate::errors::MoeError;
use crate::gaussian_process::MeanModel;
use crate::matrix::Matrix;
use crate::scalar::Scalar;
use vstd::prelude::*;

verus! {

/// Pattern of 0.01, the correlation length that tuning starts from.
pub const THETA_INIT_BITS: u64 = 0x3f84_7ae1_47ae_147b;

/// Pattern of 1e-6, the smallest correlation length that tuning tries.
pub const THETA_LOWER_BITS: u64 = 0x3eb0_c6f7_a0b5_ed8d;

/// Pattern of 100, the largest correlation length that tuning tries.
pub const THETA_UPPER_BITS: u64 = 0x4059_0000_0000_0000;

/// How the predictions of the experts are put together.
#[derive(Clone, Copy, Debug, PartialEq, Eq, Structural)]
pub enum Recombination {
    /// The expert of the most likely cluster answers alone.
    Hard,
    /// Every expert answers, weighted by how likely its cluster is; the
    /// heaviness factor sharpens or flattens the weights. Without a factor,
    /// one is looked for during training.
    Smooth(Option<Scalar>),
}

impl Recombination {
    /// A heaviness factor, where one is given, is a number and not below
    /// zero.
    pub open spec fn valid(self) -> bool {
        match self {
            Recombination::Hard => true,
            Recombination::Smooth(None) => true,
            Recombination::Smooth(Some(h)) => Scalar::origin().spec_le(h),
        }
    }

    /// The most responsible expert answers alone: the mode is hard, or it
    /// is smooth with a heaviness factor of zero.
    pub open spec fn hard(self) -> bool {
        match self {
            Recombination::Hard => true,
            Recombination::Smooth(None) => false,
            Recombination::Smooth(Some(h)) => h.is_zero(),
        }
    }

    /// Tells whether the most responsible expert answers alone.
    pub fn is_hard(&self) -> (r: bool)
        ensures
            r == self.hard(),
    {
        match self {
            Recombination::Hard => true,
            Recombination::Smooth(None) => false,
            Recombination::Smooth(Some(h)) => h.zero_valued(),
        }
    }

    /// Tells whether the mode can be used.
    pub fn is_valid(&self) -> (r: bool)
        ensures
            r == self.valid(),
    {
        match self {
            Recombination::Hard => true,
            Recombination::Smooth(None) => true,
            Recombination::Smooth(Some(h)) => (Scalar { bits: 0 }).le(h),
        }
    }
}

/// The correlation kernels of a Gaussian process.
#[derive(Clone, Copy, Debug, PartialEq, Eq, Structural)]
pub enum CorrelationModel {
    SquaredExponential,
    AbsoluteExponential,
    Matern32,
    Matern52,
}

/// The regression bases that the experts may use.
#[derive(Clone, Copy, Debug, PartialEq, Eq, Structural)]
pub struct RegressionSpec {
    pub constant: bool,
    pub linear: bool,
    pub quadratic: bool,
}

impl RegressionSpec {
    /// The basis `m` may be used.
    pub open spec fn allows(self, m: MeanModel) -> bool {
        match m {
            MeanModel::Constant => self.constant,
            MeanModel::Linear => self.linear,
            MeanModel::Quadratic => self.quadratic,
        }
    }

    /// The set that allows the listed bases and no other.
    pub open spec fn of(constant: bool, linear: bool, quadratic: bool) -> RegressionSpec {
        RegressionSpec { constant, linear, quadratic }
    }

    /// The constant basis alone.
    pub fn constant() -> (s: RegressionSpec)
        ensures
            s == RegressionSpec::of(true, false, false),
    {
        RegressionSpec { constant: true, linear: false, quadratic: false }
    }

    /// The linear basis alone.
    pub fn linear() -> (s: RegressionSpec)
        ensures
            s == RegressionSpec::of(false, true, false),
    {
        RegressionSpec { constant: false, linear: true, quadratic: false }
    }

    /// The quadratic basis alone.
    pub fn quadratic() -> (s: RegressionSpec)
        ensures
            s == RegressionSpec::of(false, false, true),
    {
        RegressionSpec { constant: false, linear: false, quadratic: true }
    }

    /// Every basis.
    pub fn all() -> (s: RegressionSpec)
        ensures
            s == RegressionSpec::of(true, true, true),
            forall|m: MeanModel| s.allows(m),
    {
        RegressionSpec { constant: true, linear: true, quadratic: true }
    }

    /// The bases that `self` or `other` allows.
    pub fn union(self, other: RegressionSpec) -> (s: RegressionSpec)
        ensures
            forall|m: MeanModel| s.allows(m) == (self.allows(m) || other.allows(m)),
            s == RegressionSpec::of(
                self.constant || other.constant,
                self.linear || other.linear,
                self.quadratic || other.quadratic,
            ),
    {
        RegressionSpec {
            constant: self.constant || other.constant,
            linear: self.linear || other.linear,
            quadratic: self.quadratic || other.quadratic,
        }
    }

    /// Tells whether the basis `m` may be used.
    pub fn contains(&self, m: MeanModel) -> (r: bool)
        ensures
            r == self.allows(m),
    {
        match m {
            MeanModel::Constant => self.constant,
            MeanModel::Linear => self.linear,
            MeanModel::Quadratic => self.quadratic,
        }
    }

    /// Tells whether no basis may be used.
    pub fn is_empty(&self) -> (r: bool)
        ensures
            r == (forall|m: MeanModel| !self.allows(m)),
    {
        let r: bool = !self.constant && !self.linear && !self.quadratic;
        proof {
            if !r {
                assert(self.allows(MeanModel::Constant) || self.allows(MeanModel::Linear)
                    || self.allows(MeanModel::Quadratic));
            }
        }
        r
    }
}

/// The correlation kernels that the experts may use.
#[derive(Clone, Copy, Debug, PartialEq, Eq, Structural)]
pub struct CorrelationSpec {
    pub squared_exponential: bool,
    pub absolute_exponential: bool,
    pub matern32: bool,
    pub matern52: bool,
}

impl CorrelationSpec {
    /// The kernel `m` may be used.
    pub open spec fn allows(self, m: CorrelationModel) -> bool {
        match m {
            CorrelationModel::SquaredExponential => self.squared_exponential,
            CorrelationModel::AbsoluteExponential => self.absolute_exponential,
            CorrelationModel::Matern32 => self.matern32,
            CorrelationModel::Matern52 => self.matern52,
        }
    }

    /// The set that allows the listed kernels and no other.
    pub open spec fn of(
        squared_exponential: bool,
        absolute_exponential: bool,
        matern32: bool,
        matern52: bool,
    ) -> CorrelationSpec {
        CorrelationSpec { squared_exponential, absolute_exponential, matern32, matern52 }
    }

    /// The squared exponential kernel alone.
    pub fn squared_exponential() -> (s: CorrelationSpec)
        ensures
            s == CorrelationSpec::of(true, false, false, false),
    {
        CorrelationSpec {
            squared_exponential: true,
            absolute_exponential: false,
            matern32: false,
            matern52: false,
        }
    }

    /// The absolute exponential kernel alone.
    pub fn absolute_exponential() -> (s: CorrelationSpec)
        ensures
            s == CorrelationSpec::of(false, true, false, false),
    {
        CorrelationSpec {
            squared_exponential: false,
            absolute_exponential: true,
            matern32: false,
            matern52: false,
        }
    }

    /// The Matern 3/2 kernel alone.
    pub fn matern32() -> (s: CorrelationSpec)
        ensures
            s == CorrelationSpec::of(false, false, true, false),
    {
        CorrelationSpec {
            squared_exponential: false,
            absolute_exponential: false,
            matern32: true,
            matern52: false,
        }
    }

    /// The Matern 5/2 kernel alone.
    pub fn matern52() -> (s: CorrelationSpec)
        ensures
            s == CorrelationSpec::of(false, false, false, true),
    {
        CorrelationSpec {
            squared_exponential: false,
            absolute_exponential: false,
            matern32: false,
            matern52: true,
        }
    }

    /// Every kernel.
    pub fn all() -> (s: CorrelationSpec)
        ensures
            s == CorrelationSpec::of(true, true, true, true),
            forall|m: CorrelationModel| s.allows(m),
    {
        CorrelationSpec {
            squared_exponential: true,
            absolute_exponential: true,
            matern32: true,
            matern52: true,
        }
    }

    /// The kernels that `self` or `other` allows.
    pub fn union(self, other: CorrelationSpec) -> (s: CorrelationSpec)
        ensures
            forall|m: CorrelationModel| s.allows(m) == (self.allows(m) || other.allows(m)),
            s == CorrelationSpec::of(
                self.squared_exponential || other.squared_exponential,
                self.absolute_exponential || other.absolute_exponential,
                self.matern32 || other.matern32,
                self.matern52 || other.matern52,
            ),
    {
        CorrelationSpec {
            squared_exponential: self.squared_exponential || other.squared_exponential,
            absolute_exponential: self.absolute_exponential || other.absolute_exponential,
            matern32: self.matern32 || other.matern32,
            matern52: self.matern52 || other.matern52,
        }
    }

    /// Tells whether the kernel `m` may be used.
    pub fn contains(&self, m: CorrelationModel) -> (r: bool)
        ensures
            r == self.allows(m),
    {
        match m {
            CorrelationModel::SquaredExponential => self.squared_exponential,
            CorrelationModel::AbsoluteExponential => self.absolute_exponential,
            CorrelationModel::Matern32 => self.matern32,
            CorrelationModel::Matern52 => self.matern52,
        }
    }
}

/// How the correlation lengths of an expert are arrived at.
#[derive(Debug)]
pub enum ThetaTuning {
    /// The lengths are given and stay as they are.
    Fixed(Vec<Scalar>),
    /// The lengths are searched for, from `init`, each between its two
    /// `bounds`.
    Optimized { init: Vec<Scalar>, bounds: Vec<(Scalar, Scalar)> },
}

impl ThetaTuning {
    /// The lengths that are given, or that the search starts from.
    pub open spec fn init_values(self) -> Seq<Scalar> {
        match self {
            ThetaTuning::Fixed(v) => v@,
            ThetaTuning::Optimized { init, bounds } => init@,
        }
    }

    /// The bounds of the search; none where the lengths are fixed.
    pub open spec fn bound_values(self) -> Seq<(Scalar, Scalar)> {
        match self {
            ThetaTuning::Fixed(v) => Seq::empty(),
            ThetaTuning::Optimized { init, bounds } => bounds@,
        }
    }
}

impl Default for ThetaTuning {
    /// A search from 0.01 between 1e-6 and 100.
    fn default() -> (t: ThetaTuning)
        ensures
            t is Optimized,
            t.init_values() == seq![Scalar::pattern(THETA_INIT_BITS)],
            t.bound_values() == seq![
                (Scalar::pattern(THETA_LOWER_BITS), Scalar::pattern(THETA_UPPER_BITS)),
            ],
    {
        let mut init: Vec<Scalar> = Vec::new();
        init.push(Scalar { bits: THETA_INIT_BITS });
        let mut bounds: Vec<(Scalar, Scalar)> = Vec::new();
        bounds.push((Scalar { bits: THETA_LOWER_BITS }, Scalar { bits: THETA_UPPER_BITS }));
        assert(init@ =~= seq![Scalar::pattern(THETA_INIT_BITS)]);
        assert(bounds@ =~= seq![
            (Scalar::pattern(THETA_LOWER_BITS), Scalar::pattern(THETA_UPPER_BITS)),
        ]);
        ThetaTuning::Optimized { init, bounds }
    }
}

/// The approximation that a sparse Gaussian process uses.
#[derive(Clone, Copy, Debug, PartialEq, Eq, Structural)]
pub enum SparseMethod {
    /// Fully independent training conditional.
    Fitc,
    /// Variational free energy.
    Vfe,
}

/// The inducing points of a sparse Gaussian process.
#[derive(Debug)]
pub enum Inducings {
    /// That many points, drawn among the training rows.
    Randomized(usize),
    /// These points, one per row.
    Located(Matrix),
}

/// A Gaussian mixture over the inputs: for each of its clusters a weight, a
/// mean and a covariance.
#[derive(Debug)]
pub struct GaussianMixture {
    weights: Vec<Scalar>,
    means: Matrix,
    covariances: Vec<Matrix>,
}

/// The parts of a mixture of `weights.len()` clusters go together: one mean
/// per cluster, and per cluster a square covariance of the order of the
/// means.
pub open spec fn mixture_fits(weights: Seq<Scalar>, means: Matrix, covariances: Seq<Matrix>)
    -> bool {
    &&& means.rows() == weights.len()
    &&& covariances.len() == weights.len()
    &&& forall|c: int|
        0 <= c < covariances.len() ==> (#[trigger] covariances[c]).rows() == means.cols()
            && covariances[c].cols() == means.cols()
}

impl GaussianMixture {
    /// What holds of every value of this type.
    #[verifier::type_invariant]
    pub closed spec fn inv(self) -> bool {
        mixture_fits(self.weights@, self.means, self.covariances@)
    }

    /// The weight of each cluster.
    pub closed spec fn spec_weights(self) -> Seq<Scalar> {
        self.weights@
    }

    /// The mean of each cluster, one per row.
    pub closed spec fn spec_means(self) -> Matrix {
        self.means
    }

    /// The covariance of each cluster.
    pub closed spec fn spec_covariances(self) -> Seq<Matrix> {
        self.covariances@
    }

    /// The parts go together.
    pub open spec fn wf(self) -> bool {
        mixture_fits(self.spec_weights(), self.spec_means(), self.spec_covariances())
    }

    /// Number of clusters.
    pub open spec fn spec_n_clusters(self) -> nat {
        self.spec_weights().len()
    }

    /// Puts a mixture together. Refused unless there is one mean per weight
    /// and per weight a square covariance of the order of the means.
    pub fn new(weights: Vec<Scalar>, means: Matrix, covariances: Vec<Matrix>) -> (res: Result<
        GaussianMixture,
        MoeError,
    >)
        ensures
            res.is_ok() <==> mixture_fits(weights@, means, covariances@),
            res.is_err() ==> res.unwrap_err().text()
                == "weights, means and covariances do not have matching shapes"@,
            res.is_ok() ==> {
                let g = res.unwrap();
                &&& g.wf()
                &&& g.spec_weights() == weights@
                &&& g.spec_means() == means
                &&& g.spec_covariances() == covariances@
            },
    {
        let k: usize = weights.len();
        let d: usize = means.ncols();
        let mut fits: bool = means.nrows() == k && covariances.len() == k;
        let mut c: usize = 0;
        while c < covariances.len()
            invariant
                c <= covariances.len(),
                d == means.cols(),
                fits == (means.rows() == weights@.len() && covariances@.len() == weights@.len()
                    && forall|i: int|
                    0 <= i < c ==> (#[trigger] covariances@[i]).rows() == d && covariances@[i].cols()
                        == d),
            decreases covariances.len() - c,
        {
            if covariances[c].nrows() != d || covariances[c].ncols() != d {
                fits = false;
            }
            c = c + 1;
        }
        if fits {
            Ok(GaussianMixture { weights, means, covariances })
        } else {
            Err(
                MoeError::InvalidValueError(
                    "weights, means and covariances do not have matching shapes".to_owned(),
                ),
            )
        }
    }

    /// Number of clusters.
    pub fn n_clusters(&self) -> (k: usize)
        ensures
            k == self.spec_n_clusters(),
            self.wf(),
    {
        proof {
            use_type_invariant(self);
        }
        self.weights.len()
    }

    /// The weight of each cluster.
    pub fn weights(&self) -> (w: &Vec<Scalar>)
        ensures
            w@ == self.spec_weights(),
            self.wf(),
    {
        proof {
            use_type_invariant(self);
        }
        &self.weights
    }

    /// The mean of each cluster, one per row.
    pub fn means(&self) -> (m: &Matrix)
        ensures
            *m == self.spec_means(),
            self.wf(),
    {
        proof {
            use_type_invariant(self);
        }
        &self.means
    }

    /// The covariance of each cluster.
    pub fn covariances(&self) -> (c: &Vec<Matrix>)
        ensures
            c@ == self.spec_covariances(),
            self.wf(),
    {
        proof {
            use_type_invariant(self);
        }
        &self.covariances
    }
}

} // verus!
