//! Gaussian process regression: what is fixed before training, what training
//! leaves behind, and the decisions taken around the numerical kernels.
use crate::errors::EgoboxError;
use crate::matrix::lemma_flat_index_in_bounds;
use crate::matrix::Matrix;
use crate::scalar::Scalar;
use crate::scalar::INFINITY_BITS;
use crate::utils::lemma_upper_rows_entry;
use crate::utils::lemma_upper_rows_len;
use crate::utils::lemma_upper_rows_unrank;
use crate::utils::pair_count;
use crate::utils::pair_rank;
use crate::utils::upper_pairs;
use crate::utils::DistanceMatrix;
use crate::utils::NormalizedMatrix;
use vstd::prelude::*;

verus! {

/// Pattern of 0.01, the correlation length that training starts from unless
/// told otherwise.
pub const DEFAULT_THETA_BITS: u64 = 0x3f84_7ae1_47ae_147b;

/// Pattern of -6, the lower bound on the decimal logarithm of a correlation
/// length.
pub const LOG_THETA_LOWER_BITS: u64 = 0xc018_0000_0000_0000;

/// Pattern of 2, the upper bound on the decimal logarithm of a correlation
/// length.
pub const LOG_THETA_UPPER_BITS: u64 = 0x4000_0000_0000_0000;

/// Pattern of 0.01, the tolerance on each bound.
pub const BOUND_TOLERANCE_BITS: u64 = 0x3f84_7ae1_47ae_147b;

/// Pattern of 0.5, the first step of the search.
pub const INITIAL_STEP_BITS: u64 = 0x3fe0_0000_0000_0000;

/// Evaluations of the likelihood granted per correlation length.
pub const EVALUATIONS_PER_DIMENSION: u32 = 10;

/// Pattern of one plus ten times the machine epsilon, the diagonal of the
/// correlation matrix: the excess over one keeps the matrix positive
/// definite.
pub const NUGGET_DIAGONAL_BITS: u64 = 0x3ff0_0000_0000_000a;

/// Pattern of 1e-10: below this ratio of its extreme singular values the
/// factor of the regression matrix counts as ill conditioned.
pub const ILL_CONDITIONED_BITS: u64 = 0x3ddb_7cdf_d9d7_bdbb;

/// Pattern of 1e15: above this condition number the regression matrix itself
/// is to blame.
pub const INCOMPATIBLE_BITS: u64 = 0x430c_6bf5_2634_0000;

/// The regression basis that gives the mean of the process.
#[derive(Clone, Copy, Debug, PartialEq, Eq, Structural)]
pub enum MeanModel {
    /// `[1]`
    Constant,
    /// `[1, x_1, .., x_d]`
    Linear,
    /// `[1, x_1, .., x_d, x_1 x_1, x_1 x_2, .., x_d x_d]`
    Quadratic,
}

impl MeanModel {
    /// Number of basis functions over `d` inputs.
    pub open spec fn spec_basis_size(self, d: nat) -> nat {
        match self {
            MeanModel::Constant => 1,
            MeanModel::Linear => d + 1,
            MeanModel::Quadratic => (d + 1) * (d + 2) / 2,
        }
    }

    /// Number of basis functions over `d` inputs; `None` when the number
    /// cannot be held.
    pub fn basis_size(&self, d: usize) -> (r: Option<usize>)
        ensures
            r.is_some() <==> self.spec_basis_size(d as nat) <= usize::MAX,
            r.is_some() ==> r.unwrap() == self.spec_basis_size(d as nat),
    {
        match self {
            MeanModel::Constant => Some(1),
            MeanModel::Linear => d.checked_add(1),
            MeanModel::Quadratic => {
                let wide: u128 = d as u128;
                if wide >= 0x1_0000_0000_0000 {
                    assert((d + 1) * (d + 2) >= 0x1_0000_0000_0000 * 0x1_0000_0000_0000)
                        by (nonlinear_arith)
                        requires
                            d >= 0x1_0000_0000_0000,
                    ;
                    None
                } else {
                    let a: u128 = wide + 1;
                    let b: u128 = wide + 2;
                    assert(a * b <= 0x1_0000_0000_0000 * 0x1_0000_0000_0001) by (nonlinear_arith)
                        requires
                            0 <= a <= 0x1_0000_0000_0000,
                            0 <= b <= 0x1_0000_0000_0001,
                    ;
                    let p: u128 = a * b / 2;
                    if p <= usize::MAX as u128 {
                        Some(p as usize)
                    } else {
                        None
                    }
                }
            },
        }
    }
}

/// What is chosen before a Gaussian process is trained: the correlation
/// length that the search starts from and the regression basis.
#[derive(Clone, Copy, Debug)]
pub struct GpHyperParams {
    theta: Scalar,
    mean: MeanModel,
}

/// How the correlation lengths are searched for: in the decimal logarithm of
/// each length, from `start`, between `lower` and `upper`.
#[derive(Debug)]
pub struct ThetaSearch {
    /// The correlation length to start from, once per input column. The
    /// search itself runs on the decimal logarithms of these.
    pub start: Vec<Scalar>,
    /// Lower bound on each logarithm.
    pub lower: Scalar,
    /// Upper bound on each logarithm.
    pub upper: Scalar,
    /// By how much a bound may be overstepped.
    pub tolerance: Scalar,
    /// Length of the first step.
    pub initial_step: Scalar,
    /// Number of likelihood evaluations granted.
    pub max_evaluations: u32,
}

impl GpHyperParams {
    /// The correlation length that the search starts from.
    pub closed spec fn spec_initial_theta(&self) -> Scalar {
        self.theta
    }

    /// The regression basis.
    pub closed spec fn spec_mean(&self) -> MeanModel {
        self.mean
    }

    /// Parameters with the given regression basis and the default starting
    /// correlation length, 0.01.
    pub fn new(mean: MeanModel) -> (p: GpHyperParams)
        ensures
            p.spec_mean() == mean,
            p.spec_initial_theta().bits == DEFAULT_THETA_BITS,
    {
        GpHyperParams { theta: Scalar { bits: DEFAULT_THETA_BITS }, mean }
    }

    /// The correlation length that the search starts from.
    #[verifier::when_used_as_spec(spec_initial_theta)]
    pub fn initial_theta(&self) -> (theta: Scalar)
        ensures
            theta == self.spec_initial_theta(),
    {
        self.theta
    }

    /// The regression basis.
    #[verifier::when_used_as_spec(spec_mean)]
    pub fn mean(&self) -> (mean: MeanModel)
        ensures
            mean == self.spec_mean(),
    {
        self.mean
    }

    /// The same parameters with another starting correlation length.
    pub fn with_initial_theta(self, theta: Scalar) -> (p: GpHyperParams)
        ensures
            p.spec_initial_theta() == theta,
            p.spec_mean() == self.spec_mean(),
    {
        GpHyperParams { theta, mean: self.mean }
    }

    /// The same parameters with another regression basis.
    pub fn with_mean(self, mean: MeanModel) -> (p: GpHyperParams)
        ensures
            p.spec_mean() == mean,
            p.spec_initial_theta() == self.spec_initial_theta(),
    {
        GpHyperParams { theta: self.theta, mean }
    }

    /// Lays out the search for the correlation lengths of a training set with
    /// `n_features` columns: one length per column, each starting from
    /// `initial_theta()`, its logarithm kept between -6 and 2 within 0.01, a
    /// first step of 0.5 and ten evaluations per column. `None` when that
    /// many evaluations cannot be counted.
    pub fn theta_search(&self, n_features: usize) -> (r: Option<ThetaSearch>)
        ensures
            r.is_some() <==> EVALUATIONS_PER_DIMENSION * n_features <= u32::MAX,
            r.is_some() ==> {
                let s = r.unwrap();
                &&& s.start@ == Seq::new(n_features as nat, |i: int| self.spec_initial_theta())
                &&& s.lower.bits == LOG_THETA_LOWER_BITS
                &&& s.upper.bits == LOG_THETA_UPPER_BITS
                &&& s.tolerance.bits == BOUND_TOLERANCE_BITS
                &&& s.initial_step.bits == INITIAL_STEP_BITS
                &&& s.max_evaluations == EVALUATIONS_PER_DIMENSION * n_features
            },
    {
        if n_features > 429_496_729 {
            return None;
        }
        let max_evaluations: u32 = EVALUATIONS_PER_DIMENSION * (n_features as u32);
        let mut start: Vec<Scalar> = Vec::new();
        let mut i: usize = 0;
        while i < n_features
            invariant
                i <= n_features,
                start@ == Seq::new(i as nat, |i: int| self.spec_initial_theta()),
            decreases n_features - i,
        {
            start.push(self.theta);
            i = i + 1;
            assert(start@ =~= Seq::new(i as nat, |i: int| self.spec_initial_theta()));
        }
        Some(
            ThetaSearch {
                start,
                lower: Scalar { bits: LOG_THETA_LOWER_BITS },
                upper: Scalar { bits: LOG_THETA_UPPER_BITS },
                tolerance: Scalar { bits: BOUND_TOLERANCE_BITS },
                initial_step: Scalar { bits: INITIAL_STEP_BITS },
                max_evaluations,
            },
        )
    }
}

/// The entry in row `a`, column `b` of the correlation matrix of `n`
/// training rows: `diagonal` where `a == b`, elsewhere the correlation of the
/// pair of rows `a` and `b`, which `r` lists in the order of the table of
/// pairs.
pub open spec fn correlation_entry(n: nat, r: Seq<Scalar>, diagonal: Scalar, a: nat, b: nat)
    -> Scalar {
    if a == b {
        diagonal
    } else if a < b {
        r[pair_rank(n, a, b) as int]
    } else {
        r[pair_rank(n, b, a) as int]
    }
}

/// The correlation matrix while only the first `k` pairs have been written.
spec fn partial_entry(
    n: nat,
    r: Seq<Scalar>,
    diagonal: Scalar,
    k: nat,
    a: nat,
    b: nat,
) -> Scalar {
    if a == b {
        diagonal
    } else if a < b {
        if pair_rank(n, a, b) < k {
            r[pair_rank(n, a, b) as int]
        } else {
            Scalar::origin()
        }
    } else {
        if pair_rank(n, b, a) < k {
            r[pair_rank(n, b, a) as int]
        } else {
            Scalar::origin()
        }
    }
}

/// What `symmetric_matrix` accepts: one correlation per pair of training
/// rows, in one column, and a matrix that this machine can address.
pub open spec fn correlations_fit(n: nat, r: Matrix) -> bool {
    &&& r.rows() == pair_count(n)
    &&& r.cols() == 1
    &&& n * n <= usize::MAX
}

/// Assembles a symmetric matrix over the training rows from one value per
/// pair of rows: `diagonal` on the diagonal, and the value of the rows `a`
/// and `b` both in row `a`, column `b` and in row `b`, column `a`.
pub fn symmetric_matrix(x_distances: &DistanceMatrix, r: &Matrix, diagonal: Scalar) -> (res:
    Result<Matrix, EgoboxError>)
    ensures
        res.is_ok() <==> correlations_fit(x_distances.obs(), *r),
        res.is_err() ==> res == Err::<Matrix, EgoboxError>(EgoboxError::InvalidInput),
        res.is_ok() ==> {
            let m = res.unwrap();
            &&& m.wf()
            &&& m.rows() == x_distances.obs()
            &&& m.cols() == x_distances.obs()
            &&& forall|a: int, b: int|
                0 <= a < x_distances.obs() && 0 <= b < x_distances.obs() ==> #[trigger] m.at(a, b)
                    == correlation_entry(
                    x_distances.obs(),
                    r.cells(),
                    diagonal,
                    a as nat,
                    b as nat,
                )
        },
{
    let n: usize = x_distances.n_obs();
    let pairs: &Vec<(usize, usize)> = x_distances.d_indices();
    let count: usize = pairs.len();
    proof {
        lemma_upper_rows_len(n as nat, n as nat);
    }
    if r.nrows() != count || r.ncols() != 1 {
        return Err(EgoboxError::InvalidInput);
    }
    let mut m: Matrix = match Matrix::diagonal(n, diagonal) {
        Some(m) => m,
        None => {
            return Err(EgoboxError::InvalidInput);
        },
    };
    let mut k: usize = 0;
    while k < count
        invariant
            k <= count,
            count == pair_count(n as nat),
            pairs@ == upper_pairs(n as nat),
            pairs@.len() == count,
            r.wf(),
            r.rows() == count,
            r.cols() == 1,
            m.wf(),
            m.rows() == n,
            m.cols() == n,
            forall|a: int, b: int|
                0 <= a < n && 0 <= b < n ==> #[trigger] m.at(a, b) == partial_entry(
                    n as nat,
                    r.cells(),
                    diagonal,
                    k as nat,
                    a as nat,
                    b as nat,
                ),
        decreases count - k,
    {
        let (i, j) = pairs[k];
        proof {
            lemma_upper_rows_unrank(n as nat, n as nat, k as int);
        }
        let v: Scalar = r.entry(k, 0);
        let ghost before = m;
        m = m.put(i, j, v);
        m = m.put(j, i, v);
        proof {
            assert forall|a: int, b: int| 0 <= a < n && 0 <= b < n implies #[trigger] m.at(a, b)
                == partial_entry(
                n as nat,
                r.cells(),
                diagonal,
                (k + 1) as nat,
                a as nat,
                b as nat,
            ) by {
                assert(before.at(a, b) == partial_entry(
                    n as nat,
                    r.cells(),
                    diagonal,
                    k as nat,
                    a as nat,
                    b as nat,
                ));
                if a < b {
                    lemma_upper_rows_entry(n as nat, n as nat, a as nat, b as nat);
                } else if b < a {
                    lemma_upper_rows_entry(n as nat, n as nat, b as nat, a as nat);
                }
            }
        }
        k = k + 1;
    }
    proof {
        assert forall|a: int, b: int| 0 <= a < n && 0 <= b < n implies #[trigger] m.at(a, b)
            == correlation_entry(n as nat, r.cells(), diagonal, a as nat, b as nat) by {
            if a < b {
                lemma_upper_rows_entry(n as nat, n as nat, a as nat, b as nat);
            } else if b < a {
                lemma_upper_rows_entry(n as nat, n as nat, b as nat, a as nat);
            }
        }
    }
    Ok(m)
}

/// Assembles the correlation matrix of the training rows from the
/// correlations of their pairs: one plus ten times the machine epsilon on
/// the diagonal, and the correlation of the rows `a` and `b` both in row
/// `a`, column `b` and in row `b`, column `a`.
pub fn correlation_matrix(x_distances: &DistanceMatrix, r: &Matrix) -> (res: Result<
    Matrix,
    EgoboxError,
>)
    ensures
        res.is_ok() <==> correlations_fit(x_distances.obs(), *r),
        res.is_err() ==> res == Err::<Matrix, EgoboxError>(EgoboxError::InvalidInput),
        res.is_ok() ==> {
            let m = res.unwrap();
            &&& m.wf()
            &&& m.rows() == x_distances.obs()
            &&& m.cols() == x_distances.obs()
            &&& forall|a: int, b: int|
                0 <= a < x_distances.obs() && 0 <= b < x_distances.obs() ==> #[trigger] m.at(a, b)
                    == correlation_entry(
                    x_distances.obs(),
                    r.cells(),
                    Scalar::pattern(NUGGET_DIAGONAL_BITS),
                    a as nat,
                    b as nat,
                )
        },
{
    symmetric_matrix(x_distances, r, Scalar { bits: NUGGET_DIAGONAL_BITS })
}

/// The correlation matrix is symmetric.
pub proof fn lemma_correlation_symmetric(n: nat, r: Seq<Scalar>, diagonal: Scalar, a: nat, b: nat)
    ensures
        correlation_entry(n, r, diagonal, a, b) == correlation_entry(n, r, diagonal, b, a),
{
}

/// What the search for the correlation lengths is given for one candidate:
/// the reduced likelihood with its sign changed, since the search looks for
/// a minimum, and plus infinity where the likelihood could not be computed,
/// so that the search goes on elsewhere.
pub fn objective_value(outcome: &Result<Scalar, EgoboxError>) -> (v: Scalar)
    ensures
        v == (match *outcome {
            Ok(likelihood) => likelihood.spec_neg(),
            Err(_) => Scalar::pattern(INFINITY_BITS),
        }),
{
    match outcome {
        Ok(likelihood) => likelihood.neg(),
        Err(_) => Scalar { bits: INFINITY_BITS },
    }
}

/// Tells whether the factor of the regression matrix is ill conditioned:
/// whether `ratio`, its smallest singular value over its largest, is below
/// 1e-10. A ratio that is not a number is not below anything.
pub fn ft_is_ill_conditioned(ratio: Scalar) -> (ill: bool)
    ensures
        ill == ratio.spec_lt(Scalar::pattern(ILL_CONDITIONED_BITS)),
{
    ratio.lt(&Scalar { bits: ILL_CONDITIONED_BITS })
}

/// Names the failure once the factor of the regression matrix has been found
/// ill conditioned: with `condition`, the condition number of the regression
/// matrix itself, above 1e15 the basis does not go with the observations;
/// otherwise other correlation lengths may do.
pub fn ill_conditioning_error(condition: Scalar) -> (e: EgoboxError)
    ensures
        e == (if Scalar::pattern(INCOMPATIBLE_BITS).spec_lt(condition) {
            EgoboxError::LikelihoodIncompatibleBasis
        } else {
            EgoboxError::LikelihoodIllConditioned
        }),
{
    if (Scalar { bits: INCOMPATIBLE_BITS }).lt(&condition) {
        EgoboxError::LikelihoodIncompatibleBasis
    } else {
        EgoboxError::LikelihoodIllConditioned
    }
}

/// What training leaves behind for prediction, for `n` training rows, `p`
/// basis functions and `k` outputs.
#[derive(Debug)]
pub struct GpInnerParams {
    sigma2: Vec<Scalar>,
    beta: Matrix,
    gamma: Matrix,
    r_chol: Matrix,
    ft: Matrix,
    ft_qr_r: Matrix,
}

/// What holds of the parts of `GpInnerParams` for `n` training rows, `p`
/// basis functions and `k` outputs: each has the shape that goes with the
/// three counts, the Cholesky factor is lower triangular and the factor of
/// `ft` upper triangular.
pub open spec fn inner_shapes(
    n: nat,
    p: nat,
    k: nat,
    sigma2: Seq<Scalar>,
    beta: Matrix,
    gamma: Matrix,
    r_chol: Matrix,
    ft: Matrix,
    ft_qr_r: Matrix,
) -> bool {
    &&& sigma2.len() == k
    &&& beta.rows() == p && beta.cols() == k
    &&& gamma.rows() == n && gamma.cols() == k
    &&& r_chol.rows() == n && r_chol.cols() == n
    &&& ft.rows() == n && ft.cols() == p
    &&& ft_qr_r.rows() == p && ft_qr_r.cols() == p
    &&& r_chol.lower_triangular()
    &&& ft_qr_r.upper_triangular()
}

impl GpInnerParams {
    /// What holds of every value of this type.
    #[verifier::type_invariant]
    pub closed spec fn inv(self) -> bool {
        &&& self.beta.wf() && self.gamma.wf() && self.r_chol.wf() && self.ft.wf()
            && self.ft_qr_r.wf()
        &&& inner_shapes(
            self.r_chol.rows(),
            self.ft.cols(),
            self.sigma2@.len(),
            self.sigma2@,
            self.beta,
            self.gamma,
            self.r_chol,
            self.ft,
            self.ft_qr_r,
        )
    }

    /// Variance of the process, one per output.
    pub closed spec fn spec_sigma2(self) -> Seq<Scalar> {
        self.sigma2@
    }

    /// Weights of the regression basis, `p` by `k`.
    pub closed spec fn spec_beta(self) -> Matrix {
        self.beta
    }

    /// Weights of the training rows, `n` by `k`.
    pub closed spec fn spec_gamma(self) -> Matrix {
        self.gamma
    }

    /// Lower Cholesky factor of the correlation matrix, `n` by `n`.
    pub closed spec fn spec_r_chol(self) -> Matrix {
        self.r_chol
    }

    /// The regression matrix solved against the Cholesky factor, `n` by `p`.
    pub closed spec fn spec_ft(self) -> Matrix {
        self.ft
    }

    /// Upper triangular factor of `ft`, `p` by `p`.
    pub closed spec fn spec_ft_qr_r(self) -> Matrix {
        self.ft_qr_r
    }

    /// Number of training rows.
    pub open spec fn n_train(self) -> nat {
        self.spec_r_chol().rows()
    }

    /// Number of basis functions.
    pub open spec fn n_basis(self) -> nat {
        self.spec_ft().cols()
    }

    /// Number of outputs.
    pub open spec fn n_outputs(self) -> nat {
        self.spec_sigma2().len()
    }

    /// Every part has the shape that the three counts ask for, and the two
    /// factors are triangular.
    pub open spec fn wf(self) -> bool {
        &&& self.spec_beta().wf() && self.spec_gamma().wf() && self.spec_r_chol().wf()
            && self.spec_ft().wf() && self.spec_ft_qr_r().wf()
        &&& inner_shapes(
            self.n_train(),
            self.n_basis(),
            self.n_outputs(),
            self.spec_sigma2(),
            self.spec_beta(),
            self.spec_gamma(),
            self.spec_r_chol(),
            self.spec_ft(),
            self.spec_ft_qr_r(),
        )
    }

    /// Puts the results of a fit together. `InvalidInput` unless, with `n`
    /// the order of `r_chol`, `p` the number of columns of `ft` and `k` the
    /// length of `sigma2`, every part has the shape that goes with them,
    /// `r_chol` is lower triangular and `ft_qr_r` upper triangular.
    pub fn new(
        sigma2: Vec<Scalar>,
        beta: Matrix,
        gamma: Matrix,
        r_chol: Matrix,
        ft: Matrix,
        ft_qr_r: Matrix,
    ) -> (res: Result<GpInnerParams, EgoboxError>)
        ensures
            res.is_ok() <==> inner_shapes(
                r_chol.rows(),
                ft.cols(),
                sigma2@.len(),
                sigma2@,
                beta,
                gamma,
                r_chol,
                ft,
                ft_qr_r,
            ),
            res.is_err() ==> res.unwrap_err() == EgoboxError::InvalidInput,
            res.is_ok() ==> {
                let g = res.unwrap();
                &&& g.wf()
                &&& g.spec_sigma2() == sigma2@
                &&& g.spec_beta() == beta
                &&& g.spec_gamma() == gamma
                &&& g.spec_r_chol() == r_chol
                &&& g.spec_ft() == ft
                &&& g.spec_ft_qr_r() == ft_qr_r
            },
    {
        let n: usize = r_chol.nrows();
        let p: usize = ft.ncols();
        let k: usize = sigma2.len();
        let fits: bool = beta.nrows() == p && beta.ncols() == k && gamma.nrows() == n
            && gamma.ncols() == k && r_chol.ncols() == n && ft.nrows() == n && ft_qr_r.nrows()
            == p && ft_qr_r.ncols() == p && r_chol.is_lower_triangular()
            && ft_qr_r.is_upper_triangular();
        if fits {
            Ok(GpInnerParams { sigma2, beta, gamma, r_chol, ft, ft_qr_r })
        } else {
            Err(EgoboxError::InvalidInput)
        }
    }

    /// Variance of the process, one per output.
    pub fn sigma2(&self) -> (v: &Vec<Scalar>)
        ensures
            v@ == self.spec_sigma2(),
            self.wf(),
    {
        proof {
            use_type_invariant(self);
        }
        &self.sigma2
    }

    /// Weights of the regression basis.
    pub fn beta(&self) -> (m: &Matrix)
        ensures
            *m == self.spec_beta(),
            self.wf(),
    {
        proof {
            use_type_invariant(self);
        }
        &self.beta
    }

    /// Weights of the training rows.
    pub fn gamma(&self) -> (m: &Matrix)
        ensures
            *m == self.spec_gamma(),
            self.wf(),
    {
        proof {
            use_type_invariant(self);
        }
        &self.gamma
    }

    /// Lower Cholesky factor of the correlation matrix.
    pub fn r_chol(&self) -> (m: &Matrix)
        ensures
            *m == self.spec_r_chol(),
            self.wf(),
    {
        proof {
            use_type_invariant(self);
        }
        &self.r_chol
    }

    /// The regression matrix solved against the Cholesky factor.
    pub fn ft(&self) -> (m: &Matrix)
        ensures
            *m == self.spec_ft(),
            self.wf(),
    {
        proof {
            use_type_invariant(self);
        }
        &self.ft
    }

    /// Upper triangular factor of `ft`.
    pub fn ft_qr_r(&self) -> (m: &Matrix)
        ensures
            *m == self.spec_ft_qr_r(),
            self.wf(),
    {
        proof {
            use_type_invariant(self);
        }
        &self.ft_qr_r
    }
}

impl Default for GpInnerParams {
    /// The parameters of an untrained process with one training row, one
    /// basis function and one output: every entry is zero.
    fn default() -> (g: GpInnerParams)
        ensures
            g.wf(),
            g.n_train() == 1,
            g.n_basis() == 1,
            g.n_outputs() == 1,
            g.spec_sigma2() == seq![Scalar::origin()],
            g.spec_beta().cells() == seq![Scalar::origin()],
            g.spec_gamma().cells() == seq![Scalar::origin()],
            g.spec_r_chol().cells() == seq![Scalar::origin()],
            g.spec_ft().cells() == seq![Scalar::origin()],
            g.spec_ft_qr_r().cells() == seq![Scalar::origin()],
    {
        let zero: Scalar = Scalar { bits: 0 };
        let mut sigma2: Vec<Scalar> = Vec::new();
        sigma2.push(zero);
        let beta: Matrix = zero_cell();
        let gamma: Matrix = zero_cell();
        let r_chol: Matrix = zero_cell();
        let ft: Matrix = zero_cell();
        let ft_qr_r: Matrix = zero_cell();
        assert(sigma2@ =~= seq![Scalar::origin()]);
        GpInnerParams { sigma2, beta, gamma, r_chol, ft, ft_qr_r }
    }
}

/// The one by one matrix whose entry is zero.
fn zero_cell() -> (m: Matrix)
    ensures
        m.wf(),
        m.rows() == 1,
        m.cols() == 1,
        m.cells() == seq![Scalar::origin()],
{
    let m: Option<Matrix> = Matrix::filled(1, 1, Scalar { bits: 0 });
    assert(Seq::new(1, |k: int| Scalar::origin()) =~= seq![Scalar::origin()]);
    m.unwrap()
}

/// A trained Gaussian process: the correlation lengths found, the regression
/// basis, what the fit left behind and the scaled training set.
#[derive(Debug)]
pub struct GaussianProcess {
    theta: Vec<Scalar>,
    mean: MeanModel,
    inner_params: GpInnerParams,
    xtrain: NormalizedMatrix,
    ytrain: NormalizedMatrix,
}

/// The parts of a trained process go together: one correlation length per
/// input column, as many outputs as training rows, and fit results for that
/// many rows, outputs and basis functions.
pub open spec fn model_fits(
    theta: Seq<Scalar>,
    mean: MeanModel,
    inner_params: GpInnerParams,
    xtrain: NormalizedMatrix,
    ytrain: NormalizedMatrix,
) -> bool {
    &&& theta.len() == xtrain.scaled().cols()
    &&& ytrain.scaled().rows() == xtrain.scaled().rows()
    &&& inner_params.n_train() == xtrain.scaled().rows()
    &&& inner_params.n_outputs() == ytrain.scaled().cols()
    &&& inner_params.n_basis() == mean.spec_basis_size(xtrain.scaled().cols())
}

impl GaussianProcess {
    /// What holds of every value of this type.
    #[verifier::type_invariant]
    pub closed spec fn inv(self) -> bool {
        &&& self.inner_params.wf()
        &&& self.xtrain.wf()
        &&& self.ytrain.wf()
        &&& model_fits(self.theta@, self.mean, self.inner_params, self.xtrain, self.ytrain)
    }

    /// The correlation lengths, one per input column.
    pub closed spec fn spec_theta(self) -> Vec<Scalar> {
        self.theta
    }

    /// The regression basis.
    pub closed spec fn spec_mean(self) -> MeanModel {
        self.mean
    }

    /// What the fit left behind.
    pub closed spec fn spec_inner_params(self) -> GpInnerParams {
        self.inner_params
    }

    /// The scaled training inputs.
    pub closed spec fn spec_xtrain(self) -> NormalizedMatrix {
        self.xtrain
    }

    /// The scaled training outputs.
    pub closed spec fn spec_ytrain(self) -> NormalizedMatrix {
        self.ytrain
    }

    /// Number of input columns.
    pub open spec fn n_features(self) -> nat {
        self.spec_theta()@.len()
    }

    /// Number of training rows.
    pub open spec fn n_train(self) -> nat {
        self.spec_xtrain().scaled().rows()
    }

    /// The parts go together.
    pub open spec fn wf(self) -> bool {
        &&& self.spec_inner_params().wf()
        &&& self.spec_xtrain().wf()
        &&& self.spec_ytrain().wf()
        &&& model_fits(
            self.spec_theta()@,
            self.spec_mean(),
            self.spec_inner_params(),
            self.spec_xtrain(),
            self.spec_ytrain(),
        )
    }

    /// The parameters to train a process with the given regression basis.
    pub fn params(mean: MeanModel) -> (p: GpHyperParams)
        ensures
            p.spec_mean() == mean,
            p.spec_initial_theta().bits == DEFAULT_THETA_BITS,
    {
        GpHyperParams::new(mean)
    }

    /// Puts a trained process together. `InvalidInput` unless the parts go
    /// together as `model_fits` says.
    pub fn new(
        theta: Vec<Scalar>,
        mean: MeanModel,
        inner_params: GpInnerParams,
        xtrain: NormalizedMatrix,
        ytrain: NormalizedMatrix,
    ) -> (res: Result<GaussianProcess, EgoboxError>)
        ensures
            res.is_ok() <==> model_fits(theta@, mean, inner_params, xtrain, ytrain),
            res.is_err() ==> res.unwrap_err() == EgoboxError::InvalidInput,
            res.is_ok() ==> {
                let gp = res.unwrap();
                &&& gp.wf()
                &&& gp.spec_theta() == theta
                &&& gp.spec_mean() == mean
                &&& gp.spec_inner_params() == inner_params
                &&& gp.spec_xtrain() == xtrain
                &&& gp.spec_ytrain() == ytrain
            },
    {
        let d: usize = xtrain.ncols();
        let n: usize = xtrain.nrows();
        let n_train: usize = inner_params.r_chol().nrows();
        let n_basis: usize = inner_params.ft().ncols();
        let n_outputs: usize = inner_params.sigma2().len();
        let basis: Option<usize> = mean.basis_size(d);
        let fits: bool = theta.len() == d && ytrain.nrows() == n && n_train == n && n_outputs
            == ytrain.ncols() && basis == Some(n_basis);
        if fits {
            Ok(GaussianProcess { theta, mean, inner_params, xtrain, ytrain })
        } else {
            Err(EgoboxError::InvalidInput)
        }
    }

    /// The correlation lengths, one per input column.
    pub fn theta(&self) -> (v: &Vec<Scalar>)
        ensures
            *v == self.spec_theta(),
            self.wf(),
    {
        proof {
            use_type_invariant(self);
        }
        &self.theta
    }

    /// The regression basis.
    pub fn mean(&self) -> (mean: MeanModel)
        ensures
            mean == self.spec_mean(),
    {
        self.mean
    }

    /// What the fit left behind.
    pub fn inner_params(&self) -> (g: &GpInnerParams)
        ensures
            *g == self.spec_inner_params(),
            self.wf(),
    {
        proof {
            use_type_invariant(self);
        }
        &self.inner_params
    }

    /// The scaled training inputs.
    pub fn xtrain(&self) -> (m: &NormalizedMatrix)
        ensures
            *m == self.spec_xtrain(),
            self.wf(),
    {
        proof {
            use_type_invariant(self);
        }
        &self.xtrain
    }

    /// The scaled training outputs.
    pub fn ytrain(&self) -> (m: &NormalizedMatrix)
        ensures
            *m == self.spec_ytrain(),
            self.wf(),
    {
        proof {
            use_type_invariant(self);
        }
        &self.ytrain
    }

    /// Checks the points at which a prediction is asked for: `InvalidInput`
    /// unless `x` has one column per input column of the training set.
    pub fn check_input(&self, x: &Matrix) -> (res: Result<(), EgoboxError>)
        ensures
            res.is_ok() <==> x.cols() == self.n_features(),
            res.is_err() ==> res.unwrap_err() == EgoboxError::InvalidInput,
    {
        if x.ncols() == self.theta.len() {
            Ok(())
        } else {
            Err(EgoboxError::InvalidInput)
        }
    }

    /// Arranges the correlations between `n_obs` query points and the
    /// training rows, which come as one list with the training rows running
    /// fastest, as a matrix with one row per query point and one column per
    /// training row. `InvalidInput` unless the list has one entry for each
    /// query point and training row.
    pub fn shape_correlation(&self, r: Matrix, n_obs: usize) -> (res: Result<Matrix, EgoboxError>)
        ensures
            res.is_ok() <==> r.cells().len() == n_obs * self.n_train(),
            res.is_err() ==> res.unwrap_err() == EgoboxError::InvalidInput,
            res.is_ok() ==> {
                let m = res.unwrap();
                &&& m.wf()
                &&& m.rows() == n_obs
                &&& m.cols() == self.n_train()
                &&& m.cells() == r.cells()
                &&& forall|i: int, k: int|
                    0 <= i < n_obs && 0 <= k < self.n_train() ==> #[trigger] m.at(i, k)
                        == r.cells()[i * self.n_train() + k]
            },
    {
        let nt: usize = self.xtrain.nrows();
        match r.into_shape(n_obs, nt) {
            Some(m) => Ok(m),
            None => Err(EgoboxError::InvalidInput),
        }
    }
}

/// Arranges the variances predicted at `n_obs` points as one column and
/// replaces those that rounding has pushed below zero by zero: no variance
/// that comes out is below zero, and each that went in as a number is at
/// least zero. `InvalidInput` unless there is one variance per point.
pub fn clamped_variances(mse: Matrix, n_obs: usize) -> (res: Result<Matrix, EgoboxError>)
    ensures
        res.is_ok() <==> mse.cells().len() == n_obs,
        res.is_err() ==> res.unwrap_err() == EgoboxError::InvalidInput,
        res.is_ok() ==> {
            let m = res.unwrap();
            &&& m.wf()
            &&& m.rows() == n_obs
            &&& m.cols() == 1
            &&& m.cells().len() == n_obs
            &&& forall|i: int|
                0 <= i < n_obs ==> #[trigger] m.cells()[i]
                    == mse.cells()[i].spec_clamp_negative()
            &&& forall|i: int| 0 <= i < n_obs ==> !(#[trigger] m.cells()[i]).is_negative()
            &&& forall|i: int|
                0 <= i < n_obs && !mse.cells()[i].is_nan() ==> Scalar::origin().spec_le(
                    #[trigger] m.cells()[i],
                )
        },
{
    match mse.into_shape(n_obs, 1) {
        Some(column) => Ok(column.clamp_negative()),
        None => Err(EgoboxError::InvalidInput),
    }
}

/// `out` is `x` with `scale` applied entry by entry, each entry together
/// with the mean and the deviation that `stats` holds for its column.
pub open spec fn scaled_by<N: Fn(Scalar, Scalar, Scalar) -> Scalar>(
    scale: N,
    x: Matrix,
    stats: NormalizedMatrix,
    out: Matrix,
) -> bool {
    &&& out.wf()
    &&& out.same_shape(x)
    &&& forall|i: int, c: int|
        0 <= i < x.rows() && 0 <= c < x.cols() ==> call_ensures(
            scale,
            (x.at(i, c), stats.means().at(0, c), stats.deviations().at(0, c)),
            #[trigger] out.at(i, c),
        )
}

/// `dx` lists, query row by query row, what `diff` gives for each training
/// row and the query row, column by column: the rows of `dx` that belong to
/// query row `i` are those from `i * train.rows()` on, one per training row.
pub open spec fn differences_of<D: Fn(Scalar, Scalar) -> Scalar>(
    diff: D,
    train: Matrix,
    query: Matrix,
    dx: Matrix,
) -> bool {
    &&& dx.wf()
    &&& dx.rows() == query.rows() * train.rows()
    &&& dx.cols() == train.cols()
    &&& forall|i: int, k: int, c: int|
        0 <= i < query.rows() && 0 <= k < train.rows() && 0 <= c < train.cols()
            ==> call_ensures(
            diff,
            (train.at(k, c), query.at(i, c)),
            #[trigger] dx.at(i * train.rows() + k, c),
        )
}

/// `r` is one column that holds, for each row of `d`, what `kernel` gives
/// for the correlation lengths `theta` and that row.
pub open spec fn kernel_of<K: Fn(&Vec<Scalar>, &Matrix, usize) -> Scalar>(
    kernel: K,
    theta: Vec<Scalar>,
    d: Matrix,
    r: Matrix,
) -> bool {
    &&& r.wf()
    &&& r.rows() == d.rows()
    &&& r.cols() == 1
    &&& forall|t: int|
        0 <= t < d.rows() ==> call_ensures(kernel, (&theta, &d, t as usize), #[trigger] r.at(t, 0))
}

/// Applies `scale` to every entry of `x`, together with the mean and the
/// deviation that `stats` holds for the column of the entry. `InvalidInput`
/// unless `x` has the columns of the data behind `stats`.
pub fn scale_columns<N: Fn(Scalar, Scalar, Scalar) -> Scalar>(
    x: &Matrix,
    stats: &NormalizedMatrix,
    scale: N,
) -> (res: Result<Matrix, EgoboxError>)
    requires
        forall|v: Scalar, m: Scalar, s: Scalar| call_requires(scale, (v, m, s)),
    ensures
        res.is_ok() <==> x.cols() == stats.scaled().cols(),
        res.is_err() ==> res.unwrap_err() == EgoboxError::InvalidInput,
        res.is_ok() ==> scaled_by(scale, *x, *stats, res.unwrap()),
{
    let n: usize = x.nrows();
    let d: usize = x.ncols();
    if stats.ncols() != d {
        return Err(EgoboxError::InvalidInput);
    }
    let mean: &Matrix = stats.mean();
    let std: &Matrix = stats.std_dev();
    let op: &N = &scale;
    let entry = |i: usize, c: usize| -> (v: Scalar)
        requires
            i < n,
            c < d,
        ensures
            call_ensures(
                *op,
                (x.at(i as int, c as int), mean.at(0, c as int), std.at(0, c as int)),
                v,
            ),
        { op(x.entry(i, c), mean.entry(0, c), std.entry(0, c)) };
    match Matrix::from_fn(n, d, entry) {
        Some(out) => {
            proof {
                assert forall|i: int, c: int|
                    0 <= i < x.rows() && 0 <= c < x.cols() implies call_ensures(
                    scale,
                    (x.at(i, c), stats.means().at(0, c), stats.deviations().at(0, c)),
                    #[trigger] out.at(i, c),
                ) by {
                    assert(call_ensures(entry, (i as usize, c as usize), out.at(i, c)));
                }
            }
            Ok(out)
        },
        None => Err(EgoboxError::InvalidInput),
    }
}

/// Lists, query row by query row, what `diff` gives for each training row
/// and the query row, column by column. `InvalidInput` unless both have the
/// same columns and the list can be addressed on this machine.
pub fn differences_to_training<D: Fn(Scalar, Scalar) -> Scalar>(
    train: &Matrix,
    query: &Matrix,
    diff: D,
) -> (res: Result<Matrix, EgoboxError>)
    requires
        forall|u: Scalar, v: Scalar| call_requires(diff, (u, v)),
    ensures
        res.is_ok() <==> query.cols() == train.cols() && query.rows() * train.rows()
            * train.cols() <= usize::MAX && query.rows() * train.rows() <= usize::MAX,
        res.is_err() ==> res.unwrap_err() == EgoboxError::InvalidInput,
        res.is_ok() ==> differences_of(diff, *train, *query, res.unwrap()),
{
    let nt: usize = train.nrows();
    let d: usize = train.ncols();
    let n_obs: usize = query.nrows();
    if query.ncols() != d {
        return Err(EgoboxError::InvalidInput);
    }
    let rows: usize = match n_obs.checked_mul(nt) {
        Some(rows) => rows,
        None => {
            return Err(EgoboxError::InvalidInput);
        },
    };
    if nt == 0 {
        assert(query.rows() * 0 == 0) by (nonlinear_arith);
        assert(0 * d == 0) by (nonlinear_arith);
        return Ok(Matrix::filled(0, d, Scalar { bits: 0 }).unwrap());
    }
    let op: &D = &diff;
    let entry = |t: usize, c: usize| -> (v: Scalar)
        requires
            t < rows,
            c < d,
        ensures
            call_ensures(
                *op,
                (
                    train.at((t % nt) as int, c as int),
                    query.at((t / nt) as int, c as int),
                ),
                v,
            ),
        {
            proof {
                assert(t / nt < n_obs) by (nonlinear_arith)
                    requires
                        t < n_obs * nt,
                        nt > 0,
                ;
            }
            op(train.entry(t % nt, c), query.entry(t / nt, c))
        };
    match Matrix::from_fn(rows, d, entry) {
        Some(out) => {
            proof {
                assert forall|i: int, k: int, c: int|
                    0 <= i < query.rows() && 0 <= k < train.rows() && 0 <= c < train.cols()
                    implies call_ensures(
                    diff,
                    (train.at(k, c), query.at(i, c)),
                    #[trigger] out.at(i * train.rows() + k, c),
                ) by {
                    let t = i * nt + k;
                    lemma_flat_index_in_bounds(n_obs as nat, nt as nat, i, k);
                    assert(t / (nt as int) == i && t % (nt as int) == k) by (nonlinear_arith)
                        requires
                            t == i * nt + k,
                            0 <= k < nt,
                            0 <= i,
                    ;
                    assert(call_ensures(entry, (t as usize, c as usize), out.at(t, c)));
                }
            }
            Ok(out)
        },
        None => Err(EgoboxError::InvalidInput),
    }
}

/// Evaluates the correlation kernel on every row of `d`: one column that
/// holds, row by row, what `kernel` gives for `theta` and that row of `d`.
pub fn kernel_column<K: Fn(&Vec<Scalar>, &Matrix, usize) -> Scalar>(
    theta: &Vec<Scalar>,
    d: &Matrix,
    kernel: K,
) -> (r: Matrix)
    requires
        forall|t: usize| t < d.rows() ==> call_requires(kernel, (theta, d, t)),
    ensures
        kernel_of(kernel, *theta, *d, r),
{
    let rows: usize = d.nrows();
    let op: &K = &kernel;
    let entry = |t: usize, c: usize| -> (v: Scalar)
        requires
            t < rows,
        ensures
            call_ensures(*op, (theta, d, t), v),
        { op(theta, d, t) };
    assert(rows * 1 == rows) by (nonlinear_arith);
    let out: Matrix = Matrix::from_fn(rows, 1, entry).unwrap();
    proof {
        assert forall|t: int| 0 <= t < d.rows() implies call_ensures(
            kernel,
            (theta, d, t as usize),
            #[trigger] out.at(t, 0),
        ) by {
            assert(call_ensures(entry, (t as usize, 0usize), out.at(t, 0)));
        }
    }
    out
}

impl GaussianProcess {
    /// What `compute_correlation` can work on: points with the columns of
    /// the training set, few enough for the table of their differences to
    /// the training rows to be addressed on this machine.
    pub open spec fn can_correlate(self, x: Matrix) -> bool {
        &&& x.cols() == self.n_features()
        &&& x.rows() * self.n_train() <= usize::MAX
        &&& x.rows() * self.n_train() * self.n_features() <= usize::MAX
    }

    /// The three steps from the points `x` to their correlations `r` with
    /// the training rows: `xnorm` is `x` scaled by `scale` with the
    /// statistics of the training inputs, `dx` holds what `diff` gives for
    /// each scaled training row against each scaled point, and `r` what
    /// `kernel` gives for each row of `dx`.
    pub open spec fn correlation_steps<
        N: Fn(Scalar, Scalar, Scalar) -> Scalar,
        D: Fn(Scalar, Scalar) -> Scalar,
        K: Fn(&Vec<Scalar>, &Matrix, usize) -> Scalar,
    >(self, scale: N, diff: D, kernel: K, x: Matrix, xnorm: Matrix, dx: Matrix, r: Matrix) -> bool {
        &&& scaled_by(scale, x, self.spec_xtrain(), xnorm)
        &&& differences_of(diff, self.spec_xtrain().scaled(), xnorm, dx)
        &&& kernel_of(kernel, self.spec_theta(), dx, r)
    }

    /// The correlations between the points `x` and the training rows, one
    /// row per point and one column per training row. The points are scaled
    /// by `scale` with the statistics of the training inputs, `diff` takes
    /// each scaled training row against each scaled point, and `kernel`
    /// turns each row of differences into a correlation.
    pub fn compute_correlation<
        N: Fn(Scalar, Scalar, Scalar) -> Scalar,
        D: Fn(Scalar, Scalar) -> Scalar,
        K: Fn(&Vec<Scalar>, &Matrix, usize) -> Scalar,
    >(&self, x: &Matrix, scale: N, diff: D, kernel: K) -> (res: Result<Matrix, EgoboxError>)
        requires
            forall|v: Scalar, m: Scalar, s: Scalar| call_requires(scale, (v, m, s)),
            forall|u: Scalar, v: Scalar| call_requires(diff, (u, v)),
            forall|th: &Vec<Scalar>, d: &Matrix, t: usize|
                t < d.rows() ==> call_requires(kernel, (th, d, t)),
        ensures
            res.is_ok() <==> self.can_correlate(*x),
            res.is_err() ==> res.unwrap_err() == EgoboxError::InvalidInput,
            res.is_ok() ==> {
                let m = res.unwrap();
                &&& m.wf()
                &&& m.rows() == x.rows()
                &&& m.cols() == self.n_train()
                &&& exists|xnorm: Matrix, dx: Matrix, r: Matrix|
                    #[trigger] self.correlation_steps(scale, diff, kernel, *x, xnorm, dx, r)
                        && m.cells() == r.cells()
            },
    {
        proof {
            use_type_invariant(self);
        }
        let xnorm: Matrix = match scale_columns(x, &self.xtrain, scale) {
            Ok(xnorm) => xnorm,
            Err(e) => {
                return Err(e);
            },
        };
        let dx: Matrix = match differences_to_training(self.xtrain.data(), &xnorm, diff) {
            Ok(dx) => dx,
            Err(e) => {
                return Err(e);
            },
        };
        let r: Matrix = kernel_column(&self.theta, &dx, kernel);
        proof {
            assert(r.rows() * 1 == r.rows()) by (nonlinear_arith);
        }
        let ghost column = r;
        match self.shape_correlation(r, x.nrows()) {
            Ok(m) => {
                proof {
                    assert(self.correlation_steps(scale, diff, kernel, *x, xnorm, dx, column));
                }
                Ok(m)
            },
            Err(e) => Err(e),
        }
    }
}

} // verus!
