//! The settings of the optimisation driver, the function it optimises and
//! the typed variables that the function takes.
use crate::errors::EgoboxError;
use crate::matrix::Matrix;
use crate::moe::types::CorrelationSpec;
use crate::moe::types::RegressionSpec;
use crate::scalar::Scalar;
use vstd::prelude::*;

verus! {

/// The best point found and the response there.
#[derive(Debug)]
pub struct OptimResult {
    /// The best point, in the units of the caller.
    pub x_opt: Vec<Scalar>,
    /// The objective and the constraints at that point.
    pub y_opt: Vec<Scalar>,
}

/// The criterion that picks the next point to evaluate.
#[derive(Clone, Copy, Debug, PartialEq, Eq, Structural)]
pub enum InfillStrategy {
    /// Expected improvement.
    EI,
    /// Expected improvement less the predicted mean.
    WB2,
    /// As `WB2`, with the mean scaled to the size of the improvement.
    WB2S,
}

/// The optimiser that maximises the criterion.
#[derive(Clone, Copy, Debug, PartialEq, Eq, Structural)]
pub enum InfillOptimizer {
    /// Sequential least squares, with gradients by finite differences.
    Slsqp,
    /// Constrained optimisation by linear approximation, without gradients.
    Cobyla,
}

/// The value put in the place of an evaluation that is still to come, while
/// the other points of a batch are chosen.
#[derive(Clone, Copy, Debug, PartialEq, Eq, Structural)]
pub enum QEiStrategy {
    /// The predicted mean.
    KrigingBeliever,
    /// The predicted mean less three deviations.
    KrigingBelieverLowerBound,
    /// The predicted mean plus three deviations.
    KrigingBelieverUpperBound,
    /// The smallest value seen so far.
    ConstantLiarMinimum,
}

/// A function to be optimised. It takes one point per row and gives one row
/// per point: the objective first, then the constraints.
pub trait GroupFunc: Send + Sync + 'static + Clone + Fn(&Matrix) -> Matrix {

}

impl<T> GroupFunc for T where T: Send + Sync + 'static + Clone + Fn(&Matrix) -> Matrix {

}

/// The objective and the constraints, as the driver holds them.
#[derive(Clone)]
pub struct ObjFunc<O: GroupFunc> {
    fobj: O,
}

impl<O: GroupFunc> ObjFunc<O> {
    /// The function held.
    pub closed spec fn func(self) -> O {
        self.fobj
    }

    /// Holds `fobj`.
    pub fn new(fobj: O) -> (f: ObjFunc<O>)
        ensures
            f.func() == fobj,
    {
        ObjFunc { fobj }
    }

    /// Evaluates the function at the points `p`.
    pub fn cost(&self, p: &Matrix) -> (y: Matrix)
        requires
            call_requires(self.func(), (p,)),
        ensures
            call_ensures(self.func(), (p,), y),
    {
        (self.fobj)(p)
    }
}

/// The type of one input variable, with the values it may take.
#[derive(Debug)]
pub enum Xtype {
    /// A real number between a lower and an upper bound.
    Cont(Scalar, Scalar),
    /// An integer between a lower and an upper bound.
    Int(i32, i32),
    /// One of a list of integers that increases.
    Ord(Vec<i32>),
    /// One of a list of labels, no two alike.
    Enum(Vec<String>),
}

/// Each entry is above the one before it.
pub open spec fn increasing(list: Seq<i32>) -> bool {
    forall|i: int, j: int| 0 <= i < j < list.len() ==> list[i] < list[j]
}

/// No two labels are alike.
pub open spec fn distinct(tags: Seq<String>) -> bool {
    forall|i: int, j: int| 0 <= i < j < tags.len() ==> tags[i]@ != tags[j]@
}

/// The internal dimensions that the variables take together.
pub open spec fn total_dim(xtypes: Seq<Xtype>) -> nat
    decreases xtypes.len(),
{
    if xtypes.len() == 0 {
        0
    } else {
        total_dim(xtypes.drop_last()) + xtypes.last().spec_dim()
    }
}

/// The dimensions of the first variables are no more than those of all.
pub proof fn lemma_total_dim_prefix(xtypes: Seq<Xtype>, k: int)
    requires
        0 <= k <= xtypes.len(),
    ensures
        total_dim(xtypes.take(k)) <= total_dim(xtypes),
    decreases xtypes.len(),
{
    if k == xtypes.len() {
        assert(xtypes.take(k) =~= xtypes);
    } else {
        lemma_total_dim_prefix(xtypes.drop_last(), k);
        assert(xtypes.drop_last().take(k) =~= xtypes.take(k));
    }
}

impl Xtype {
    /// The variable has a value to take: finite bounds in order, integer
    /// bounds in order, a list that is not empty and increases, labels that
    /// are not empty and differ.
    pub open spec fn valid(self) -> bool {
        match self {
            Xtype::Cont(lo, hi) => lo.is_finite() && hi.is_finite() && lo.spec_le(hi),
            Xtype::Int(lo, hi) => lo <= hi,
            Xtype::Ord(list) => list@.len() > 0 && increasing(list@),
            Xtype::Enum(tags) => tags@.len() > 0 && distinct(tags@),
        }
    }

    /// Number of internal dimensions of the variable: one per label for a
    /// variable that takes labels, one for any other.
    pub open spec fn spec_dim(self) -> nat {
        match self {
            Xtype::Enum(tags) => tags@.len(),
            _ => 1,
        }
    }

    /// Tells whether the variable has a value to take.
    pub fn is_valid(&self) -> (r: bool)
        ensures
            r == self.valid(),
    {
        match self {
            Xtype::Cont(lo, hi) => lo.finite() && hi.finite() && lo.le(hi),
            Xtype::Int(lo, hi) => *lo <= *hi,
            Xtype::Ord(list) => {
                if list.len() == 0 {
                    return false;
                }
                let mut k: usize = 1;
                while k < list.len()
                    invariant
                        *self == Xtype::Ord(*list),
                        1 <= k <= list.len(),
                        forall|i: int, j: int| 0 <= i < j < k ==> list@[i] < list@[j],
                    decreases list.len() - k,
                {
                    if list[k - 1] >= list[k] {
                        proof {
                            if increasing(list@) {
                                assert(list@[k - 1] < list@[k as int]);
                            }
                        }
                        return false;
                    }
                    k = k + 1;
                }
                true
            },
            Xtype::Enum(tags) => {
                if tags.len() == 0 {
                    return false;
                }
                let mut b: usize = 1;
                while b < tags.len()
                    invariant
                        *self == Xtype::Enum(*tags),
                        1 <= b <= tags.len(),
                        forall|i: int, j: int| 0 <= i < j < b ==> tags@[i]@ != tags@[j]@,
                    decreases tags.len() - b,
                {
                    let mut a: usize = 0;
                    while a < b
                        invariant
                            *self == Xtype::Enum(*tags),
                            a <= b < tags.len(),
                            forall|i: int, j: int| 0 <= i < j < b ==> tags@[i]@ != tags@[j]@,
                            forall|i: int| 0 <= i < a ==> tags@[i]@ != tags@[b as int]@,
                        decreases b - a,
                    {
                        if tags[a] == tags[b] {
                            proof {
                                if distinct(tags@) {
                                    assert(tags@[a as int]@ != tags@[b as int]@);
                                }
                            }
                            return false;
                        }
                        a = a + 1;
                    }
                    b = b + 1;
                }
                true
            },
        }
    }

    /// Number of internal dimensions of the variable.
    pub fn dim(&self) -> (d: usize)
        ensures
            d == self.spec_dim(),
    {
        match self {
            Xtype::Enum(tags) => tags.len(),
            _ => 1,
        }
    }
}

/// Number of internal dimensions that the variables take together; `None`
/// when the number cannot be held.
pub fn continuous_dim(xtypes: &Vec<Xtype>) -> (r: Option<usize>)
    ensures
        r.is_some() <==> total_dim(xtypes@) <= usize::MAX,
        r.is_some() ==> r.unwrap() == total_dim(xtypes@),
{
    let mut total: usize = 0;
    let mut k: usize = 0;
    while k < xtypes.len()
        invariant
            k <= xtypes.len(),
            total == total_dim(xtypes@.take(k as int)),
        decreases xtypes.len() - k,
    {
        let d: usize = xtypes[k].dim();
        proof {
            assert(xtypes@.take(k + 1).drop_last() =~= xtypes@.take(k as int));
            lemma_total_dim_prefix(xtypes@, k + 1);
        }
        match total.checked_add(d) {
            Some(t) => {
                total = t;
            },
            None => {
                return None;
            },
        }
        k = k + 1;
    }
    proof {
        assert(xtypes@.take(k as int) =~= xtypes@);
    }
    Some(total)
}

/// Builds the surrogates of the objective and of the constraints.
pub trait SurrogateBuilder: Sized {
    /// A trained surrogate.
    type Surrogate;

    /// A clustering of the training points.
    type Clustering;

    /// A builder for surrogates over the given variables.
    fn new_with_xtypes_rng(xtypes: &Vec<Xtype>) -> Self;

    /// Sets the regression bases that the experts may use.
    fn set_regression_spec(&mut self, regression_spec: RegressionSpec);

    /// Sets the correlation kernels that the experts may use.
    fn set_correlation_spec(&mut self, correlation_spec: CorrelationSpec);

    /// Sets the number of components kept by the projection of the inputs.
    fn set_kpls_dim(&mut self, kpls_dim: Option<usize>);

    /// Sets the number of clusters of the mixture of experts.
    fn set_n_clusters(&mut self, n_clusters: usize);

    /// Trains a surrogate on the points `xt` and the responses `yt`.
    fn train(&self, xt: &Matrix, yt: &Matrix) -> Result<Self::Surrogate, EgoboxError>;

    /// Trains a surrogate on the points `xt` and the responses `yt`, with
    /// the clustering given.
    fn train_on_clusters(
        &self,
        xt: &Matrix,
        yt: &Matrix,
        clustering: &Self::Clustering,
    ) -> Result<Self::Surrogate, EgoboxError>;
}

} // verus!
