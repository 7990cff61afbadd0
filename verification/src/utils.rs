//! The tables that a Gaussian process is trained on: the pairs of training
//! rows in the order in which their distances are stored, the distance table
//! itself, and a data set together with the statistics it was scaled by.
use crate::matrix::lemma_flat_index_in_bounds;
use crate::matrix::Matrix;
use crate::scalar::Scalar;
use crate::scalar::ONE_BITS;
use vstd::prelude::*;

verus! {

/// Among `n` rows, the number of pairs `(a, b)`, `a < b`, with `a < i`.
pub open spec fn row_start(n: nat, i: nat) -> nat
    decreases i,
{
    if i == 0 {
        0
    } else if i <= n {
        (row_start(n, (i - 1) as nat) + (n - i)) as nat
    } else {
        row_start(n, (i - 1) as nat)
    }
}

/// Number of pairs of distinct rows among `n` rows.
pub open spec fn pair_count(n: nat) -> nat {
    row_start(n, n)
}

/// The place of the pair `(a, b)`, `a < b < n`, in the table of pairs.
pub open spec fn pair_rank(n: nat, a: nat, b: nat) -> nat {
    (row_start(n, a) + (b - a - 1)) as nat
}

/// The first `len` pairs whose first member is `a`: `(a, a + 1)`,
/// `(a, a + 2)`, and so on.
pub open spec fn row_pairs(a: nat, len: nat) -> Seq<(usize, usize)> {
    Seq::new(len, |t: int| (a as usize, (a + 1 + t) as usize))
}

/// The pairs `(a, b)`, `a < b < n`, with `a < i`, ordered by `a` and then by
/// `b`.
pub open spec fn upper_rows(n: nat, i: nat) -> Seq<(usize, usize)>
    decreases i,
{
    if i == 0 {
        Seq::empty()
    } else if i <= n {
        upper_rows(n, (i - 1) as nat) + row_pairs((i - 1) as nat, (n - i) as nat)
    } else {
        upper_rows(n, (i - 1) as nat)
    }
}

/// Every pair `(a, b)` with `a < b < n`, ordered by `a` and then by `b`.
pub open spec fn upper_pairs(n: nat) -> Seq<(usize, usize)> {
    upper_rows(n, n)
}

/// Twice the number of pairs that start below `i` is `i * (2n - i - 1)`.
pub proof fn lemma_row_start_closed_form(n: nat, i: nat)
    requires
        i <= n,
    ensures
        2 * row_start(n, i) == i * (2 * n - i - 1),
    decreases i,
{
    if i > 0 {
        let h: nat = (i - 1) as nat;
        lemma_row_start_closed_form(n, h);
        assert(h * (2 * n - h - 1) + 2 * (n - i) == i * (2 * n - i - 1)) by (nonlinear_arith)
            requires
                h == i - 1,
        ;
    } else {
        assert(i * (2 * n - i - 1) == 0) by (nonlinear_arith)
            requires
                i == 0,
        ;
    }
}

/// Among `n` rows there are `n * (n - 1) / 2` pairs.
pub proof fn lemma_pair_count(n: nat)
    ensures
        2 * pair_count(n) == n * (n - 1),
        pair_count(n) == n * (n - 1) / 2,
{
    lemma_row_start_closed_form(n, n);
    assert(n * (2 * n - n - 1) == n * (n - 1)) by (nonlinear_arith);
}

/// The rows of the table follow one another without a gap.
pub proof fn lemma_row_start_step(n: nat, a: nat, i: nat)
    requires
        a < i <= n,
    ensures
        row_start(n, a) + (n - a - 1) == row_start(n, a + 1),
        row_start(n, a + 1) <= row_start(n, i),
    decreases i - a,
{
    if a + 1 < i {
        lemma_row_start_step(n, a, (i - 1) as nat);
    }
}

/// The table of the pairs that start below `i` has `row_start(n, i)` entries.
pub proof fn lemma_upper_rows_len(n: nat, i: nat)
    requires
        i <= n,
    ensures
        upper_rows(n, i).len() == row_start(n, i),
    decreases i,
{
    if i > 0 {
        lemma_upper_rows_len(n, (i - 1) as nat);
    }
}

/// The pair `(a, b)` stands at its rank.
pub proof fn lemma_upper_rows_entry(n: nat, i: nat, a: nat, b: nat)
    requires
        a < i <= n,
        a < b < n,
        n <= usize::MAX,
    ensures
        pair_rank(n, a, b) < upper_rows(n, i).len(),
        upper_rows(n, i)[pair_rank(n, a, b) as int] == (a as usize, b as usize),
    decreases i,
{
    lemma_upper_rows_len(n, i);
    lemma_upper_rows_len(n, (i - 1) as nat);
    lemma_row_start_step(n, a, i);
    if a + 1 == i {
        let t = b - a - 1;
        assert(row_pairs(a, (n - i) as nat)[t] == (a as usize, b as usize));
    } else {
        lemma_upper_rows_entry(n, (i - 1) as nat, a, b);
    }
}

/// Every entry of the table is a pair `(a, b)` with `a < b < n`, and stands
/// at its rank: no pair occurs twice.
pub proof fn lemma_upper_rows_unrank(n: nat, i: nat, k: int)
    requires
        i <= n,
        n <= usize::MAX,
        0 <= k < upper_rows(n, i).len(),
    ensures
        upper_rows(n, i)[k].0 < i,
        upper_rows(n, i)[k].0 < upper_rows(n, i)[k].1 < n,
        pair_rank(n, upper_rows(n, i)[k].0 as nat, upper_rows(n, i)[k].1 as nat) == k,
    decreases i,
{
    if i > 0 {
        lemma_upper_rows_len(n, (i - 1) as nat);
        lemma_upper_rows_len(n, i);
        if k < upper_rows(n, (i - 1) as nat).len() {
            lemma_upper_rows_unrank(n, (i - 1) as nat, k);
        } else {
            let t = k - row_start(n, (i - 1) as nat);
            assert(row_pairs((i - 1) as nat, (n - i) as nat)[t] == ((i - 1) as usize, (i + t) as usize));
        }
    }
}

/// The table of pairs of `n` rows: every entry is in range, and the pair
/// `(a, b)` is the entry `pair_rank(n, a, b)`.
pub proof fn lemma_upper_pairs(n: nat)
    requires
        n <= usize::MAX,
    ensures
        upper_pairs(n).len() == pair_count(n),
        forall|k: int|
            0 <= k < upper_pairs(n).len() ==> (#[trigger] upper_pairs(n)[k]).0 < upper_pairs(
                n,
            )[k].1 < n,
        forall|a: nat, b: nat|
            a < b < n ==> pair_rank(n, a, b) < pair_count(n) && upper_pairs(n)[#[trigger] pair_rank(
                n,
                a,
                b,
            ) as int] == (a as usize, b as usize),
{
    lemma_upper_rows_len(n, n);
    assert forall|k: int| 0 <= k < upper_pairs(n).len() implies (#[trigger] upper_pairs(n)[k]).0
        < upper_pairs(n)[k].1 < n by {
        lemma_upper_rows_unrank(n, n, k);
    }
    assert forall|a: nat, b: nat| a < b < n implies pair_rank(n, a, b) < pair_count(n)
        && upper_pairs(n)[#[trigger] pair_rank(n, a, b) as int] == (a as usize, b as usize) by {
        lemma_upper_rows_entry(n, n, a, b);
    }
}

/// Lists the pairs `(a, b)`, `a < b < n`, ordered by `a` and then by `b`.
pub fn pair_indices(n: usize) -> (pairs: Vec<(usize, usize)>)
    ensures
        pairs@ == upper_pairs(n as nat),
        pairs@.len() == pair_count(n as nat),
{
    let mut pairs: Vec<(usize, usize)> = Vec::new();
    let mut a: usize = 0;
    while a < n
        invariant
            a <= n,
            pairs@ == upper_rows(n as nat, a as nat),
        decreases n - a,
    {
        let mut b: usize = a + 1;
        assert(pairs@ + row_pairs(a as nat, 0) =~= pairs@);
        while b < n
            invariant
                a < n,
                a + 1 <= b <= n,
                pairs@ == upper_rows(n as nat, a as nat) + row_pairs(
                    a as nat,
                    (b - a - 1) as nat,
                ),
            decreases n - b,
        {
            pairs.push((a, b));
            assert(row_pairs(a as nat, (b - a - 1) as nat).push((a, b)) =~= row_pairs(
                a as nat,
                (b - a) as nat,
            ));
            assert(pairs@ =~= upper_rows(n as nat, a as nat) + row_pairs(
                a as nat,
                (b - a) as nat,
            ));
            b = b + 1;
        }
        a = a + 1;
    }
    proof {
        lemma_upper_rows_len(n as nat, n as nat);
    }
    pairs
}

/// The componentwise distances between the rows of a training set, one row
/// per pair of training rows, with the pairs in the order of `upper_pairs`.
#[derive(Debug)]
pub struct DistanceMatrix {
    d: Matrix,
    d_indices: Vec<(usize, usize)>,
    n_obs: usize,
    n_features: usize,
}

impl DistanceMatrix {
    /// What holds of every value of this type.
    #[verifier::type_invariant]
    pub closed spec fn inv(self) -> bool {
        &&& self.d.wf()
        &&& self.d.rows() == pair_count(self.n_obs as nat)
        &&& self.d.cols() == self.n_features
        &&& self.d_indices@ == upper_pairs(self.n_obs as nat)
    }

    /// The distances: row `pair_rank(n, a, b)` holds those between the
    /// training rows `a` and `b`.
    pub closed spec fn differences(self) -> Matrix {
        self.d
    }

    /// The pair of training rows that each row of the table belongs to.
    pub closed spec fn indices(self) -> Seq<(usize, usize)> {
        self.d_indices@
    }

    /// Number of training rows.
    pub closed spec fn obs(self) -> nat {
        self.n_obs as nat
    }

    /// Number of columns of the training set.
    pub closed spec fn features(self) -> nat {
        self.n_features as nat
    }

    /// The table has one row per pair of training rows and one column per
    /// column of the training set, and lists the pairs in their fixed order.
    pub open spec fn wf(self) -> bool {
        &&& self.differences().wf()
        &&& self.differences().rows() == pair_count(self.obs())
        &&& self.differences().cols() == self.features()
        &&& self.indices() == upper_pairs(self.obs())
    }

    /// The distances between the rows of the training set `x`: for each pair
    /// of rows `a < b`, in the order of `pair_indices`, a row that holds, for
    /// every column, what `abs_diff` gives for the entries of row `a` and of
    /// row `b` in that column. `None` when a table of that size cannot be
    /// addressed on this machine.
    pub fn new<F: Fn(Scalar, Scalar) -> Scalar>(x: &Matrix, abs_diff: F) -> (r: Option<
        DistanceMatrix,
    >)
        requires
            forall|u: Scalar, v: Scalar| call_requires(abs_diff, (u, v)),
        ensures
            r.is_some() <==> pair_count(x.rows()) * x.cols() <= usize::MAX,
            r.is_some() ==> {
                let dm = r.unwrap();
                &&& dm.wf()
                &&& dm.obs() == x.rows()
                &&& dm.features() == x.cols()
                &&& forall|a: int, b: int, c: int|
                    0 <= a < b < x.rows() && 0 <= c < x.cols() ==> call_ensures(
                        abs_diff,
                        (x.at(a, c), x.at(b, c)),
                        #[trigger] dm.differences().at(
                            pair_rank(x.rows(), a as nat, b as nat) as int,
                            c,
                        ),
                    )
            },
    {
        let n: usize = x.nrows();
        let d: usize = x.ncols();
        let pairs: Vec<(usize, usize)> = pair_indices(n);
        let count: usize = pairs.len();
        proof {
            lemma_upper_pairs(n as nat);
        }
        let op: &F = &abs_diff;
        let entry = |k: usize, c: usize| -> (v: Scalar)
            requires
                k < count,
                c < d,
            ensures
                call_ensures(
                    *op,
                    (
                        x.at(pairs@[k as int].0 as int, c as int),
                        x.at(pairs@[k as int].1 as int, c as int),
                    ),
                    v,
                ),
            {
                let (a, b) = pairs[k];
                op(x.entry(a, c), x.entry(b, c))
            };
        match Matrix::from_fn(count, d, entry) {
            None => None,
            Some(m) => {
                proof {
                    assert forall|a: int, b: int, c: int|
                        0 <= a < b < x.rows() && 0 <= c < x.cols() implies call_ensures(
                        abs_diff,
                        (x.at(a, c), x.at(b, c)),
                        #[trigger] m.at(pair_rank(x.rows(), a as nat, b as nat) as int, c),
                    ) by {
                        let k = pair_rank(n as nat, a as nat, b as nat) as int;
                        assert(pairs@[k] == (a as usize, b as usize));
                        assert(call_ensures(entry, (k as usize, c as usize), m.at(k, c)));
                    }
                }
                Some(DistanceMatrix { d: m, d_indices: pairs, n_obs: n, n_features: d })
            },
        }
    }

    /// Takes the distances between the rows of a training set of `n_obs`
    /// rows, computed pair by pair in the order of `pair_indices`. `None`
    /// when `d` has not one row per pair.
    pub fn from_differences(n_obs: usize, d: Matrix) -> (r: Option<DistanceMatrix>)
        ensures
            r.is_some() <==> d.rows() == pair_count(n_obs as nat),
            r.is_some() ==> r.unwrap().wf() && r.unwrap().obs() == n_obs
                && r.unwrap().differences() == d,
    {
        let d_indices: Vec<(usize, usize)> = pair_indices(n_obs);
        let n_features: usize = d.ncols();
        if d.nrows() == d_indices.len() {
            Some(DistanceMatrix { d, d_indices, n_obs, n_features })
        } else {
            None
        }
    }

    /// The distances.
    pub fn d(&self) -> (d: &Matrix)
        ensures
            *d == self.differences(),
            self.wf(),
    {
        proof {
            use_type_invariant(self);
        }
        &self.d
    }

    /// The pair of training rows of each row of the table.
    pub fn d_indices(&self) -> (pairs: &Vec<(usize, usize)>)
        ensures
            pairs@ == self.indices(),
            self.wf(),
    {
        proof {
            use_type_invariant(self);
        }
        &self.d_indices
    }

    /// Number of training rows.
    pub fn n_obs(&self) -> (n: usize)
        ensures
            n == self.obs(),
            self.wf(),
    {
        proof {
            use_type_invariant(self);
        }
        self.n_obs
    }

    /// Number of columns of the training set.
    pub fn n_features(&self) -> (n: usize)
        ensures
            n == self.features(),
            self.wf(),
    {
        proof {
            use_type_invariant(self);
        }
        self.n_features
    }
}

/// No entry of `m` is zero.
pub open spec fn no_zero(m: Matrix) -> bool {
    forall|k: int| 0 <= k < m.cells().len() ==> !(#[trigger] m.cells()[k]).is_zero()
}

/// A data set scaled column by column, with the mean and the deviation of
/// each column of the data it came from.
#[derive(Debug)]
pub struct NormalizedMatrix {
    data: Matrix,
    mean: Matrix,
    std: Matrix,
}

impl NormalizedMatrix {
    /// What holds of every value of this type.
    #[verifier::type_invariant]
    pub closed spec fn inv(self) -> bool {
        &&& self.data.wf()
        &&& self.mean.wf()
        &&& self.std.wf()
        &&& self.mean.rows() == 1
        &&& self.std.rows() == 1
        &&& self.mean.cols() == self.data.cols()
        &&& self.std.cols() == self.data.cols()
        &&& no_zero(self.std)
    }

    /// The scaled data.
    pub closed spec fn scaled(self) -> Matrix {
        self.data
    }

    /// The mean of each column of the source, as one row.
    pub closed spec fn means(self) -> Matrix {
        self.mean
    }

    /// The deviation of each column of the source, as one row.
    pub closed spec fn deviations(self) -> Matrix {
        self.std
    }

    /// The statistics are one row each, with one entry per column of the
    /// data, and no deviation is zero.
    pub open spec fn wf(self) -> bool {
        &&& self.scaled().wf()
        &&& self.means().wf()
        &&& self.deviations().wf()
        &&& self.means().rows() == 1
        &&& self.deviations().rows() == 1
        &&& self.means().cols() == self.scaled().cols()
        &&& self.deviations().cols() == self.scaled().cols()
        &&& no_zero(self.deviations())
    }

    /// What `from_parts` accepts.
    pub open spec fn parts_fit(data: Matrix, mean: Matrix, std: Matrix) -> bool {
        &&& mean.rows() == 1
        &&& std.rows() == 1
        &&& mean.cols() == data.cols()
        &&& std.cols() == data.cols()
        &&& no_zero(std)
    }

    /// Puts scaled data and the statistics it was scaled by together. `None`
    /// unless both statistics are one row with one entry per column of the
    /// data and no deviation is zero: a column that does not vary is given
    /// the deviation one.
    pub fn from_parts(data: Matrix, mean: Matrix, std: Matrix) -> (r: Option<NormalizedMatrix>)
        ensures
            r.is_some() <==> Self::parts_fit(data, mean, std),
            r.is_some() ==> r.unwrap().wf() && r.unwrap().scaled() == data && r.unwrap().means()
                == mean && r.unwrap().deviations() == std,
    {
        let d: usize = data.ncols();
        if mean.nrows() == 1 && std.nrows() == 1 && mean.ncols() == d && std.ncols() == d {
            let mut c: usize = 0;
            while c < d
                invariant
                    c <= d,
                    std.wf(),
                    std.rows() == 1,
                    std.cols() == d,
                    forall|b: int| 0 <= b < c ==> !(#[trigger] std.cells()[b]).is_zero(),
                decreases d - c,
            {
                let v: Scalar = std.entry(0, c);
                assert(std.at(0, c as int) == std.cells()[c as int]);
                if v.zero_valued() {
                    return None;
                }
                c = c + 1;
            }
            Some(NormalizedMatrix { data, mean, std })
        } else {
            None
        }
    }

    /// The scaled data.
    pub fn data(&self) -> (m: &Matrix)
        ensures
            *m == self.scaled(),
            self.wf(),
    {
        proof {
            use_type_invariant(self);
        }
        &self.data
    }

    /// The mean of each column of the source.
    pub fn mean(&self) -> (m: &Matrix)
        ensures
            *m == self.means(),
            self.wf(),
    {
        proof {
            use_type_invariant(self);
        }
        &self.mean
    }

    /// The deviation of each column of the source.
    pub fn std_dev(&self) -> (m: &Matrix)
        ensures
            *m == self.deviations(),
            self.wf(),
    {
        proof {
            use_type_invariant(self);
        }
        &self.std
    }

    /// Number of rows of the data.
    pub fn nrows(&self) -> (n: usize)
        ensures
            n == self.scaled().rows(),
            self.wf(),
    {
        proof {
            use_type_invariant(self);
        }
        self.data.nrows()
    }

    /// Number of columns of the data.
    pub fn ncols(&self) -> (n: usize)
        ensures
            n == self.scaled().cols(),
            self.wf(),
    {
        proof {
            use_type_invariant(self);
        }
        self.data.ncols()
    }
}

/// The constant regression basis at the points `x`: one column of ones, one
/// row per point.
pub fn constant(x: &Matrix) -> (f: Matrix)
    ensures
        f.wf(),
        f.rows() == x.rows(),
        f.cols() == 1,
        forall|i: int| 0 <= i < x.rows() ==> (#[trigger] f.at(i, 0)).bits == ONE_BITS,
{
    let n: usize = x.nrows();
    assert(n * 1 == n) by (nonlinear_arith);
    let f: Matrix = Matrix::filled(n, 1, Scalar { bits: ONE_BITS }).unwrap();
    proof {
        assert forall|i: int| 0 <= i < x.rows() implies (#[trigger] f.at(i, 0)).bits
            == ONE_BITS by {
            lemma_flat_index_in_bounds(n as nat, 1, i, 0);
        }
    }
    f
}

/// The linear regression basis at the points `x`: a column of ones followed
/// by the columns of `x`. `None` when a matrix of that size cannot be
/// addressed on this machine.
pub fn linear(x: &Matrix) -> (r: Option<Matrix>)
    ensures
        r.is_some() <==> x.cols() + 1 <= usize::MAX && x.rows() * (x.cols() + 1) <= usize::MAX,
        r.is_some() ==> {
            let f = r.unwrap();
            &&& f.wf()
            &&& f.rows() == x.rows()
            &&& f.cols() == x.cols() + 1
            &&& forall|i: int| 0 <= i < x.rows() ==> (#[trigger] f.at(i, 0)).bits == ONE_BITS
            &&& forall|i: int, j: int|
                0 <= i < x.rows() && 0 <= j < x.cols() ==> #[trigger] f.at(i, j + 1) == x.at(i, j)
        },
{
    let n: usize = x.nrows();
    let d: usize = x.ncols();
    let width: usize = match d.checked_add(1) {
        Some(width) => width,
        None => {
            return None;
        },
    };
    let entry = |i: usize, j: usize| -> (v: Scalar)
        requires
            i < n,
            j < width,
        ensures
            v == (if j == 0 {
                Scalar::pattern(ONE_BITS)
            } else {
                x.at(i as int, j - 1)
            }),
        {
            if j == 0 {
                Scalar { bits: ONE_BITS }
            } else {
                x.entry(i, j - 1)
            }
        };
    match Matrix::from_fn(n, width, entry) {
        None => None,
        Some(f) => {
            proof {
                assert forall|i: int| 0 <= i < x.rows() implies (#[trigger] f.at(i, 0)).bits
                    == ONE_BITS by {
                    assert(call_ensures(entry, (i as usize, 0usize), f.at(i, 0)));
                }
                assert forall|i: int, j: int|
                    0 <= i < x.rows() && 0 <= j < x.cols() implies #[trigger] f.at(i, j + 1)
                    == x.at(i, j) by {
                    assert(call_ensures(entry, (i as usize, (j + 1) as usize), f.at(i, j + 1)));
                }
            }
            Some(f)
        },
    }
}

} // verus!
