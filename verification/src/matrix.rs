//! Dense matrices of scalars, stored row by row.
use crate::scalar::Scalar;
use vstd::prelude::*;

verus! {

/// A matrix of `rows() * cols()` scalars. Cell `(i, j)` is the entry
/// `i * cols() + j` of `cells()`.
#[derive(Debug)]
pub struct Matrix {
    nrows: usize,
    ncols: usize,
    data: Vec<Scalar>,
}

/// The place of cell `(i, j)` in a row-by-row layout with `ncols` columns.
pub open spec fn flat_index(ncols: nat, i: int, j: int) -> int {
    i * ncols + j
}

/// A cell of an `nrows` by `ncols` matrix lies inside its storage.
pub proof fn lemma_flat_index_in_bounds(nrows: nat, ncols: nat, i: int, j: int)
    requires
        0 <= i < nrows,
        0 <= j < ncols,
    ensures
        0 <= flat_index(ncols, i, j) < nrows * ncols,
{
    assert(i * ncols + ncols <= nrows * ncols) by (nonlinear_arith)
        requires
            0 <= i < nrows,
            0 <= ncols,
    ;
    assert(0 <= i * ncols) by (nonlinear_arith)
        requires
            0 <= i,
            0 <= ncols,
    ;
}

/// Two different cells never share a place in the storage.
pub proof fn lemma_flat_index_injective(ncols: nat, i: int, j: int, k: int, l: int)
    requires
        0 <= j < ncols,
        0 <= l < ncols,
        flat_index(ncols, i, j) == flat_index(ncols, k, l),
    ensures
        i == k,
        j == l,
{
    assert(i == k) by (nonlinear_arith)
        requires
            0 <= j < ncols,
            0 <= l < ncols,
            i * ncols + j == k * ncols + l,
    ;
}

impl Matrix {
    /// What holds of every value of this type.
    #[verifier::type_invariant]
    pub closed spec fn inv(self) -> bool {
        self.data@.len() == self.nrows * self.ncols && self.data@.len() <= usize::MAX
    }

    /// Number of rows.
    pub closed spec fn rows(self) -> nat {
        self.nrows as nat
    }

    /// Number of columns.
    pub closed spec fn cols(self) -> nat {
        self.ncols as nat
    }

    /// The entries, row by row.
    pub closed spec fn cells(self) -> Seq<Scalar> {
        self.data@
    }

    /// The storage holds exactly one entry per cell, and no more than this
    /// machine can address.
    pub open spec fn wf(self) -> bool {
        self.cells().len() == self.rows() * self.cols() && self.cells().len() <= usize::MAX
    }

    /// The entry in row `i`, column `j`.
    pub open spec fn at(self, i: int, j: int) -> Scalar {
        self.cells()[flat_index(self.cols(), i, j)]
    }

    /// Every entry below the diagonal is zero.
    pub open spec fn upper_triangular(self) -> bool {
        forall|i: int, j: int|
            0 <= j < i < self.rows() && j < self.cols() ==> (#[trigger] self.at(i, j)).is_zero()
    }

    /// Every entry above the diagonal is zero.
    pub open spec fn lower_triangular(self) -> bool {
        forall|i: int, j: int|
            0 <= i < j < self.cols() && i < self.rows() ==> (#[trigger] self.at(i, j)).is_zero()
    }

    /// Both matrices have the same shape.
    pub open spec fn same_shape(self, other: Matrix) -> bool {
        self.rows() == other.rows() && self.cols() == other.cols()
    }

    /// Builds a matrix from its entries given row by row. `None` when the
    /// number of entries is not `nrows * ncols`.
    pub fn new(nrows: usize, ncols: usize, data: Vec<Scalar>) -> (r: Option<Matrix>)
        ensures
            r.is_some() <==> data@.len() == nrows * ncols,
            r.is_some() ==> r.unwrap().wf() && r.unwrap().rows() == nrows && r.unwrap().cols()
                == ncols && r.unwrap().cells() == data@,
    {
        let len: usize = data.len();
        match nrows.checked_mul(ncols) {
            Some(n) => {
                if n == len {
                    Some(Matrix { nrows, ncols, data })
                } else {
                    None
                }
            },
            None => None,
        }
    }

    /// A matrix whose every entry is `value`. `None` when `nrows * ncols`
    /// entries cannot be addressed on this machine.
    pub fn filled(nrows: usize, ncols: usize, value: Scalar) -> (r: Option<Matrix>)
        ensures
            r.is_some() <==> nrows * ncols <= usize::MAX,
            r.is_some() ==> r.unwrap().wf() && r.unwrap().rows() == nrows && r.unwrap().cols()
                == ncols && r.unwrap().cells() == Seq::new(
                (nrows * ncols) as nat,
                |k: int| value,
            ),
    {
        match nrows.checked_mul(ncols) {
            Some(n) => {
                let mut data: Vec<Scalar> = Vec::new();
                let mut k: usize = 0;
                while k < n
                    invariant
                        k <= n,
                        data@ == Seq::new(k as nat, |k: int| value),
                    decreases n - k,
                {
                    data.push(value);
                    k = k + 1;
                    assert(data@ =~= Seq::new(k as nat, |k: int| value));
                }
                Some(Matrix { nrows, ncols, data })
            },
            None => None,
        }
    }

    /// The matrix whose entry in row `i`, column `j` is what `f` gives for
    /// `(i, j)`; `f` is asked row by row. `None` when `nrows * ncols` entries
    /// cannot be addressed on this machine.
    pub fn from_fn<F: Fn(usize, usize) -> Scalar>(nrows: usize, ncols: usize, f: F) -> (r: Option<
        Matrix,
    >)
        requires
            forall|i: usize, j: usize| i < nrows && j < ncols ==> call_requires(f, (i, j)),
        ensures
            r.is_some() <==> nrows * ncols <= usize::MAX,
            r.is_some() ==> {
                let m = r.unwrap();
                &&& m.wf()
                &&& m.rows() == nrows
                &&& m.cols() == ncols
                &&& forall|i: int, j: int|
                    0 <= i < nrows && 0 <= j < ncols ==> call_ensures(
                        f,
                        (i as usize, j as usize),
                        #[trigger] m.at(i, j),
                    )
            },
    {
        if nrows.checked_mul(ncols).is_none() {
            return None;
        }
        let mut data: Vec<Scalar> = Vec::new();
        let mut i: usize = 0;
        while i < nrows
            invariant
                i <= nrows,
                nrows * ncols <= usize::MAX,
                forall|a: usize, b: usize| a < nrows && b < ncols ==> call_requires(f, (a, b)),
                data@.len() == i * ncols,
                forall|a: int, b: int|
                    0 <= a < i && 0 <= b < ncols ==> call_ensures(
                        f,
                        (a as usize, b as usize),
                        data@[#[trigger] flat_index(ncols as nat, a, b)],
                    ),
            decreases nrows - i,
        {
            let mut j: usize = 0;
            while j < ncols
                invariant
                    i < nrows,
                    j <= ncols,
                    nrows * ncols <= usize::MAX,
                    forall|a: usize, b: usize| a < nrows && b < ncols ==> call_requires(f, (a, b)),
                    data@.len() == i * ncols + j,
                    forall|a: int, b: int|
                        0 <= a < i && 0 <= b < ncols ==> call_ensures(
                            f,
                            (a as usize, b as usize),
                            data@[#[trigger] flat_index(ncols as nat, a, b)],
                        ),
                    forall|b: int|
                        0 <= b < j ==> call_ensures(
                            f,
                            (i, b as usize),
                            data@[#[trigger] flat_index(ncols as nat, i as int, b)],
                        ),
                decreases ncols - j,
            {
                let v: Scalar = f(i, j);
                let ghost before = data@;
                data.push(v);
                proof {
                    assert forall|a: int, b: int| 0 <= a < i && 0 <= b < ncols implies call_ensures(
                        f,
                        (a as usize, b as usize),
                        data@[#[trigger] flat_index(ncols as nat, a, b)],
                    ) by {
                        lemma_flat_index_in_bounds(i as nat, ncols as nat, a, b);
                        assert(data@[flat_index(ncols as nat, a, b)] == before[flat_index(
                            ncols as nat,
                            a,
                            b,
                        )]);
                    }
                    assert forall|b: int| 0 <= b < j + 1 implies call_ensures(
                        f,
                        (i, b as usize),
                        data@[#[trigger] flat_index(ncols as nat, i as int, b)],
                    ) by {
                        if b < j {
                            assert(data@[flat_index(ncols as nat, i as int, b)] == before[flat_index(
                                ncols as nat,
                                i as int,
                                b,
                            )]);
                        }
                    }
                }
                j = j + 1;
            }
            proof {
                assert(i * ncols + ncols == (i + 1) * ncols) by (nonlinear_arith);
            }
            i = i + 1;
        }
        Some(Matrix { nrows, ncols, data })
    }

    /// Number of rows.
    pub fn nrows(&self) -> (n: usize)
        ensures
            n == self.rows(),
            self.wf(),
    {
        proof {
            use_type_invariant(self);
        }
        self.nrows
    }

    /// Number of columns.
    pub fn ncols(&self) -> (n: usize)
        ensures
            n == self.cols(),
            self.wf(),
    {
        proof {
            use_type_invariant(self);
        }
        self.ncols
    }

    /// The entries, row by row.
    pub fn as_slice(&self) -> (s: &[Scalar])
        ensures
            s@ == self.cells(),
            self.wf(),
    {
        proof {
            use_type_invariant(self);
        }
        self.data.as_slice()
    }

    /// The entry in row `i`, column `j`; `None` outside the matrix.
    pub fn get(&self, i: usize, j: usize) -> (r: Option<Scalar>)
        ensures
            r.is_some() <==> i < self.rows() && j < self.cols(),
            r.is_some() ==> r.unwrap() == self.at(i as int, j as int),
    {
        proof {
            use_type_invariant(self);
        }
        let len: usize = self.data.len();
        if i < self.nrows && j < self.ncols {
            proof {
                lemma_flat_index_in_bounds(self.nrows as nat, self.ncols as nat, i as int, j as int);
            }
            Some(self.data[i * self.ncols + j])
        } else {
            None
        }
    }

    /// The entry in row `i`, column `j`.
    pub fn entry(&self, i: usize, j: usize) -> (r: Scalar)
        requires
            i < self.rows(),
            j < self.cols(),
        ensures
            r == self.at(i as int, j as int),
    {
        proof {
            use_type_invariant(self);
            lemma_flat_index_in_bounds(self.nrows as nat, self.ncols as nat, i as int, j as int);
        }
        let len: usize = self.data.len();
        self.data[i * self.ncols + j]
    }

    /// The matrix with the entry in row `i`, column `j` replaced by `value`;
    /// every other entry stays.
    pub fn put(self, i: usize, j: usize, value: Scalar) -> (r: Matrix)
        requires
            i < self.rows(),
            j < self.cols(),
        ensures
            r.wf(),
            r.same_shape(self),
            r.cells() == self.cells().update(flat_index(self.cols(), i as int, j as int), value),
            forall|a: int, b: int|
                0 <= a < self.rows() && 0 <= b < self.cols() ==> #[trigger] r.at(a, b) == (if a
                    == i && b == j {
                    value
                } else {
                    self.at(a, b)
                }),
    {
        proof {
            use_type_invariant(&self);
            lemma_flat_index_in_bounds(self.nrows as nat, self.ncols as nat, i as int, j as int);
        }
        let len: usize = self.data.len();
        let k: usize = i * self.ncols + j;
        let mut data: Vec<Scalar> = self.data;
        data.set(k, value);
        let r = Matrix { nrows: self.nrows, ncols: self.ncols, data };
        proof {
            assert forall|a: int, b: int|
                0 <= a < self.rows() && 0 <= b < self.cols() implies #[trigger] r.at(a, b) == (if a
                == i && b == j {
                value
            } else {
                self.at(a, b)
            }) by {
                lemma_flat_index_in_bounds(self.nrows as nat, self.ncols as nat, a, b);
                if flat_index(self.ncols as nat, a, b) == flat_index(
                    self.ncols as nat,
                    i as int,
                    j as int,
                ) {
                    lemma_flat_index_injective(self.ncols as nat, a, b, i as int, j as int);
                }
            }
        }
        r
    }

    /// The square matrix of order `n` with `value` on its diagonal and zero
    /// elsewhere. `None` when `n * n` entries cannot be addressed on this
    /// machine.
    pub fn diagonal(n: usize, value: Scalar) -> (r: Option<Matrix>)
        ensures
            r.is_some() <==> n * n <= usize::MAX,
            r.is_some() ==> {
                let m = r.unwrap();
                &&& m.wf()
                &&& m.rows() == n
                &&& m.cols() == n
                &&& forall|a: int, b: int|
                    0 <= a < n && 0 <= b < n ==> #[trigger] m.at(a, b) == (if a == b {
                        value
                    } else {
                        Scalar::origin()
                    })
            },
    {
        match Matrix::filled(n, n, Scalar { bits: 0 }) {
            None => None,
            Some(zeros) => {
                let mut m: Matrix = zeros;
                proof {
                    assert forall|a: int, b: int| 0 <= a < n && 0 <= b < n implies #[trigger] m.at(
                        a,
                        b,
                    ) == Scalar::origin() by {
                        lemma_flat_index_in_bounds(n as nat, n as nat, a, b);
                    }
                }
                let mut i: usize = 0;
                while i < n
                    invariant
                        i <= n,
                        m.wf(),
                        m.rows() == n,
                        m.cols() == n,
                        forall|a: int, b: int|
                            0 <= a < n && 0 <= b < n ==> #[trigger] m.at(a, b) == (if a == b && a
                                < i {
                                value
                            } else {
                                Scalar::origin()
                            }),
                    decreases n - i,
                {
                    m = m.put(i, i, value);
                    i = i + 1;
                }
                Some(m)
            },
        }
    }

    /// Tells whether every entry below the diagonal is zero.
    pub fn is_upper_triangular(&self) -> (r: bool)
        ensures
            r == self.upper_triangular(),
    {
        let n: usize = self.nrows();
        let d: usize = self.ncols();
        let mut i: usize = 0;
        while i < n
            invariant
                i <= n,
                n == self.rows(),
                d == self.cols(),
                forall|a: int, b: int|
                    0 <= b < a < i && b < d ==> (#[trigger] self.at(a, b)).is_zero(),
            decreases n - i,
        {
            let mut j: usize = 0;
            while j < i && j < d
                invariant
                    i < n,
                    j <= i,
                    j <= d,
                    n == self.rows(),
                    d == self.cols(),
                    forall|a: int, b: int|
                        0 <= b < a < i && b < d ==> (#[trigger] self.at(a, b)).is_zero(),
                    forall|b: int| 0 <= b < j ==> (#[trigger] self.at(i as int, b)).is_zero(),
                decreases i - j,
            {
                if !self.entry(i, j).zero_valued() {
                    assert(!self.at(i as int, j as int).is_zero());
                    return false;
                }
                j = j + 1;
            }
            i = i + 1;
        }
        true
    }

    /// Tells whether every entry above the diagonal is zero.
    pub fn is_lower_triangular(&self) -> (r: bool)
        ensures
            r == self.lower_triangular(),
    {
        let n: usize = self.nrows();
        let d: usize = self.ncols();
        let mut i: usize = 0;
        while i < n
            invariant
                i <= n,
                n == self.rows(),
                d == self.cols(),
                forall|a: int, b: int|
                    0 <= a < i && a < b < d ==> (#[trigger] self.at(a, b)).is_zero(),
            decreases n - i,
        {
            let mut j: usize = i + 1;
            while j < d
                invariant
                    i < n,
                    i < j,
                    n == self.rows(),
                    d == self.cols(),
                    forall|a: int, b: int|
                        0 <= a < i && a < b < d ==> (#[trigger] self.at(a, b)).is_zero(),
                    forall|b: int| i < b < j && b < d ==> (#[trigger] self.at(i as int, b)).is_zero(),
                decreases d - j,
            {
                if !self.entry(i, j).zero_valued() {
                    assert(!self.at(i as int, j as int).is_zero());
                    return false;
                }
                j = j + 1;
            }
            i = i + 1;
        }
        true
    }

    /// The same entries under another shape, as long as the number of entries
    /// fits it: cell `(i, j)` of the result is entry `i * ncols + j` of
    /// `self`. `None` when `nrows * ncols` is not the number of entries.
    pub fn into_shape(self, nrows: usize, ncols: usize) -> (r: Option<Matrix>)
        ensures
            r.is_some() <==> self.cells().len() == nrows * ncols,
            r.is_some() ==> r.unwrap().wf() && r.unwrap().rows() == nrows && r.unwrap().cols()
                == ncols && r.unwrap().cells() == self.cells(),
    {
        Matrix::new(nrows, ncols, self.data)
    }

    /// The matrix with every entry below zero replaced by zero.
    pub fn clamp_negative(&self) -> (r: Matrix)
        ensures
            r.wf(),
            r.same_shape(*self),
            r.cells().len() == self.cells().len(),
            forall|k: int|
                0 <= k < self.cells().len() ==> #[trigger] r.cells()[k]
                    == self.cells()[k].spec_clamp_negative(),
            forall|k: int| 0 <= k < r.cells().len() ==> !(#[trigger] r.cells()[k]).is_negative(),
            forall|k: int|
                0 <= k < r.cells().len() && !self.cells()[k].is_nan() ==> Scalar::origin().spec_le(
                    #[trigger] r.cells()[k],
                ),
    {
        proof {
            use_type_invariant(self);
        }
        let n: usize = self.data.len();
        let mut data: Vec<Scalar> = Vec::new();
        let mut k: usize = 0;
        while k < n
            invariant
                k <= n,
                n == self.data@.len(),
                data@.len() == k,
                forall|l: int|
                    0 <= l < k ==> #[trigger] data@[l] == self.data@[l].spec_clamp_negative(),
                forall|l: int| 0 <= l < k ==> !(#[trigger] data@[l]).is_negative(),
                forall|l: int|
                    0 <= l < k && !self.data@[l].is_nan() ==> Scalar::origin().spec_le(
                        #[trigger] data@[l],
                    ),
            decreases n - k,
        {
            let v: Scalar = self.data[k].clamp_negative();
            data.push(v);
            k = k + 1;
        }
        Matrix { nrows: self.nrows, ncols: self.ncols, data }
    }
}

} // verus!
