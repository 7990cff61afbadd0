//! From the responsibilities of the clusters for each point to the cluster
//! that each point belongs to.
use crate::matrix::Matrix;
use crate::scalar::Scalar;
use vstd::prelude::*;

verus! {

/// The place of the largest of the first `n` values, found from left to
/// right: a later value takes over only where it is above the one held. A
/// value that is not a number is above nothing and has nothing above it.
pub open spec fn argmax_upto(values: Seq<Scalar>, n: nat) -> int
    decreases n,
{
    if n <= 1 {
        0
    } else {
        let held = argmax_upto(values, (n - 1) as nat);
        if values[held].spec_lt(values[n - 1]) {
            n - 1
        } else {
            held
        }
    }
}

/// The place of the largest value; zero for no value at all.
pub open spec fn spec_argmax(values: Seq<Scalar>) -> int {
    argmax_upto(values, values.len())
}

/// No value is above the one that `argmax_upto` finds, and that one is
/// above every value before it unless a value that is not a number is among
/// them.
pub proof fn lemma_argmax_upto(values: Seq<Scalar>, n: nat)
    requires
        0 < n <= values.len(),
    ensures
        0 <= argmax_upto(values, n) < n,
        forall|j: int| 0 <= j < n ==> !values[argmax_upto(values, n)].spec_lt(#[trigger] values[j]),
        (forall|j: int| 0 <= j < n ==> !(#[trigger] values[j]).is_nan()) ==> forall|j: int|
            0 <= j < argmax_upto(values, n) ==> (#[trigger] values[j]).spec_lt(
                values[argmax_upto(values, n)],
            ),
    decreases n,
{
    if n > 1 {
        lemma_argmax_upto(values, (n - 1) as nat);
        let held = argmax_upto(values, (n - 1) as nat);
        if values[held].spec_lt(values[n - 1]) {
            assert forall|j: int| 0 <= j < n implies !values[n - 1].spec_lt(
                #[trigger] values[j],
            ) by {
                if j < n - 1 && values[n - 1].spec_lt(values[j]) {
                    assert(values[held].spec_lt(values[j]));
                }
            }
            if forall|j: int| 0 <= j < n ==> !(#[trigger] values[j]).is_nan() {
                assert forall|j: int| 0 <= j < n - 1 implies (#[trigger] values[j]).spec_lt(
                    values[n - 1],
                ) by {
                    assert(!values[held].spec_lt(values[j]));
                    assert(!values[j].is_nan());
                    assert(!values[held].is_nan());
                }
            }
        }
    }
}

/// The place of the largest value, the first one where several are largest;
/// `None` for no value at all.
pub fn argmax(values: &Vec<Scalar>) -> (r: Option<usize>)
    ensures
        r.is_some() <==> values@.len() > 0,
        r.is_some() ==> r.unwrap() == spec_argmax(values@) && r.unwrap() < values@.len(),
        r.is_some() ==> forall|j: int|
            0 <= j < values@.len() ==> !values@[r.unwrap() as int].spec_lt(#[trigger] values@[j]),
{
    if values.len() == 0 {
        return None;
    }
    let mut held: usize = 0;
    let mut i: usize = 1;
    while i < values.len()
        invariant
            1 <= i <= values.len(),
            held < i,
            held == argmax_upto(values@, i as nat),
        decreases values.len() - i,
    {
        if values[held].lt(&values[i]) {
            held = i;
        }
        i = i + 1;
    }
    proof {
        lemma_argmax_upto(values@, values@.len());
    }
    Some(held)
}

/// Row `i` of `m`, as a list.
pub open spec fn row_of(m: Matrix, i: int) -> Seq<Scalar> {
    Seq::new(m.cols(), |c: int| m.at(i, c))
}

/// For each point, the cluster that is most responsible for it: the place
/// of the largest entry of the point's row of `responsibilities`, which has
/// one row per point and one column per cluster. `None` where there is no
/// cluster.
pub fn hard_assignments(responsibilities: &Matrix) -> (r: Option<Vec<usize>>)
    ensures
        r.is_some() <==> responsibilities.cols() > 0,
        r.is_some() ==> {
            let a = r.unwrap();
            &&& a@.len() == responsibilities.rows()
            &&& forall|i: int|
                0 <= i < a@.len() ==> #[trigger] a@[i] == spec_argmax(
                    row_of(*responsibilities, i),
                ) && a@[i] < responsibilities.cols()
        },
{
    let n: usize = responsibilities.nrows();
    let k: usize = responsibilities.ncols();
    if k == 0 {
        return None;
    }
    let mut assignments: Vec<usize> = Vec::new();
    let mut i: usize = 0;
    while i < n
        invariant
            i <= n,
            k > 0,
            responsibilities.wf(),
            n == responsibilities.rows(),
            k == responsibilities.cols(),
            assignments@.len() == i,
            forall|p: int|
                0 <= p < i ==> #[trigger] assignments@[p] == spec_argmax(
                    row_of(*responsibilities, p),
                ) && assignments@[p] < k,
        decreases n - i,
    {
        let mut row: Vec<Scalar> = Vec::new();
        let mut c: usize = 0;
        while c < k
            invariant
                c <= k,
                i < n,
                responsibilities.wf(),
                n == responsibilities.rows(),
                k == responsibilities.cols(),
                row@.len() == c,
                forall|j: int| 0 <= j < c ==> #[trigger] row@[j] == responsibilities.at(i as int, j),
            decreases k - c,
        {
            row.push(responsibilities.entry(i, c));
            c = c + 1;
        }
        assert(row@ =~= row_of(*responsibilities, i as int));
        let best: usize = argmax(&row).unwrap();
        assignments.push(best);
        i = i + 1;
    }
    Some(assignments)
}

/// The points among the first `upto` that are assigned to cluster `c`, in
/// increasing order.
pub open spec fn members(assignments: Seq<usize>, c: usize, upto: nat) -> Seq<usize>
    decreases upto,
{
    if upto == 0 {
        Seq::empty()
    } else if assignments[upto - 1] == c {
        members(assignments, c, (upto - 1) as nat).push((upto - 1) as usize)
    } else {
        members(assignments, c, (upto - 1) as nat)
    }
}

/// A point is among the members of a cluster exactly when it is assigned to
/// it.
pub proof fn lemma_members(assignments: Seq<usize>, c: usize, upto: nat, p: usize)
    requires
        upto <= assignments.len(),
        upto <= usize::MAX,
    ensures
        members(assignments, c, upto).contains(p) <==> p < upto && assignments[p as int] == c,
    decreases upto,
{
    if upto > 0 {
        lemma_members(assignments, c, (upto - 1) as nat, p);
        let before = members(assignments, c, (upto - 1) as nat);
        if assignments[upto - 1] == c {
            let all = before.push((upto - 1) as usize);
            if before.contains(p) {
                let w = choose|w: int| 0 <= w < before.len() && before[w] == p;
                assert(all[w] == p);
            }
            if p == upto - 1 {
                assert(all[before.len() as int] == p);
            }
            if all.contains(p) {
                let w = choose|w: int| 0 <= w < all.len() && all[w] == p;
                if w < before.len() {
                    assert(before[w] == p);
                }
            }
        }
    }
}

/// Splits the points over `n_clusters` clusters: for each cluster the
/// points assigned to it, in increasing order.
pub fn partition(assignments: &Vec<usize>, n_clusters: usize) -> (clusters: Vec<Vec<usize>>)
    ensures
        clusters@.len() == n_clusters,
        forall|c: int|
            0 <= c < n_clusters ==> (#[trigger] clusters@[c])@ == members(
                assignments@,
                c as usize,
                assignments@.len(),
            ),
{
    let mut clusters: Vec<Vec<usize>> = Vec::new();
    let mut c: usize = 0;
    while c < n_clusters
        invariant
            c <= n_clusters,
            clusters@.len() == c,
            forall|b: int|
                0 <= b < c ==> (#[trigger] clusters@[b])@ == members(
                    assignments@,
                    b as usize,
                    assignments@.len(),
                ),
        decreases n_clusters - c,
    {
        let mut points: Vec<usize> = Vec::new();
        let mut i: usize = 0;
        while i < assignments.len()
            invariant
                i <= assignments.len(),
                points@ == members(assignments@, c, i as nat),
            decreases assignments.len() - i,
        {
            if assignments[i] == c {
                points.push(i);
            }
            i = i + 1;
        }
        clusters.push(points);
        c = c + 1;
    }
    clusters
}

} // verus!
