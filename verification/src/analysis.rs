use vstd::prelude::*;

verus! {

use crate::vector::{dist_sq, dist_sq_prefix, VectorChromosome};
use crate::{COORD_LIMIT, DIM_LIMIT};

/// A point list is sound: every point has the given number of in-range
/// coordinates.
pub open spec fn points_wf(s: Seq<Vec<i64>>, dim: int) -> bool {
    &&& 1 <= dim <= DIM_LIMIT
    &&& forall|k: int| 0 <= k < s.len() ==> (#[trigger] s[k])@.len() == dim
    &&& forall|k: int, i: int|
        0 <= k < s.len() && 0 <= i < dim ==> -COORD_LIMIT <= #[trigger] s[k]@[i] <= COORD_LIMIT
}

/// The smallest squared distance from `t` to one of the first `k` points.
pub open spec fn min_dist_sq_prefix(s: Seq<Vec<i64>>, t: Seq<i64>, k: int) -> int
    decreases k,
{
    if k <= 1 {
        dist_sq(s[0]@, t)
    } else {
        let rest = min_dist_sq_prefix(s, t, k - 1);
        let d = dist_sq(s[k - 1]@, t);
        if d < rest {
            d
        } else {
            rest
        }
    }
}

/// The smallest squared distance from `t` to one of the points.
pub open spec fn min_dist_sq(s: Seq<Vec<i64>>, t: Seq<i64>) -> int {
    min_dist_sq_prefix(s, t, s.len() as int)
}

/// Squared Euclidean distance between two plain points.
pub fn point_distance_sq(a: &Vec<i64>, b: &Vec<i64>) -> (r: u128)
    requires
        a@.len() == b@.len(),
        1 <= a@.len() <= DIM_LIMIT,
        forall|i: int| 0 <= i < a@.len() ==> -COORD_LIMIT <= #[trigger] a@[i] <= COORD_LIMIT,
        forall|i: int| 0 <= i < b@.len() ==> -COORD_LIMIT <= #[trigger] b@[i] <= COORD_LIMIT,
    ensures
        r as int == dist_sq(a@, b@),
{
    let n = a.len();
    let mut acc: u128 = 0;
    let mut i: usize = 0;
    while i < n
        invariant
            0 <= i <= n,
            n == a@.len(),
            a@.len() == b@.len(),
            1 <= a@.len() <= DIM_LIMIT,
            forall|j: int| 0 <= j < a@.len() ==> -COORD_LIMIT <= #[trigger] a@[j] <= COORD_LIMIT,
            forall|j: int| 0 <= j < b@.len() ==> -COORD_LIMIT <= #[trigger] b@[j] <= COORD_LIMIT,
            acc as int == dist_sq_prefix(a@, b@, i as int),
            acc as int <= (i as int) * (4 * COORD_LIMIT as int * COORD_LIMIT as int),
        decreases n - i,
    {
        let d: i128 = (a[i] as i128) - (b[i] as i128);
        proof {
            let k = 4 * COORD_LIMIT as int * COORD_LIMIT as int;
            assert(0 <= d * d <= k) by (nonlinear_arith)
                requires
                    k == 4 * COORD_LIMIT as int * COORD_LIMIT as int,
                    -(2 * COORD_LIMIT as int) <= d as int <= 2 * COORD_LIMIT as int,
            ;
            assert((i as int) * k + k == (i as int + 1) * k) by (nonlinear_arith);
            assert((i as int + 1) * k <= (DIM_LIMIT as int) * k) by (nonlinear_arith)
                requires
                    i as int + 1 <= DIM_LIMIT as int,
                    k >= 0,
            ;
            assert((DIM_LIMIT as int) * k < u128::MAX as int) by (nonlinear_arith)
                requires
                    k == 4 * COORD_LIMIT as int * COORD_LIMIT as int,
            ;
        }
        let sq: u128 = (d * d) as u128;
        acc = acc + sq;
        i = i + 1;
    }
    acc
}

/// The squared distance from `target` to its nearest of the `points`: the
/// error of a run's result against one known optimum.
pub fn min_distance_sq(points: &Vec<Vec<i64>>, target: &Vec<i64>) -> (r: u128)
    requires
        points@.len() >= 1,
        points_wf(points@, target@.len() as int),
        forall|i: int|
            0 <= i < target@.len() ==> -COORD_LIMIT <= #[trigger] target@[i] <= COORD_LIMIT,
    ensures
        r as int == min_dist_sq(points@, target@),
{
    let mut best: u128 = point_distance_sq(&points[0], target);
    let mut k: usize = 1;
    while k < points.len()
        invariant
            1 <= k <= points@.len(),
            points_wf(points@, target@.len() as int),
            forall|i: int|
                0 <= i < target@.len() ==> -COORD_LIMIT <= #[trigger] target@[i] <= COORD_LIMIT,
            best as int == min_dist_sq_prefix(points@, target@, k as int),
        decreases points@.len() - k,
    {
        let d = point_distance_sq(&points[k], target);
        if d < best {
            best = d;
        }
        k = k + 1;
    }
    best
}

/// The per-target errors of a run's result: for each optimum the squared
/// distance to the nearest returned point.
pub fn errors_to_targets(points: &Vec<Vec<i64>>, targets: &Vec<Vec<i64>>) -> (out: Vec<u128>)
    requires
        points@.len() >= 1,
        targets@.len() >= 1,
        points_wf(points@, targets@[0]@.len() as int),
        points_wf(targets@, targets@[0]@.len() as int),
    ensures
        out@.len() == targets@.len(),
        forall|t: int|
            0 <= t < targets@.len() ==> (#[trigger] out@[t]) as int == min_dist_sq(
                points@,
                targets@[t]@,
            ),
{
    let mut out: Vec<u128> = Vec::new();
    let mut t: usize = 0;
    while t < targets.len()
        invariant
            0 <= t <= targets@.len(),
            points@.len() >= 1,
            targets@.len() >= 1,
            points_wf(points@, targets@[0]@.len() as int),
            points_wf(targets@, targets@[0]@.len() as int),
            out@.len() == t,
            forall|j: int|
                0 <= j < t ==> (#[trigger] out@[j]) as int == min_dist_sq(points@, targets@[j]@),
        decreases targets@.len() - t,
    {
        out.push(min_distance_sq(points, &targets[t]));
        t = t + 1;
    }
    out
}

/// Strips a population down to its plain points.
pub fn points_of(pop: &Vec<VectorChromosome>) -> (out: Vec<Vec<i64>>)
    ensures
        out@.len() == pop@.len(),
        forall|k: int| 0 <= k < pop@.len() ==> (#[trigger] out@[k])@ == pop@[k]@.point,
{
    let mut out: Vec<Vec<i64>> = Vec::new();
    let mut k: usize = 0;
    while k < pop.len()
        invariant
            0 <= k <= pop@.len(),
            out@.len() == k,
            forall|j: int| 0 <= j < k ==> (#[trigger] out@[j])@ == pop@[j]@.point,
        decreases pop@.len() - k,
    {
        out.push(crate::vector::clone_coords(&pop[k].point));
        k = k + 1;
    }
    out
}

} // verus!
