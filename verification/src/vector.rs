use vstd::prelude::*;

verus! {

use crate::fixed::{blend_coord, jitter_coord, max_of, min_of};
use crate::formula::{eval, eval_formula, Formula};
use crate::rng::{rng_below, rng_coord};
use crate::{
    chrom_wf, is_blend, is_jitter, is_reset, ChromView, Chromosome, FitnessEvaluater, BLEND_DEN,
    COORD_LIMIT, DIM_LIMIT,
};
use rand::rngs::ThreadRng;

/// A candidate solution: a point inside (initially) the box `[min, max)`,
/// all in fixed-point units.
pub struct VectorChromosome {
    pub point: Vec<i64>,
    pub min: Vec<i64>,
    pub max: Vec<i64>,
}

impl View for VectorChromosome {
    type V = ChromView;

    open spec fn view(&self) -> ChromView {
        ChromView { point: self.point@, lo: self.min@, hi: self.max@ }
    }
}

/// Copies a vector of coordinates; the copy has the same view.
pub(crate) fn clone_coords(v: &Vec<i64>) -> (r: Vec<i64>)
    ensures
        r@ == v@,
{
    let r = v.clone();
    proof {
        assert(r@ =~= v@);
    }
    r
}

impl Clone for VectorChromosome {
    /// A clone has the same mathematical view as the original.
    fn clone(&self) -> (r: Self)
        ensures
            r@ == self@,
    {
        let r = VectorChromosome {
            point: clone_coords(&self.point),
            min: clone_coords(&self.min),
            max: clone_coords(&self.max),
        };
        proof {
            assert(r@ =~= self@);
        }
        r
    }
}

/// Squared Euclidean distance over the first `n` coordinates.
pub open spec fn dist_sq_prefix(a: Seq<i64>, b: Seq<i64>, n: int) -> int
    decreases n,
{
    if n <= 0 {
        0
    } else {
        dist_sq_prefix(a, b, n - 1) + (a[n - 1] - b[n - 1]) * (a[n - 1] - b[n - 1])
    }
}

/// Squared Euclidean distance between two points of equal dimension.
pub open spec fn dist_sq(a: Seq<i64>, b: Seq<i64>) -> int {
    dist_sq_prefix(a, b, a.len() as int)
}

impl VectorChromosome {
    /// Squared Euclidean distance to another chromosome of the same
    /// dimension. The Euclidean distance is the square root of this value;
    /// comparisons against a radius square the radius instead.
    pub fn distance_sq(&self, other: &Self) -> (r: u128)
        requires
            chrom_wf(self@),
            chrom_wf(other@),
            self@.point.len() == other@.point.len(),
        ensures
            r as int == dist_sq(self@.point, other@.point),
    {
        let n = self.point.len();
        let mut acc: u128 = 0;
        let mut i: usize = 0;
        proof {
            assert(4 * COORD_LIMIT as int * COORD_LIMIT as int * (DIM_LIMIT as int)
                < u128::MAX as int) by (nonlinear_arith);
        }
        while i < n
            invariant
                0 <= i <= n,
                n == self@.point.len(),
                chrom_wf(self@),
                chrom_wf(other@),
                self@.point.len() == other@.point.len(),
                acc as int == dist_sq_prefix(self@.point, other@.point, i as int),
                acc as int <= (i as int) * (4 * COORD_LIMIT as int * COORD_LIMIT as int),
            decreases n - i,
        {
            let d: i128 = (self.point[i] as i128) - (other.point[i] as i128);
            proof {
                let k = 4 * COORD_LIMIT as int * COORD_LIMIT as int;
                assert(0 <= d * d <= k) by (nonlinear_arith)
                    requires
                        k == 4 * COORD_LIMIT as int * COORD_LIMIT as int,
                        -(2 * COORD_LIMIT as int) <= d as int <= 2 * COORD_LIMIT as int,
                ;
                assert((i as int) * k + k == (i as int + 1) * k) by (nonlinear_arith);
                assert((i as int + 1) * k <= (DIM_LIMIT as int) * k) by (nonlinear_arith)
                    requires
                        i as int + 1 <= DIM_LIMIT as int,
                        k >= 0,
                ;
                assert((DIM_LIMIT as int) * k < u128::MAX as int) by (nonlinear_arith)
                    requires
                        k == 4 * COORD_LIMIT as int * COORD_LIMIT as int,
                ;
            }
            let sq: u128 = (d * d) as u128;
            acc = acc + sq;
            i = i + 1;
        }
        acc
    }
}

impl Chromosome for VectorChromosome {
    fn cross(self, other: Self, rng: &mut ThreadRng) -> (out: Vec<Self>) {
        let w: u64 = rng_below(rng, BLEND_DEN);
        let n = self.point.len();
        let mut c0: Vec<i64> = Vec::new();
        let mut c1: Vec<i64> = Vec::new();
        let mut i: usize = 0;
        while i < n
            invariant
                0 <= i <= n,
                n == self@.point.len(),
                chrom_wf(self@),
                chrom_wf(other@),
                self@.lo == other@.lo,
                self@.hi == other@.hi,
                w < BLEND_DEN,
                c0@.len() == i,
                c1@.len() == i,
                forall|j: int|
                    0 <= j < i ==> #[trigger] c0@[j] == crate::fixed::blend(
                        w as int,
                        self@.point[j] as int,
                        other@.point[j] as int,
                    ),
                forall|j: int|
                    0 <= j < i ==> #[trigger] c1@[j] == crate::fixed::blend(
                        w as int,
                        other@.point[j] as int,
                        self@.point[j] as int,
                    ),
                forall|j: int|
                    0 <= j < i ==> min_of(self@.point[j] as int, other@.point[j] as int)
                        <= #[trigger] c0@[j] as int <= max_of(
                        self@.point[j] as int,
                        other@.point[j] as int,
                    ),
                forall|j: int|
                    0 <= j < i ==> min_of(self@.point[j] as int, other@.point[j] as int)
                        <= #[trigger] c1@[j] as int <= max_of(
                        self@.point[j] as int,
                        other@.point[j] as int,
                    ),
            decreases n - i,
        {
            c0.push(blend_coord(w, self.point[i], other.point[i]));
            c1.push(blend_coord(w, other.point[i], self.point[i]));
            i = i + 1;
        }
        let ch0 = VectorChromosome {
            point: c0,
            min: clone_coords(&self.min),
            max: clone_coords(&self.max),
        };
        let ch1 = VectorChromosome {
            point: c1,
            min: clone_coords(&self.min),
            max: clone_coords(&self.max),
        };
        let mut out: Vec<VectorChromosome> = Vec::new();
        out.push(ch0);
        out.push(ch1);
        out.push(self);
        out.push(other);
        proof {
            assert(is_blend(out[0]@.point, w as int, self@.point, other@.point));
            assert(is_blend(out[1]@.point, w as int, other@.point, self@.point));
        }
        out
    }

    fn mutate(self, rng: &mut ThreadRng, noise: &Vec<i64>) -> (out: Self) {
        let coin = rng_below(rng, 2);
        if coin == 0 {
            self.mutate_reset(rng)
        } else {
            self.mutate_jitter(noise)
        }
    }
}

impl VectorChromosome {
    /// Full reset: every coordinate freshly drawn from the half-open box.
    pub fn mutate_reset(self, rng: &mut ThreadRng) -> (out: Self)
        requires
            chrom_wf(self@),
        ensures
            chrom_wf(out@),
            out@.lo == self@.lo,
            out@.hi == self@.hi,
            is_reset(out@),
    {
        let n = self.point.len();
        let mut p: Vec<i64> = Vec::new();
        let mut i: usize = 0;
        while i < n
            invariant
                0 <= i <= n,
                n == self@.point.len(),
                chrom_wf(self@),
                p@.len() == i,
                forall|j: int| 0 <= j < i ==> self@.lo[j] <= #[trigger] p@[j] < self@.hi[j],
            decreases n - i,
        {
            p.push(rng_coord(rng, self.min[i], self.max[i]));
            i = i + 1;
        }
        VectorChromosome { point: p, min: self.min, max: self.max }
    }

    /// Local jitter: every coordinate moved by its scaled noise value,
    /// saturating at the representable coordinate range. The noise is a
    /// standard normal draw in `SCALE` units, handed in by the caller.
    pub fn mutate_jitter(self, noise: &Vec<i64>) -> (out: Self)
        requires
            chrom_wf(self@),
            noise@.len() == self@.point.len(),
        ensures
            chrom_wf(out@),
            out@.lo == self@.lo,
            out@.hi == self@.hi,
            is_jitter(self@, out@, noise@),
    {
        let n = self.point.len();
        let mut p: Vec<i64> = Vec::new();
        let mut i: usize = 0;
        while i < n
            invariant
                0 <= i <= n,
                n == self@.point.len(),
                chrom_wf(self@),
                noise@.len() == self@.point.len(),
                p@.len() == i,
                forall|j: int|
                    0 <= j < i ==> #[trigger] p@[j] == crate::fixed::clamp_coord(
                        self@.point[j] + crate::fixed::delta_spec(
                            self@.hi[j] - self@.lo[j],
                            noise@[j] as int,
                        ),
                    ),
                forall|j: int| 0 <= j < i ==> -COORD_LIMIT <= #[trigger] p@[j] <= COORD_LIMIT,
            decreases n - i,
        {
            p.push(jitter_coord(self.point[i], self.min[i], self.max[i], noise[i]));
            i = i + 1;
        }
        VectorChromosome { point: p, min: self.min, max: self.max }
    }
}

/// Scores a chromosome by one formula over its point.
pub struct VectorFitnessEvaluater {
    pub fitness_func: Formula,
}

impl VectorFitnessEvaluater {
    /// The formula this evaluater scores with.
    pub open spec fn func(&self) -> Formula {
        self.fitness_func
    }

    pub fn new(fitness: Formula) -> (r: VectorFitnessEvaluater)
        ensures
            r.func() == fitness,
    {
        VectorFitnessEvaluater { fitness_func: fitness }
    }
}

impl Clone for VectorFitnessEvaluater {
    /// A clone scores exactly as the original does.
    fn clone(&self) -> (r: Self)
        ensures
            r == *self,
    {
        VectorFitnessEvaluater { fitness_func: self.fitness_func.clone() }
    }
}

impl FitnessEvaluater<VectorChromosome> for VectorFitnessEvaluater {
    open spec fn fitness_spec(&self, c: ChromView) -> int {
        eval(self.fitness_func, c.point)
    }

    fn fitness(&self, chromosome: &VectorChromosome) -> (r: i64) {
        eval_formula(&self.fitness_func, &chromosome.point)
    }
}

} // verus!
