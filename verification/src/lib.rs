use vstd::prelude::*;

pub mod analysis;
pub mod conditional;
pub mod decluster;
pub mod fixed;
pub mod formula;
pub mod multicriteria;
pub mod multifactor;
pub mod ops;
pub mod rng;
pub mod select;
pub mod vector;

verus! {

use crate::fixed::{blend, clamp_coord, delta_spec};
use rand::rngs::ThreadRng;

/// Number of fixed-point units per whole unit: every coordinate, fitness
/// value, weight and tolerance in this crate is an integer counted in
/// units of `1 / SCALE`.
pub const SCALE: i64 = 1_000_000;

/// Largest magnitude a coordinate may take (2^40 units, about 1.1e6 whole
/// units). Keeping coordinates in this range lets squared distances over
/// `DIM_LIMIT` coordinates fit in 128 bits.
pub const COORD_LIMIT: i64 = 1_099_511_627_776;

/// Largest number of coordinates a chromosome may have (2^20).
pub const DIM_LIMIT: usize = 1_048_576;

/// Largest population a processor accepts (2^20); keeps rank-weight sums
/// inside 64 bits.
pub const POP_LIMIT: usize = 1_048_576;

/// Denominator of the crossover blend weight: a drawn weight `w` stands
/// for the fraction `w / BLEND_DEN` (2^32).
pub const BLEND_DEN: u64 = 4_294_967_296;

/// Divisor of the jitter mutation: a noise value `z` (a standard normal
/// draw in `SCALE` units) moves a coordinate by `(hi - lo) * z / JITTER_DIV`,
/// that is by `(hi - lo) / 100 / 3` per whole unit of noise.
pub const JITTER_DIV: i64 = 300_000_000;

/// The mathematical content of a chromosome: its coordinates and the
/// bounding box it was created in.
#[verifier::ext_equal]
pub struct ChromView {
    pub point: Seq<i64>,
    pub lo: Seq<i64>,
    pub hi: Seq<i64>,
}

/// Well-formedness of a chromosome: the three vectors share one length,
/// the box is non-degenerate, and everything is representable.
pub open spec fn chrom_wf(v: ChromView) -> bool {
    &&& v.point.len() == v.lo.len()
    &&& v.point.len() == v.hi.len()
    &&& 1 <= v.point.len() <= DIM_LIMIT
    &&& forall|i: int|
        0 <= i < v.lo.len() ==> -COORD_LIMIT <= #[trigger] v.lo[i] && v.lo[i] < v.hi[i]
            && v.hi[i] <= COORD_LIMIT
    &&& forall|i: int| 0 <= i < v.point.len() ==> -COORD_LIMIT <= #[trigger] v.point[i] <= COORD_LIMIT
}

/// The child `c` is the blend of `a` toward `b` with weight `w` out of
/// `BLEND_DEN`, coordinate by coordinate.
pub open spec fn is_blend(c: Seq<i64>, w: int, a: Seq<i64>, b: Seq<i64>) -> bool {
    &&& c.len() == a.len()
    &&& forall|i: int|
        0 <= i < a.len() ==> #[trigger] c[i] == blend(w, a[i] as int, b[i] as int)
}

/// Every coordinate was freshly drawn from the half-open box.
pub open spec fn is_reset(v: ChromView) -> bool {
    forall|i: int| 0 <= i < v.point.len() ==> v.lo[i] <= #[trigger] v.point[i] < v.hi[i]
}

/// Every coordinate moved by the scaled noise value, saturating at the
/// representable coordinate range.
pub open spec fn is_jitter(before: ChromView, after: ChromView, z: Seq<i64>) -> bool {
    forall|i: int|
        0 <= i < before.point.len() ==> #[trigger] after.point[i] == clamp_coord(
            before.point[i] + delta_spec(before.hi[i] - before.lo[i], z[i] as int),
        )
}

/// One candidate solution with basic genetic operators. Randomness is
/// drawn from a caller-supplied generator; Gaussian noise for the jitter
/// mutation cannot be drawn here and is handed in as scaled integers.
pub trait Chromosome: Sized + View<V = ChromView> + Clone {
    /// Blend crossover: returns the two blended children followed by the
    /// two parents, always exactly four chromosomes.
    fn cross(self, other: Self, rng: &mut ThreadRng) -> (out: Vec<Self>)
        requires
            chrom_wf(self@),
            chrom_wf(other@),
            self@.lo == other@.lo,
            self@.hi == other@.hi,
        ensures
            out.len() == 4,
            out[2]@ == self@,
            out[3]@ == other@,
            forall|k: int|
                0 <= k < 4 ==> chrom_wf(#[trigger] out[k]@) && out[k]@.lo == self@.lo
                    && out[k]@.hi == self@.hi,
            exists|w: int|
                #![trigger is_blend(out[0]@.point, w, self@.point, other@.point)]
                0 <= w < BLEND_DEN && is_blend(out[0]@.point, w, self@.point, other@.point)
                    && is_blend(out[1]@.point, w, other@.point, self@.point),
            forall|k: int, i: int|
                0 <= k < 2 && 0 <= i < self@.point.len() ==> min_i64(self@.point[i], other@.point[i])
                    <= #[trigger] out[k]@.point[i] && out[k]@.point[i] <= max_i64(
                    self@.point[i],
                    other@.point[i],
                );

    /// Mutation: either a full reset of every coordinate into the box, or
    /// an additive jitter by the supplied noise, the mode drawn with equal
    /// probability.
    fn mutate(self, rng: &mut ThreadRng, noise: &Vec<i64>) -> (out: Self)
        requires
            chrom_wf(self@),
            noise@.len() == self@.point.len(),
        ensures
            chrom_wf(out@),
            out@.lo == self@.lo,
            out@.hi == self@.hi,
            is_reset(out@) || is_jitter(self@, out@, noise@);
}

pub open spec fn min_i64(a: i64, b: i64) -> i64 {
    if a <= b {
        a
    } else {
        b
    }
}

pub open spec fn max_i64(a: i64, b: i64) -> i64 {
    if a <= b {
        b
    } else {
        a
    }
}

/// A capability scoring a chromosome: the executable score always agrees
/// with a function of the chromosome's mathematical view.
pub trait FitnessEvaluater<C: Chromosome> {
    /// What the score of a chromosome with view `c` is.
    spec fn fitness_spec(&self, c: ChromView) -> int;

    fn fitness(&self, chromosome: &C) -> (r: i64)
        requires
            chrom_wf(chromosome@),
        ensures
            r as int == self.fitness_spec(chromosome@);
}

/// Builds chromosomes and processors bound to one parameter set.
pub trait GeneticFactory<C: Chromosome, P> {
    /// The factory's parameter set is sound.
    spec fn wf(&self) -> bool;

    /// What the factory guarantees of every chromosome it creates.
    spec fn chromosome_ok(&self, c: ChromView) -> bool;

    /// What the factory guarantees of every processor it creates.
    spec fn processor_ok(&self, p: P) -> bool;

    fn new_chromosome(&self) -> (c: C)
        requires
            self.wf(),
        ensures
            chrom_wf(c@),
            self.chromosome_ok(c@);

    fn new_processor(&self) -> (p: P)
        requires
            self.wf(),
        ensures
            self.processor_ok(p);
}

} // verus!
