use vstd::prelude::*;

verus! {

use crate::fixed::{clamp_i64, clamp_to_i64, div_trunc};
use crate::formula::{eval, eval_formula, lemma_eval_in_range, Formula};
use crate::vector::VectorChromosome;
use crate::{chrom_wf, ChromView, FitnessEvaluater, SCALE};

/// Scores a chromosome by a raw objective plus a penalty for violated
/// restrictions: a restriction is a formula that must be zero, and one
/// whose magnitude reaches the tolerance `eps` adds its weighted magnitude
/// to the fitness. Restrictions inside the tolerance add nothing.
pub struct MultifactorFitnessEvaluater {
    pub fitness_func: Formula,
    /// Must be zero
    pub restrictions: Vec<Formula>,
    pub eps: i64,
    pub weights: Vec<i64>,
}

impl MultifactorFitnessEvaluater {
    /// One weight per restriction, nonnegative tolerance, bounded weights.
    pub open spec fn wf(&self) -> bool {
        &&& self.weights@.len() == self.restrictions@.len()
        &&& self.eps >= 0
        &&& forall|i: int| 0 <= i < self.weights@.len() ==> 0 <= #[trigger] self.weights@[i]
    }

    pub fn new(
        fitness: Formula,
        restrictions: Vec<Formula>,
        weights: Vec<i64>,
        eps: i64,
    ) -> (r: Self)
        requires
            weights@.len() == restrictions@.len(),
            eps >= 0,
            forall|i: int| 0 <= i < weights@.len() ==> 0 <= #[trigger] weights@[i],
        ensures
            r.wf(),
            r == (MultifactorFitnessEvaluater { fitness_func: fitness, restrictions, weights, eps }),
    {
        MultifactorFitnessEvaluater { fitness_func: fitness, restrictions, eps, weights }
    }

    /// Replaces the tolerance; the driver anneals it between generations.
    pub fn set_eps(&mut self, eps: i64)
        requires
            eps >= 0,
        ensures
            final(self).eps == eps,
            final(self).fitness_func == old(self).fitness_func,
            final(self).restrictions == old(self).restrictions,
            final(self).weights == old(self).weights,
            old(self).wf() ==> final(self).wf(),
    {
        self.eps = eps;
    }
}

/// The magnitude of a restriction's value on a point.
pub open spec fn violation(f: Formula, p: Seq<i64>) -> int {
    let v = eval(f, p);
    if v < 0 {
        -v
    } else {
        v
    }
}

/// The penalty one restriction adds: its weighted magnitude, rescaled by
/// `SCALE`, when the magnitude reaches the tolerance, and zero when it
/// stays below the tolerance. A magnitude exactly at the tolerance is
/// penalized.
pub open spec fn penalty_term(fe: MultifactorFitnessEvaluater, i: int, p: Seq<i64>) -> int {
    let av = violation(fe.restrictions@[i], p);
    if av >= fe.eps {
        div_trunc(fe.weights@[i] * av, SCALE as int)
    } else {
        0
    }
}

/// How many restriction slots take part: every restriction that has a
/// weight (all of them, for a well-formed evaluater).
pub open spec fn penalty_len(fe: MultifactorFitnessEvaluater) -> int {
    if fe.restrictions@.len() <= fe.weights@.len() {
        fe.restrictions@.len() as int
    } else {
        fe.weights@.len() as int
    }
}

/// The penalty over the first `k` restrictions, saturating at `i64` after
/// each addition.
pub open spec fn penalty_prefix(fe: MultifactorFitnessEvaluater, p: Seq<i64>, k: int) -> int
    decreases k,
{
    if k <= 0 {
        0
    } else {
        clamp_i64(penalty_prefix(fe, p, k - 1) + penalty_term(fe, k - 1, p))
    }
}

/// The whole penalty of a point.
pub open spec fn penalty_spec(fe: MultifactorFitnessEvaluater, p: Seq<i64>) -> int {
    penalty_prefix(fe, p, penalty_len(fe))
}

/// The combined fitness: the raw objective plus the penalty, saturating.
pub open spec fn constrained_fitness_spec(fe: MultifactorFitnessEvaluater, p: Seq<i64>) -> int {
    clamp_i64(eval(fe.fitness_func, p) + penalty_spec(fe, p))
}

/// A penalty term is never negative for nonnegative weights.
pub proof fn lemma_penalty_term_bounds(fe: MultifactorFitnessEvaluater, i: int, p: Seq<i64>)
    requires
        fe.wf(),
        0 <= i < penalty_len(fe),
    ensures
        0 <= penalty_term(fe, i, p),
{
    lemma_eval_in_range(fe.restrictions@[i], p);
    let av = violation(fe.restrictions@[i], p);
    let w = fe.weights@[i] as int;
    assert(0 <= av <= i64::MAX as int + 1);
    if av >= fe.eps {
        assert(0 <= w * av) by (nonlinear_arith)
            requires
                0 <= w,
                0 <= av,
        ;
        vstd::arithmetic::div_mod::lemma_div_pos_is_pos(w * av, SCALE as int);
    }
}

/// The penalty is never negative.
pub proof fn lemma_penalty_prefix_nonneg(fe: MultifactorFitnessEvaluater, p: Seq<i64>, k: int)
    requires
        fe.wf(),
        k <= penalty_len(fe),
    ensures
        0 <= penalty_prefix(fe, p, k) <= i64::MAX as int,
    decreases k,
{
    if k > 0 {
        lemma_penalty_prefix_nonneg(fe, p, k - 1);
        lemma_penalty_term_bounds(fe, k - 1, p);
    }
}

/// Penalty zero below tolerance: when every restriction's magnitude stays
/// strictly below the tolerance, the penalty is exactly zero. The boundary
/// is exclusive the other way: a magnitude exactly at the tolerance is
/// penalized.
pub proof fn lemma_penalty_zero_inside_tolerance(fe: MultifactorFitnessEvaluater, p: Seq<i64>)
    requires
        fe.wf(),
        forall|i: int|
            0 <= i < fe.restrictions@.len() ==> violation(#[trigger] fe.restrictions@[i], p)
                < fe.eps,
    ensures
        penalty_spec(fe, p) == 0,
{
    lemma_penalty_prefix_zero(fe, p, penalty_len(fe));
}

proof fn lemma_penalty_prefix_zero(fe: MultifactorFitnessEvaluater, p: Seq<i64>, k: int)
    requires
        fe.wf(),
        k <= penalty_len(fe),
        forall|i: int|
            0 <= i < fe.restrictions@.len() ==> violation(#[trigger] fe.restrictions@[i], p)
                < fe.eps,
    ensures
        penalty_prefix(fe, p, k) == 0,
    decreases k,
{
    if k > 0 {
        lemma_penalty_prefix_zero(fe, p, k - 1);
    }
}

/// Zero penalty means feasible: when every weight is heavy enough that a
/// violation at the tolerance survives the rescaling (`w * eps >= SCALE`),
/// a penalty of zero holds exactly when every restriction's magnitude is
/// strictly below the tolerance.
pub proof fn lemma_zero_penalty_means_feasible(fe: MultifactorFitnessEvaluater, p: Seq<i64>)
    requires
        fe.wf(),
        forall|i: int|
            0 <= i < fe.weights@.len() ==> (#[trigger] fe.weights@[i]) as int * (fe.eps as int)
                >= SCALE as int,
    ensures
        penalty_spec(fe, p) == 0 <==> forall|i: int|
            0 <= i < fe.restrictions@.len() ==> violation(#[trigger] fe.restrictions@[i], p)
                < fe.eps,
{
    if forall|i: int|
        0 <= i < fe.restrictions@.len() ==> violation(#[trigger] fe.restrictions@[i], p)
            < fe.eps {
        lemma_penalty_zero_inside_tolerance(fe, p);
    } else {
        let i = choose|i: int|
            0 <= i < fe.restrictions@.len() && !(violation(fe.restrictions@[i], p) < fe.eps);
        let av = violation(fe.restrictions@[i], p);
        let w = fe.weights@[i] as int;
        assert(w * av >= SCALE as int) by (nonlinear_arith)
            requires
                w * (fe.eps as int) >= SCALE as int,
                av >= fe.eps,
                w >= 0,
        ;
        vstd::arithmetic::div_mod::lemma_div_is_ordered(SCALE as int, w * av, SCALE as int);
        vstd::arithmetic::div_mod::lemma_div_multiples_vanish(1, SCALE as int);
        assert(penalty_term(fe, i, p) >= 1);
        lemma_penalty_prefix_positive(fe, p, i + 1, penalty_len(fe));
    }
}

/// Once a positive term entered the sum, the saturating sum stays positive.
proof fn lemma_penalty_prefix_positive(
    fe: MultifactorFitnessEvaluater,
    p: Seq<i64>,
    from: int,
    k: int,
)
    requires
        fe.wf(),
        0 < from <= k <= penalty_len(fe),
        penalty_term(fe, from - 1, p) >= 1,
    ensures
        penalty_prefix(fe, p, k) >= 1,
    decreases k,
{
    if k == from {
        lemma_penalty_prefix_nonneg(fe, p, k - 1);
        lemma_penalty_term_bounds(fe, k - 1, p);
    } else {
        lemma_penalty_prefix_positive(fe, p, from, k - 1);
        lemma_penalty_term_bounds(fe, k - 1, p);
        lemma_penalty_prefix_nonneg(fe, p, k - 1);
    }
}

impl MultifactorFitnessEvaluater {
    /// The raw objective of a chromosome, without any penalty.
    pub fn real_fitness(&self, chromosome: &VectorChromosome) -> (r: i64)
        ensures
            r as int == eval(self.fitness_func, chromosome@.point),
    {
        eval_formula(&self.fitness_func, &chromosome.point)
    }

    /// The penalty of a chromosome: the weighted magnitudes of all its
    /// restriction violations at or above the tolerance.
    pub fn penalty(&self, chromosome: &VectorChromosome) -> (r: i64)
        ensures
            r as int == penalty_spec(*self, chromosome@.point),
    {
        let n = if self.restrictions.len() <= self.weights.len() {
            self.restrictions.len()
        } else {
            self.weights.len()
        };
        let mut acc: i64 = 0;
        let mut i: usize = 0;
        while i < n
            invariant
                0 <= i <= n,
                n == penalty_len(*self),
                acc as int == penalty_prefix(*self, chromosome@.point, i as int),
            decreases n - i,
        {
            let v: i64 = eval_formula(&self.restrictions[i], &chromosome.point);
            let av: i128 = if v < 0 {
                -(v as i128)
            } else {
                v as i128
            };
            let term: i128 = if av >= self.eps as i128 {
                proof {
                    assert(-170141183460469231731687303715884105727int < (
                    self.weights@[i as int] as int) * (av as int)
                        < 170141183460469231731687303715884105727int) by (nonlinear_arith)
                        requires
                            -9223372036854775808int <= self.weights@[i as int] as int
                                <= 9223372036854775807int,
                            0 <= av as int <= 9223372036854775808int,
                    ;
                }
                let prod: i128 = (self.weights[i] as i128) * av;
                crate::formula::div_by_scale(prod)
            } else {
                0
            };
            proof {
                assert(term as int == penalty_term(*self, i as int, chromosome@.point));
            }
            acc = clamp_to_i64((acc as i128) + term);
            i = i + 1;
        }
        acc
    }
}

impl Clone for MultifactorFitnessEvaluater {
    /// A clone scores exactly as the original does.
    fn clone(&self) -> (r: Self)
        ensures
            r.fitness_func == self.fitness_func,
            r.restrictions@ == self.restrictions@,
            r.weights@ == self.weights@,
            r.eps == self.eps,
    {
        let mut restrictions: Vec<Formula> = Vec::new();
        let mut i: usize = 0;
        while i < self.restrictions.len()
            invariant
                0 <= i <= self.restrictions@.len(),
                restrictions@.len() == i,
                forall|j: int| 0 <= j < i ==> #[trigger] restrictions@[j] == self.restrictions@[j],
            decreases self.restrictions@.len() - i,
        {
            restrictions.push(self.restrictions[i].clone());
            i = i + 1;
        }
        let weights = crate::vector::clone_coords(&self.weights);
        proof {
            assert(restrictions@ =~= self.restrictions@);
        }
        MultifactorFitnessEvaluater {
            fitness_func: self.fitness_func.clone(),
            restrictions,
            eps: self.eps,
            weights,
        }
    }
}

impl FitnessEvaluater<VectorChromosome> for MultifactorFitnessEvaluater {
    open spec fn fitness_spec(&self, c: ChromView) -> int {
        constrained_fitness_spec(*self, c.point)
    }

    fn fitness(&self, chromosome: &VectorChromosome) -> (r: i64) {
        let raw = self.real_fitness(chromosome);
        let pen = self.penalty(chromosome);
        clamp_to_i64((raw as i128) + (pen as i128))
    }
}

/// The tolerance after `step` of `total` annealing steps: the linear
/// interpolation from `start_eps` toward `end_eps`, rounded toward zero,
/// always between the two.
pub fn anneal_eps(start_eps: i64, end_eps: i64, step: usize, total: usize) -> (r: i64)
    requires
        1 <= total <= 1_000_000_000,
        step <= total,
        0 <= start_eps,
        0 <= end_eps,
    ensures
        r as int == start_eps + div_trunc((end_eps - start_eps) * step, total as int),
        crate::fixed::min_of(start_eps as int, end_eps as int) <= r as int <= crate::fixed::max_of(
            start_eps as int,
            end_eps as int,
        ),
{
    let diff: i128 = (end_eps as i128) - (start_eps as i128);
    let d: i128 = if diff >= 0 {
        proof {
            assert(0 <= diff * (step as i128) <= diff * (total as i128)) by (nonlinear_arith)
                requires
                    diff >= 0,
                    0 <= step as i128 <= total as i128,
            ;
            assert(diff * (total as i128) <= (i64::MAX as i128) * 1_000_000_000i128)
                by (nonlinear_arith)
                requires
                    0 <= diff <= i64::MAX as i128,
                    0 < total as i128 <= 1_000_000_000i128,
            ;
        }
        let prod: u128 = (diff as u128) * (step as u128);
        let q: u128 = prod / (total as u128);
        proof {
            assert(prod as int <= (diff as int) * (total as int));
            assert((diff as int) * (total as int) == (total as int) * (diff as int))
                by (nonlinear_arith);
            vstd::arithmetic::div_mod::lemma_div_is_ordered(
                prod as int,
                (total as int) * (diff as int),
                total as int,
            );
            vstd::arithmetic::div_mod::lemma_div_multiples_vanish(diff as int, total as int);
            vstd::arithmetic::div_mod::lemma_div_pos_is_pos(prod as int, total as int);
            assert(0 <= q as int <= diff as int);
        }
        q as i128
    } else {
        proof {
            assert(0 <= (-diff) * (step as i128) <= (-diff) * (total as i128))
                by (nonlinear_arith)
                requires
                    -diff >= 0,
                    0 <= step as i128 <= total as i128,
            ;
            assert((-diff) * (total as i128) <= (i64::MAX as i128 + 1) * 1_000_000_000i128)
                by (nonlinear_arith)
                requires
                    0 <= -diff <= i64::MAX as i128 + 1,
                    0 < total as i128 <= 1_000_000_000i128,
            ;
        }
        let prod: u128 = ((-diff) as u128) * (step as u128);
        let q: u128 = prod / (total as u128);
        proof {
            assert(prod as int <= (-(diff as int)) * (total as int));
            assert((-(diff as int)) * (total as int) == (total as int) * (-(diff as int)))
                by (nonlinear_arith);
            vstd::arithmetic::div_mod::lemma_div_is_ordered(
                prod as int,
                (total as int) * (-(diff as int)),
                total as int,
            );
            vstd::arithmetic::div_mod::lemma_div_multiples_vanish(-(diff as int), total as int);
            vstd::arithmetic::div_mod::lemma_div_pos_is_pos(prod as int, total as int);
            assert(0 <= q as int <= -(diff as int));
            assert((-(diff as int)) * (step as int) == -((diff as int) * (step as int)))
                by (nonlinear_arith);
        }
        -(q as i128)
    };
    proof {
        if diff >= 0 {
            assert(start_eps as int <= start_eps as int + d as int <= end_eps as int);
        } else {
            assert(end_eps as int <= start_eps as int + d as int <= start_eps as int);
        }
    }
    (start_eps as i128 + d) as i64
}

} // verus!
