use vstd::prelude::*;

verus! {

use crate::rng::{new_rng, rng_coord, rng_index};
use crate::select::{
    all_from, all_wf, boxed_by, draw_weighted, from_some, lemma_all_from_boxed,
    lemma_all_from_push, lemma_all_from_refl, lemma_all_from_remove, lemma_all_from_trans,
    lemma_all_from_wf, lemma_part_of_whole, lemma_transfer_keeps_contents, rank_weights,
    sort_by_fitness, sorted_desc_by, top_chromosomes, views, weights_ok,
};
use crate::vector::{clone_coords, VectorChromosome, VectorFitnessEvaluater};
use crate::{
    is_jitter, is_reset, ChromView, Chromosome, FitnessEvaluater, GeneticFactory, COORD_LIMIT,
    DIM_LIMIT, POP_LIMIT, SCALE,
};
use rand::rngs::ThreadRng;
use vstd::pervasive::unreached;

/// The per-run configuration of one multi-criteria run: one evaluater per
/// criterion, and whether a higher score is better. Radii are stored as
/// squared distances; the mutation chance and the ranging value are
/// fractions in `SCALE` units.
pub struct GeneticParameters {
    /// Fitness function, one per criterion
    pub fitness_evaluater: Vec<VectorFitnessEvaluater>,
    pub is_maximization: bool,
    /// Squared radius for searching crossover candidates
    pub search_radius_sq: u128,
    /// Squared radius that allows two chromosomes to cross
    pub cross_allow_radius_sq: u128,
    /// Max try count for searching a chromosome in the crossing radius
    pub max_cross_choices: usize,
    /// Mutation chance, in `SCALE` units of probability
    pub mutation_chance: i64,
    /// Min values
    pub min: Vec<i64>,
    /// Max values
    pub max: Vec<i64>,
    /// Ranging value, in `SCALE` units, between `SCALE` and `2 * SCALE`
    pub rang_value: i64,
}

impl GeneticParameters {
    /// The box is sound, the fractions are in range, and there is at least
    /// one criterion.
    pub open spec fn wf(&self) -> bool {
        &&& self.min@.len() == self.max@.len()
        &&& 1 <= self.min@.len() <= DIM_LIMIT
        &&& forall|i: int|
            0 <= i < self.min@.len() ==> -COORD_LIMIT <= #[trigger] self.min@[i]
                && self.min@[i] < self.max@[i] && self.max@[i] <= COORD_LIMIT
        &&& 0 <= self.mutation_chance <= SCALE
        &&& SCALE <= self.rang_value <= 2 * SCALE
        &&& self.fitness_evaluater@.len() >= 1
    }

    /// The number of coordinates of every chromosome of the run.
    pub open spec fn dim(&self) -> int {
        self.min@.len() as int
    }
}

impl Clone for GeneticParameters {
    /// A clone keeps the whole configuration, criteria included.
    fn clone(&self) -> (r: Self)
        ensures
            r.fitness_evaluater@ == self.fitness_evaluater@,
            r.is_maximization == self.is_maximization,
            r.search_radius_sq == self.search_radius_sq,
            r.cross_allow_radius_sq == self.cross_allow_radius_sq,
            r.max_cross_choices == self.max_cross_choices,
            r.mutation_chance == self.mutation_chance,
            r.min@ == self.min@,
            r.max@ == self.max@,
            r.rang_value == self.rang_value,
            r.wf() == self.wf(),
    {
        let mut evs: Vec<VectorFitnessEvaluater> = Vec::new();
        let mut i: usize = 0;
        while i < self.fitness_evaluater.len()
            invariant
                0 <= i <= self.fitness_evaluater@.len(),
                evs@.len() == i,
                forall|j: int| 0 <= j < i ==> #[trigger] evs@[j] == self.fitness_evaluater@[j],
            decreases self.fitness_evaluater@.len() - i,
        {
            evs.push(self.fitness_evaluater[i].clone());
            i = i + 1;
        }
        proof {
            assert(evs@ =~= self.fitness_evaluater@);
        }
        GeneticParameters {
            fitness_evaluater: evs,
            is_maximization: self.is_maximization,
            search_radius_sq: self.search_radius_sq,
            cross_allow_radius_sq: self.cross_allow_radius_sq,
            max_cross_choices: self.max_cross_choices,
            mutation_chance: self.mutation_chance,
            min: clone_coords(&self.min),
            max: clone_coords(&self.max),
            rang_value: self.rang_value,
        }
    }
}

/// The state machine of one multi-criteria run: as the single-objective
/// processor, but selection gives every criterion a fair, ranked share of
/// the survivors.
pub struct MulticriteriaGeneticProcessor {
    population: Option<Vec<VectorChromosome>>,
    population_size: usize,
    rand: ThreadRng,
    parameters: GeneticParameters,
}

impl MulticriteriaGeneticProcessor {
    /// A population has been seeded.
    pub closed spec fn initialized(&self) -> bool {
        self.population is Some
    }

    /// The current population.
    pub closed spec fn pop(&self) -> Seq<VectorChromosome>
        recommends
            self.initialized(),
    {
        (self.population->0)@
    }

    /// The target population size, set when the population is seeded.
    pub closed spec fn size(&self) -> int {
        self.population_size as int
    }

    /// The parameter set of the run.
    pub closed spec fn params(&self) -> GeneticParameters {
        self.parameters
    }

    /// The parameters are sound and every chromosome lives in their box.
    pub closed spec fn wf(&self) -> bool {
        &&& self.parameters.wf()
        &&& self.initialized() ==> all_wf(self.pop()) && boxed_by(
            self.pop(),
            self.parameters.min@,
            self.parameters.max@,
        )
    }

    /// A fresh processor, not yet seeded.
    pub fn new(parameters: GeneticParameters) -> (r: Self)
        requires
            parameters.wf(),
        ensures
            r.wf(),
            !r.initialized(),
            r.params() == parameters,
            r.size() == 0,
    {
        MulticriteriaGeneticProcessor {
            population: None,
            population_size: 0,
            rand: new_rng(),
            parameters,
        }
    }

    /// Seeds the population; the only legal entry transition.
    pub fn init_population(self, start_population: Vec<VectorChromosome>) -> (r: Self)
        requires
            self.wf(),
            all_wf(start_population@),
            boxed_by(start_population@, self.params().min@, self.params().max@),
        ensures
            r.wf(),
            r.initialized(),
            r.pop() == start_population@,
            r.size() == start_population@.len(),
            r.params() == self.params(),
    {
        let size = start_population.len();
        MulticriteriaGeneticProcessor {
            population: Some(start_population),
            population_size: size,
            rand: self.rand,
            parameters: self.parameters,
        }
    }

    /// Per-criterion round-robin selection: each criterion in turn sorts
    /// the remaining pool (best first under the maximization flag) and
    /// draws its ranked share of `size / criteria` survivors without
    /// replacement; the remainder is topped up by uniform draws from what
    /// is left. The population shrinks back to exactly the target size.
    pub fn populate(self) -> (r: Self)
        requires
            self.wf(),
            self.initialized(),
            2 <= self.pop().len() <= POP_LIMIT,
            1 <= self.size() <= self.pop().len(),
        ensures
            r.wf(),
            r.initialized(),
            r.params() == self.params(),
            r.size() == self.size(),
            r.pop().len() == self.size(),
            all_from(r.pop(), self.pop()),
            views(r.pop()).to_multiset().subset_of(views(self.pop()).to_multiset()),
    {
        broadcast use vstd::seq_lib::group_to_multiset_ensures;

        let MulticriteriaGeneticProcessor { population, population_size, mut rand, parameters } =
            self;
        let pool0 = population.unwrap();
        let ghost orig = pool0@;
        let n = pool0.len();
        let k_crit = parameters.fitness_evaluater.len();
        let sub = population_size / k_crit;
        proof {
            lemma_all_from_refl(orig);
            vstd::arithmetic::div_mod::lemma_fundamental_div_mod(
                population_size as int,
                k_crit as int,
            );
        }
        let mut pool = pool0;
        let mut new_pop: Vec<VectorChromosome> = Vec::new();
        proof {
            assert(views(new_pop@) =~= Seq::<ChromView>::empty());
            assert(views(new_pop@).to_multiset().add(views(pool@).to_multiset()) =~= views(
                orig,
            ).to_multiset());
        }
        let mut ci: usize = 0;
        while ci < k_crit
            invariant
                0 <= ci <= k_crit,
                k_crit == parameters.fitness_evaluater@.len(),
                sub == population_size as int / k_crit as int,
                (k_crit as int) * (sub as int) + (population_size as int) % (k_crit as int)
                    == population_size as int,
                0 <= (population_size as int) % (k_crit as int),
                new_pop@.len() == ci * sub,
                new_pop@.len() + pool@.len() == n,
                population_size <= n <= POP_LIMIT,
                all_from(pool@, orig),
                all_from(new_pop@, orig),
                all_wf(pool@),
                all_wf(orig),
                views(new_pop@).to_multiset().add(views(pool@).to_multiset()) == views(
                    orig,
                ).to_multiset(),
                parameters.wf(),
                SCALE <= parameters.rang_value <= 2 * SCALE,
            decreases k_crit - ci,
        {
            proof {
                assert((ci as int + 1) * (sub as int) <= (k_crit as int) * (sub as int))
                    by (nonlinear_arith)
                    requires
                        ci as int + 1 <= k_crit as int,
                        sub as int >= 0,
                ;
                assert((ci as int + 1) * (sub as int) == (ci as int) * (sub as int) + sub as int)
                    by (nonlinear_arith);
            }
            if pool.len() >= 2 {
                let ghost pre_sort = pool@;
                let fe = &parameters.fitness_evaluater[ci];
                let sorted = sort_by_fitness(pool, fe, parameters.is_maximization);
                proof {
                    lemma_all_from_trans(sorted@, pre_sort, orig);
                    assert(views(new_pop@).to_multiset().add(views(sorted@).to_multiset())
                        == views(orig).to_multiset());
                }
                pool = sorted;
                let mut weights = rank_weights(pool.len(), parameters.rang_value);
                let round_len = pool.len();
                proof {
                    assert((ci as int + 1) * (sub as int) <= population_size as int);
                    assert(sub as int <= round_len as int);
                }
                let mut j: usize = 0;
                while j < sub
                    invariant
                        0 <= j <= sub,
                        sub <= round_len,
                        pool@.len() + j == round_len,
                        weights@.len() == pool@.len(),
                        weights_ok(weights@),
                        round_len <= POP_LIMIT,
                        new_pop@.len() == ci * sub + j,
                        new_pop@.len() + pool@.len() == n,
                        all_from(pool@, orig),
                        all_from(new_pop@, orig),
                        all_wf(pool@),
                        all_wf(orig),
                        views(new_pop@).to_multiset().add(views(pool@).to_multiset()) == views(
                            orig,
                        ).to_multiset(),
                    decreases sub - j,
                {
                    let ghost pre = pool@;
                    let ghost pre_out = new_pop@;
                    let (picked, idx) = draw_weighted(&mut pool, &mut weights, &mut rand);
                    proof {
                        lemma_all_from_remove(pre, idx as int, orig);
                        assert(from_some(pre[idx as int], orig));
                        lemma_all_from_push(new_pop@, picked, orig);
                        lemma_all_from_wf(pool@, orig);
                        lemma_all_from_wf(new_pop@, orig);
                    }
                    new_pop.push(picked);
                    proof {
                        lemma_transfer_keeps_contents(pre, pool@, pre_out, new_pop@, idx as int);
                    }
                    j = j + 1;
                }
            } else {
                // the pool is too small to rank: draw its chromosomes
                // uniformly instead
                let mut j: usize = 0;
                while j < sub
                    invariant
                        0 <= j <= sub,
                        new_pop@.len() == ci * sub + j,
                        new_pop@.len() + pool@.len() == n,
                        (ci as int + 1) * (sub as int) <= population_size as int <= n,
                        (ci as int) * (sub as int) + sub as int == (ci as int + 1) * (sub as int),
                        all_from(pool@, orig),
                        all_from(new_pop@, orig),
                        all_wf(pool@),
                        all_wf(orig),
                        views(new_pop@).to_multiset().add(views(pool@).to_multiset()) == views(
                            orig,
                        ).to_multiset(),
                    decreases sub - j,
                {
                    let idx = rng_index(&mut rand, pool.len());
                    let ghost pre = pool@;
                    let ghost pre_out = new_pop@;
                    let picked = pool.remove(idx);
                    proof {
                        lemma_all_from_remove(pre, idx as int, orig);
                        assert(from_some(pre[idx as int], orig));
                        lemma_all_from_push(new_pop@, picked, orig);
                        lemma_all_from_wf(pool@, orig);
                    }
                    new_pop.push(picked);
                    proof {
                        lemma_transfer_keeps_contents(pre, pool@, pre_out, new_pop@, idx as int);
                    }
                    j = j + 1;
                }
            }
            ci = ci + 1;
        }
        proof {
            assert(new_pop@.len() == (k_crit as int) * (sub as int));
            assert(new_pop@.len() <= population_size as int);
        }
        while new_pop.len() < population_size
            invariant
                new_pop@.len() + pool@.len() == n,
                new_pop@.len() <= population_size <= n,
                all_from(pool@, orig),
                all_from(new_pop@, orig),
                all_wf(orig),
                views(new_pop@).to_multiset().add(views(pool@).to_multiset()) == views(
                    orig,
                ).to_multiset(),
            decreases population_size - new_pop@.len(),
        {
            let idx = rng_index(&mut rand, pool.len());
            let ghost pre = pool@;
            let ghost pre_out = new_pop@;
            let picked = pool.remove(idx);
            proof {
                lemma_all_from_remove(pre, idx as int, orig);
                assert(from_some(pre[idx as int], orig));
                lemma_all_from_push(new_pop@, picked, orig);
            }
            new_pop.push(picked);
            proof {
                lemma_transfer_keeps_contents(pre, pool@, pre_out, new_pop@, idx as int);
            }
        }
        proof {
            lemma_all_from_wf(new_pop@, orig);
            lemma_all_from_boxed(new_pop@, orig, parameters.min@, parameters.max@);
            lemma_part_of_whole(new_pop@, pool@, orig);
        }
        MulticriteriaGeneticProcessor {
            population: Some(new_pop),
            population_size,
            rand,
            parameters,
        }
    }

    /// Crossover, as in the single-objective processor.
    pub fn cross(self) -> (r: Self)
        requires
            self.wf(),
            self.initialized(),
        ensures
            r.wf(),
            r.initialized(),
            r.params() == self.params(),
            r.size() == self.size(),
            r.pop().len() == 4 * (self.pop().len() as int / 2),
            self.pop().len() % 2 == 0 ==> views(self.pop()).to_multiset().subset_of(
                views(r.pop()).to_multiset(),
            ),
    {
        let MulticriteriaGeneticProcessor { population, population_size, mut rand, parameters } =
            self;
        let pool = population.unwrap();
        let new_pop = crate::ops::cross_population(
            pool,
            &mut rand,
            parameters.search_radius_sq,
            parameters.cross_allow_radius_sq,
            Ghost(parameters.min@),
            Ghost(parameters.max@),
        );
        MulticriteriaGeneticProcessor {
            population: Some(new_pop),
            population_size,
            rand,
            parameters,
        }
    }

    /// Mutation, as in the single-objective processor.
    pub fn mutate(self, noise: &Vec<Vec<i64>>) -> (r: Self)
        requires
            self.wf(),
            self.initialized(),
            noise@.len() >= self.pop().len(),
            forall|k: int|
                0 <= k < self.pop().len() ==> (#[trigger] noise@[k])@.len() == self.params().dim(),
        ensures
            r.wf(),
            r.initialized(),
            r.params() == self.params(),
            r.size() == self.size(),
            r.pop().len() == self.pop().len(),
            forall|k: int|
                0 <= k < self.pop().len() ==> (#[trigger] r.pop()[k])@ == self.pop()[k]@
                    || is_reset(r.pop()[k]@) || is_jitter(self.pop()[k]@, r.pop()[k]@, noise@[k]@),
    {
        let MulticriteriaGeneticProcessor { population, population_size, mut rand, parameters } =
            self;
        let pool = population.unwrap();
        let out = crate::ops::mutate_population(
            pool,
            &mut rand,
            parameters.mutation_chance,
            noise,
            Ghost(parameters.min@),
            Ghost(parameters.max@),
        );
        MulticriteriaGeneticProcessor {
            population: Some(out),
            population_size,
            rand,
            parameters,
        }
    }

    /// Borrows the current population for reporting mid-run.
    pub fn population(&self) -> (r: &Vec<VectorChromosome>)
        requires
            self.initialized(),
        ensures
            r@ == self.pop(),
    {
        match &self.population {
            Some(p) => p,
            None => unreached(),
        }
    }

    /// Hands the population out and consumes the processor.
    pub fn take_population(self) -> (r: Vec<VectorChromosome>)
        requires
            self.initialized(),
        ensures
            r@ == self.pop(),
    {
        self.population.unwrap()
    }

    /// The `count` best chromosomes under the given evaluater, best first.
    pub fn top_chromosomes<FE2: FitnessEvaluater<VectorChromosome>>(
        &self,
        count: usize,
        fe: FE2,
    ) -> (out: Vec<VectorChromosome>)
        requires
            self.wf(),
            self.initialized(),
            0 < count < self.pop().len(),
        ensures
            out@.len() == count,
            all_wf(out@),
            all_from(out@, self.pop()),
            sorted_desc_by(fe, out@),
            views(out@).to_multiset().subset_of(views(self.pop()).to_multiset()),
            forall|y: crate::ChromView|
                #[trigger] views(self.pop()).to_multiset().sub(views(out@).to_multiset()).count(y)
                    > 0 ==> fe.fitness_spec(y) <= fe.fitness_spec(out@[count - 1]@),
    {
        top_chromosomes(self.population(), count, &fe)
    }
}

/// Builds chromosomes and processors bound to one multi-criteria
/// parameter set.
pub struct MulticriteriaFactory {
    pub p: GeneticParameters,
}

impl MulticriteriaFactory {
    /// The parameter set the factory is bound to.
    pub open spec fn params(&self) -> GeneticParameters {
        self.p
    }

    pub fn new(p: GeneticParameters) -> (r: Self)
        requires
            p.wf(),
        ensures
            r.params() == p,
    {
        MulticriteriaFactory { p }
    }
}

impl GeneticFactory<VectorChromosome, MulticriteriaGeneticProcessor> for MulticriteriaFactory {
    /// The factory's parameter set is sound.
    open spec fn wf(&self) -> bool {
        self.p.wf()
    }

    /// A fresh chromosome lives inside the factory's half-open box.
    open spec fn chromosome_ok(&self, c: ChromView) -> bool {
        &&& c.lo == self.p.min@
        &&& c.hi == self.p.max@
        &&& is_reset(c)
    }

    /// A fresh processor is sound, not yet seeded, and carries the
    /// factory's box.
    open spec fn processor_ok(&self, p: MulticriteriaGeneticProcessor) -> bool {
        &&& p.wf()
        &&& !p.initialized()
        &&& p.params().min@ == self.p.min@
        &&& p.params().max@ == self.p.max@
        &&& p.params().mutation_chance == self.p.mutation_chance
        &&& p.params().rang_value == self.p.rang_value
        &&& p.params().fitness_evaluater@ == self.p.fitness_evaluater@
        &&& p.params().is_maximization == self.p.is_maximization
    }

    fn new_chromosome(&self) -> (c: VectorChromosome) {
        let mut rng = new_rng();
        let n = self.p.min.len();
        let mut point: Vec<i64> = Vec::new();
        let mut i: usize = 0;
        while i < n
            invariant
                0 <= i <= n,
                n == self.p.min@.len(),
                self.p.wf(),
                point@.len() == i,
                forall|j: int|
                    0 <= j < i ==> self.p.min@[j] <= #[trigger] point@[j] < self.p.max@[j],
            decreases n - i,
        {
            point.push(rng_coord(&mut rng, self.p.min[i], self.p.max[i]));
            i = i + 1;
        }
        VectorChromosome {
            point,
            min: clone_coords(&self.p.min),
            max: clone_coords(&self.p.max),
        }
    }

    fn new_processor(&self) -> (p: MulticriteriaGeneticProcessor) {
        MulticriteriaGeneticProcessor::new(self.p.clone())
    }
}

} // verus!
