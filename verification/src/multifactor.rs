use vstd::prelude::*;

verus! {

use crate::rng::{new_rng, rng_coord};
use crate::select::{
    all_from, all_wf, boxed_by, draw_weighted, from_some, lemma_all_from_boxed,
    lemma_all_from_push, lemma_all_from_wf, lemma_part_of_whole, lemma_transfer_keeps_contents,
    rank_weights, sort_by_fitness, sorted_desc_by, top_chromosomes, views, weights_ok,
};
use crate::vector::{clone_coords, VectorChromosome};
use crate::{
    is_jitter, is_reset, ChromView, Chromosome, FitnessEvaluater, GeneticFactory, COORD_LIMIT,
    DIM_LIMIT, POP_LIMIT, SCALE,
};
use rand::rngs::ThreadRng;
use vstd::pervasive::unreached;

/// The per-run configuration of one evolutionary run. Radii are stored as
/// squared distances; the mutation chance and the ranging value are
/// fractions in `SCALE` units.
pub struct GeneticParameters<FE: FitnessEvaluater<VectorChromosome>> {
    /// Fitness function
    pub fitness_evaluater: FE,
    /// Squared radius for searching crossover candidates
    pub search_radius_sq: u128,
    /// Squared radius that allows two chromosomes to cross
    pub cross_allow_radius_sq: u128,
    /// Max try count for searching a chromosome in the crossing radius
    pub max_cross_choices: usize,
    /// Mutation chance, in `SCALE` units of probability
    pub mutation_chance: i64,
    /// Min values
    pub min: Vec<i64>,
    /// Max values
    pub max: Vec<i64>,
    /// Ranging value, in `SCALE` units, between `SCALE` and `2 * SCALE`
    pub rang_value: i64,
}

impl<FE: FitnessEvaluater<VectorChromosome>> GeneticParameters<FE> {
    /// The box is sound and the fractions are in range.
    pub open spec fn wf(&self) -> bool {
        &&& self.min@.len() == self.max@.len()
        &&& 1 <= self.min@.len() <= DIM_LIMIT
        &&& forall|i: int|
            0 <= i < self.min@.len() ==> -COORD_LIMIT <= #[trigger] self.min@[i]
                && self.min@[i] < self.max@[i] && self.max@[i] <= COORD_LIMIT
        &&& 0 <= self.mutation_chance <= SCALE
        &&& SCALE <= self.rang_value <= 2 * SCALE
    }

    /// The number of coordinates of every chromosome of the run.
    pub open spec fn dim(&self) -> int {
        self.min@.len() as int
    }

    /// The default configuration: a two-coordinate box from -6 to 6, a
    /// search radius of one half, a crossing radius of one quarter, a
    /// mutation chance of one fifth and a ranging value of one and a half.
    pub fn new(evaluater: FE) -> (r: Self)
        ensures
            r.wf(),
            r.fitness_evaluater == evaluater,
            r.min@ == seq![(-6 * SCALE) as i64, (-6 * SCALE) as i64],
            r.max@ == seq![(6 * SCALE) as i64, (6 * SCALE) as i64],
            r.mutation_chance == SCALE / 5,
            r.rang_value == SCALE + SCALE / 2,
    {
        let mut min: Vec<i64> = Vec::new();
        min.push(-6 * SCALE);
        min.push(-6 * SCALE);
        let mut max: Vec<i64> = Vec::new();
        max.push(6 * SCALE);
        max.push(6 * SCALE);
        proof {
            assert(min@ =~= seq![(-6 * SCALE) as i64, (-6 * SCALE) as i64]);
            assert(max@ =~= seq![(6 * SCALE) as i64, (6 * SCALE) as i64]);
        }
        GeneticParameters {
            fitness_evaluater: evaluater,
            search_radius_sq: 250_000_000_000u128,
            cross_allow_radius_sq: 62_500_000_000u128,
            max_cross_choices: 5,
            mutation_chance: SCALE / 5,
            min,
            max,
            rang_value: SCALE + SCALE / 2,
        }
    }
}

impl<FE: FitnessEvaluater<VectorChromosome> + Clone> Clone for GeneticParameters<FE> {
    /// A clone keeps the whole configuration; of the evaluater it keeps
    /// only what its own clone keeps.
    fn clone(&self) -> (r: Self)
        ensures
            r.search_radius_sq == self.search_radius_sq,
            r.cross_allow_radius_sq == self.cross_allow_radius_sq,
            r.max_cross_choices == self.max_cross_choices,
            r.mutation_chance == self.mutation_chance,
            r.min@ == self.min@,
            r.max@ == self.max@,
            r.rang_value == self.rang_value,
            r.wf() == self.wf(),
    {
        GeneticParameters {
            fitness_evaluater: self.fitness_evaluater.clone(),
            search_radius_sq: self.search_radius_sq,
            cross_allow_radius_sq: self.cross_allow_radius_sq,
            max_cross_choices: self.max_cross_choices,
            mutation_chance: self.mutation_chance,
            min: clone_coords(&self.min),
            max: clone_coords(&self.max),
            rang_value: self.rang_value,
        }
    }
}

/// The state machine of one single-objective run: a population under a
/// parameter set, transformed in place by selection, crossover and
/// mutation, each step consuming and returning the processor.
pub struct VectorGeneticProcessor<FE: FitnessEvaluater<VectorChromosome>> {
    population: Option<Vec<VectorChromosome>>,
    population_size: usize,
    rand: ThreadRng,
    parameters: GeneticParameters<FE>,
}

impl<FE: FitnessEvaluater<VectorChromosome>> VectorGeneticProcessor<FE> {
    /// A population has been seeded.
    pub closed spec fn initialized(&self) -> bool {
        self.population is Some
    }

    /// The current population.
    pub closed spec fn pop(&self) -> Seq<VectorChromosome>
        recommends
            self.initialized(),
    {
        (self.population->0)@
    }

    /// The target population size, set when the population is seeded.
    pub closed spec fn size(&self) -> int {
        self.population_size as int
    }

    /// The parameter set of the run.
    pub closed spec fn params(&self) -> GeneticParameters<FE> {
        self.parameters
    }

    /// The parameters are sound and every chromosome lives in their box.
    pub closed spec fn wf(&self) -> bool {
        &&& self.parameters.wf()
        &&& self.initialized() ==> all_wf(self.pop()) && boxed_by(
            self.pop(),
            self.parameters.min@,
            self.parameters.max@,
        )
    }

    /// A fresh processor, not yet seeded.
    pub fn new(parameters: GeneticParameters<FE>) -> (r: Self)
        requires
            parameters.wf(),
        ensures
            r.wf(),
            !r.initialized(),
            r.params() == parameters,
            r.size() == 0,
    {
        VectorGeneticProcessor {
            population: None,
            population_size: 0,
            rand: new_rng(),
            parameters,
        }
    }

    /// Seeds the population; the only legal entry transition. The target
    /// size of every later selection pass is the seed's size.
    pub fn init_population(self, start_population: Vec<VectorChromosome>) -> (r: Self)
        requires
            self.wf(),
            all_wf(start_population@),
            boxed_by(start_population@, self.params().min@, self.params().max@),
        ensures
            r.wf(),
            r.initialized(),
            r.pop() == start_population@,
            r.size() == start_population@.len(),
            r.params() == self.params(),
    {
        let size = start_population.len();
        VectorGeneticProcessor {
            population: Some(start_population),
            population_size: size,
            rand: self.rand,
            parameters: self.parameters,
        }
    }

    /// Linear-ranking selection: sorts the population best first, then
    /// resamples `size` chromosomes without replacement, each slot drawn
    /// with probability proportional to its rank weight. The population
    /// shrinks back to the target size; every survivor comes from the old
    /// population.
    pub fn populate(self) -> (r: Self)
        requires
            self.wf(),
            self.initialized(),
            2 <= self.pop().len() <= POP_LIMIT,
            1 <= self.size() <= self.pop().len(),
        ensures
            r.wf(),
            r.initialized(),
            r.params() == self.params(),
            r.size() == self.size(),
            r.pop().len() == self.size(),
            all_from(r.pop(), self.pop()),
            views(r.pop()).to_multiset().subset_of(views(self.pop()).to_multiset()),
    {
        broadcast use vstd::seq_lib::group_to_multiset_ensures;

        let VectorGeneticProcessor { population, population_size, mut rand, parameters } = self;
        let pop = population.unwrap();
        let ghost orig = pop@;
        let n = pop.len();
        let mut pool = sort_by_fitness(pop, &parameters.fitness_evaluater, true);
        let mut weights = rank_weights(n, parameters.rang_value);
        let mut new_pop: Vec<VectorChromosome> = Vec::new();
        let mut k: usize = 0;
        proof {
            assert(views(new_pop@) =~= Seq::<crate::ChromView>::empty());
            assert(views(new_pop@).to_multiset().add(views(pool@).to_multiset()) =~= views(
                orig,
            ).to_multiset());
        }
        while k < population_size
            invariant
                0 <= k <= population_size,
                population_size <= n <= POP_LIMIT,
                pool@.len() == n - k,
                weights@.len() == pool@.len(),
                weights_ok(weights@),
                all_from(pool@, orig),
                all_from(new_pop@, orig),
                new_pop@.len() == k,
                views(new_pop@).to_multiset().add(views(pool@).to_multiset()) == views(
                    orig,
                ).to_multiset(),
            decreases population_size - k,
        {
            let ghost pre = pool@;
            let ghost pre_out = new_pop@;
            let (picked, idx) = draw_weighted(&mut pool, &mut weights, &mut rand);
            proof {
                crate::select::lemma_all_from_remove(pre, idx as int, orig);
                assert(from_some(pre[idx as int], orig));
                lemma_all_from_push(new_pop@, picked, orig);
            }
            new_pop.push(picked);
            proof {
                lemma_transfer_keeps_contents(pre, pool@, pre_out, new_pop@, idx as int);
            }
            k = k + 1;
        }
        proof {
            lemma_all_from_wf(new_pop@, orig);
            lemma_all_from_boxed(new_pop@, orig, parameters.min@, parameters.max@);
            lemma_part_of_whole(new_pop@, pool@, orig);
        }
        VectorGeneticProcessor {
            population: Some(new_pop),
            population_size,
            rand,
            parameters,
        }
    }

    /// Crossover: shuffles the population, then repeatedly pairs the first
    /// remaining chromosome with a partner inside the crossing radius (a
    /// random partner when none is in reach) and replaces the pair by its
    /// four crossover outputs. An orphan, if any, is dropped, so the new
    /// population holds four chromosomes per consumed pair.
    pub fn cross(self) -> (r: Self)
        requires
            self.wf(),
            self.initialized(),
        ensures
            r.wf(),
            r.initialized(),
            r.params() == self.params(),
            r.size() == self.size(),
            r.pop().len() == 4 * (self.pop().len() as int / 2),
            self.pop().len() % 2 == 0 ==> views(self.pop()).to_multiset().subset_of(
                views(r.pop()).to_multiset(),
            ),
    {
        let VectorGeneticProcessor { population, population_size, mut rand, parameters } = self;
        let pool = population.unwrap();
        let new_pop = crate::ops::cross_population(
            pool,
            &mut rand,
            parameters.search_radius_sq,
            parameters.cross_allow_radius_sq,
            Ghost(parameters.min@),
            Ghost(parameters.max@),
        );
        VectorGeneticProcessor {
            population: Some(new_pop),
            population_size,
            rand,
            parameters,
        }
    }

    /// Mutation: each chromosome is independently mutated with the
    /// configured chance and is otherwise passed through unchanged. The
    /// caller supplies one vector of jitter noise per population slot.
    pub fn mutate(self, noise: &Vec<Vec<i64>>) -> (r: Self)
        requires
            self.wf(),
            self.initialized(),
            noise@.len() >= self.pop().len(),
            forall|k: int|
                0 <= k < self.pop().len() ==> (#[trigger] noise@[k])@.len() == self.params().dim(),
        ensures
            r.wf(),
            r.initialized(),
            r.params() == self.params(),
            r.size() == self.size(),
            r.pop().len() == self.pop().len(),
            forall|k: int|
                0 <= k < self.pop().len() ==> (#[trigger] r.pop()[k])@ == self.pop()[k]@
                    || is_reset(r.pop()[k]@) || is_jitter(self.pop()[k]@, r.pop()[k]@, noise@[k]@),
    {
        let VectorGeneticProcessor { population, population_size, mut rand, parameters } = self;
        let pool = population.unwrap();
        let out = crate::ops::mutate_population(
            pool,
            &mut rand,
            parameters.mutation_chance,
            noise,
            Ghost(parameters.min@),
            Ghost(parameters.max@),
        );
        VectorGeneticProcessor {
            population: Some(out),
            population_size,
            rand,
            parameters,
        }
    }

    /// Swaps the run's evaluater, keeping everything else: the driver uses
    /// this to anneal the constrained evaluater's tolerance between
    /// generations.
    pub fn replace_evaluater(self, fe: FE) -> (r: Self)
        ensures
            r.params().fitness_evaluater == fe,
            r.params().search_radius_sq == self.params().search_radius_sq,
            r.params().cross_allow_radius_sq == self.params().cross_allow_radius_sq,
            r.params().max_cross_choices == self.params().max_cross_choices,
            r.params().mutation_chance == self.params().mutation_chance,
            r.params().min == self.params().min,
            r.params().max == self.params().max,
            r.params().rang_value == self.params().rang_value,
            r.initialized() == self.initialized(),
            self.initialized() ==> r.pop() == self.pop(),
            r.size() == self.size(),
            self.wf() ==> r.wf(),
    {
        let VectorGeneticProcessor { population, population_size, rand, parameters } = self;
        let GeneticParameters {
            fitness_evaluater: _,
            search_radius_sq,
            cross_allow_radius_sq,
            max_cross_choices,
            mutation_chance,
            min,
            max,
            rang_value,
        } = parameters;
        VectorGeneticProcessor {
            population,
            population_size,
            rand,
            parameters: GeneticParameters {
                fitness_evaluater: fe,
                search_radius_sq,
                cross_allow_radius_sq,
                max_cross_choices,
                mutation_chance,
                min,
                max,
                rang_value,
            },
        }
    }

    /// Borrows the current population for reporting mid-run.
    pub fn population(&self) -> (r: &Vec<VectorChromosome>)
        requires
            self.initialized(),
        ensures
            r@ == self.pop(),
    {
        match &self.population {
            Some(p) => p,
            None => unreached(),
        }
    }

    /// Hands the population out and consumes the processor.
    pub fn finalyze(self) -> (r: Vec<VectorChromosome>)
        requires
            self.initialized(),
        ensures
            r@ == self.pop(),
    {
        self.population.unwrap()
    }

    /// The `count` best chromosomes under the given evaluater, best first.
    pub fn top_chromosomes<FE2: FitnessEvaluater<VectorChromosome>>(
        &self,
        count: usize,
        fe: FE2,
    ) -> (out: Vec<VectorChromosome>)
        requires
            self.wf(),
            self.initialized(),
            0 < count < self.pop().len(),
        ensures
            out@.len() == count,
            all_wf(out@),
            all_from(out@, self.pop()),
            sorted_desc_by(fe, out@),
            views(out@).to_multiset().subset_of(views(self.pop()).to_multiset()),
            forall|y: crate::ChromView|
                #[trigger] views(self.pop()).to_multiset().sub(views(out@).to_multiset()).count(y)
                    > 0 ==> fe.fitness_spec(y) <= fe.fitness_spec(out@[count - 1]@),
    {
        top_chromosomes(self.population(), count, &fe)
    }
}

/// Builds chromosomes and processors bound to one parameter set.
pub struct VectorGeneticFactory<FE: FitnessEvaluater<VectorChromosome> + Clone> {
    pub p: GeneticParameters<FE>,
}

impl<FE: FitnessEvaluater<VectorChromosome> + Clone> VectorGeneticFactory<FE> {
    /// The parameter set the factory is bound to.
    pub open spec fn params(&self) -> GeneticParameters<FE> {
        self.p
    }

    pub fn new(p: GeneticParameters<FE>) -> (r: Self)
        requires
            p.wf(),
        ensures
            r.params() == p,
    {
        VectorGeneticFactory { p }
    }
}

impl<FE: FitnessEvaluater<VectorChromosome> + Clone> GeneticFactory<
    VectorChromosome,
    VectorGeneticProcessor<FE>,
> for VectorGeneticFactory<FE> {
    /// The factory's parameter set is sound.
    open spec fn wf(&self) -> bool {
        self.p.wf()
    }

    /// A fresh chromosome lives inside the factory's half-open box.
    open spec fn chromosome_ok(&self, c: ChromView) -> bool {
        &&& c.lo == self.p.min@
        &&& c.hi == self.p.max@
        &&& is_reset(c)
    }

    /// A fresh processor is sound, not yet seeded, and carries the
    /// factory's box.
    open spec fn processor_ok(&self, p: VectorGeneticProcessor<FE>) -> bool {
        &&& p.wf()
        &&& !p.initialized()
        &&& p.params().min@ == self.p.min@
        &&& p.params().max@ == self.p.max@
        &&& p.params().mutation_chance == self.p.mutation_chance
        &&& p.params().rang_value == self.p.rang_value
    }

    fn new_chromosome(&self) -> (c: VectorChromosome) {
        let mut rng = new_rng();
        let n = self.p.min.len();
        let mut point: Vec<i64> = Vec::new();
        let mut i: usize = 0;
        while i < n
            invariant
                0 <= i <= n,
                n == self.p.min@.len(),
                self.p.wf(),
                point@.len() == i,
                forall|j: int|
                    0 <= j < i ==> self.p.min@[j] <= #[trigger] point@[j] < self.p.max@[j],
            decreases n - i,
        {
            point.push(rng_coord(&mut rng, self.p.min[i], self.p.max[i]));
            i = i + 1;
        }
        VectorChromosome {
            point,
            min: clone_coords(&self.p.min),
            max: clone_coords(&self.p.max),
        }
    }

    fn new_processor(&self) -> (p: VectorGeneticProcessor<FE>) {
        VectorGeneticProcessor::new(self.p.clone())
    }
}

} // verus!
