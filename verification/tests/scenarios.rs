use genetic_algorithm::conditional::{anneal_eps, MultifactorFitnessEvaluater};
use genetic_algorithm::decluster::{decluster, decluster_until_stable, ConstrainedPolicy, FitnessPolicy};
use genetic_algorithm::formula::Formula;
use genetic_algorithm::multicriteria;
use genetic_algorithm::multifactor::{GeneticParameters, VectorGeneticFactory, VectorGeneticProcessor};
use genetic_algorithm::vector::{VectorChromosome, VectorFitnessEvaluater};
use genetic_algorithm::{Chromosome, FitnessEvaluater, GeneticFactory, SCALE};
use rand_distr::Distribution;

fn chrom(point: Vec<i64>, lo: i64, hi: i64) -> VectorChromosome {
    let dim = point.len();
    VectorChromosome {
        point,
        min: vec![lo; dim],
        max: vec![hi; dim],
    }
}

fn coord(i: usize) -> Box<Formula> {
    Box::new(Formula::Coord(i))
}

/// -(x^2 + y^2): the convex bowl with its optimum at the origin.
fn neg_square_norm() -> Formula {
    Formula::Neg(Box::new(Formula::Add(
        Box::new(Formula::Mul(coord(0), coord(0))),
        Box::new(Formula::Mul(coord(1), coord(1))),
    )))
}

/// One vector of standard normal noise per population slot, in SCALE units.
fn noise_tape(rng: &mut rand::rngs::ThreadRng, slots: usize, dim: usize) -> Vec<Vec<i64>> {
    let normal = rand_distr::Normal::new(0.0f64, 1.0).unwrap();
    (0..slots)
        .map(|_| {
            (0..dim)
                .map(|_| (normal.sample(rng) * SCALE as f64) as i64)
                .collect()
        })
        .collect()
}

#[test]
fn decluster_collapses_the_two_close_pairs() {
    // four chromosomes at (0,0), (10,10), (0.1,0.1), (10.1,10.1) with a
    // tolerance of 1 collapse to two exemplars, each the fitter of its pair
    let lo = -20 * SCALE;
    let hi = 20 * SCALE;
    let pop = vec![
        chrom(vec![0, 0], lo, hi),
        chrom(vec![10 * SCALE, 10 * SCALE], lo, hi),
        chrom(vec![SCALE / 10, SCALE / 10], lo, hi),
        chrom(vec![10 * SCALE + SCALE / 10, 10 * SCALE + SCALE / 10], lo, hi),
    ];
    // fitness x + y: of each close pair the shifted point is fitter
    let fe = VectorFitnessEvaluater::new(Formula::Add(coord(0), coord(1)));
    let policy = FitnessPolicy { fe };
    let tol_sq = (SCALE as u128) * (SCALE as u128);
    let out = decluster(&pop, &policy, tol_sq);
    assert_eq!(out.len(), 2);
    assert_eq!(out[0].point, vec![SCALE / 10, SCALE / 10]);
    assert_eq!(
        out[1].point,
        vec![10 * SCALE + SCALE / 10, 10 * SCALE + SCALE / 10]
    );
}

#[test]
fn decluster_size_is_stable_at_a_fixed_point() {
    let lo = -20 * SCALE;
    let hi = 20 * SCALE;
    let pop = vec![
        chrom(vec![0, 0], lo, hi),
        chrom(vec![10 * SCALE, 10 * SCALE], lo, hi),
        chrom(vec![SCALE / 10, SCALE / 10], lo, hi),
        chrom(vec![5 * SCALE, 5 * SCALE], lo, hi),
        chrom(vec![10 * SCALE + SCALE / 10, 10 * SCALE + SCALE / 10], lo, hi),
    ];
    let fe = VectorFitnessEvaluater::new(Formula::Add(coord(0), coord(1)));
    let policy = FitnessPolicy { fe };
    let tol_sq = (SCALE as u128) * (SCALE as u128);
    let stable = decluster_until_stable(pop, &policy, tol_sq);
    // a further pass does not change the output at all
    let again = decluster(&stable, &policy, tol_sq);
    assert_eq!(again.len(), stable.len());
    let stable_points: Vec<Vec<i64>> = stable.iter().map(|c| c.point.clone()).collect();
    let again_points: Vec<Vec<i64>> = again.iter().map(|c| c.point.clone()).collect();
    assert_eq!(stable_points, again_points);
    // and the members are pairwise at least the tolerance apart
    for i in 0..stable.len() {
        for j in 0..stable.len() {
            if i != j {
                assert!(stable[i].distance_sq(&stable[j]) >= tol_sq);
            }
        }
    }
}

#[test]
fn multicriteria_selection_returns_exactly_the_target_size() {
    let criteria = vec![
        VectorFitnessEvaluater::new(Formula::Add(coord(0), coord(1))),
        VectorFitnessEvaluater::new(Formula::Sub(coord(0), coord(1))),
        VectorFitnessEvaluater::new(neg_square_norm()),
    ];
    let params = multicriteria::GeneticParameters {
        fitness_evaluater: criteria,
        is_maximization: false,
        search_radius_sq: (SCALE as u128) * (SCALE as u128),
        cross_allow_radius_sq: (SCALE as u128 / 2) * (SCALE as u128 / 2),
        max_cross_choices: 5,
        mutation_chance: SCALE / 5,
        min: vec![-4 * SCALE, -4 * SCALE],
        max: vec![4 * SCALE, 4 * SCALE],
        rang_value: 13 * SCALE / 10,
    };
    let factory = multicriteria::MulticriteriaFactory::new(params);
    let mut rng = rand::thread_rng();
    let seed: Vec<VectorChromosome> = (0..8).map(|_| factory.new_chromosome()).collect();
    let mut processor = factory.new_processor().init_population(seed);
    // size 8 over 3 criteria: 2 per criterion plus 2 uniform top-ups
    processor = processor.populate();
    assert_eq!(processor.population().len(), 8);
    processor = processor.cross();
    let tape = noise_tape(&mut rng, processor.population().len(), 2);
    processor = processor.mutate(&tape);
    processor = processor.populate();
    let pop = processor.take_population();
    assert_eq!(pop.len(), 8);
}

#[test]
fn bowl_run_converges_toward_the_origin() {
    // single-objective run: fitness -(x^2 + y^2) on [-6, 6]^2, 50
    // generations of 100; the best elite ends close to the optimum at 0
    let mut rng = rand::thread_rng();
    let fe = VectorFitnessEvaluater::new(neg_square_norm());
    let mut params = GeneticParameters::new(fe.clone());
    params.search_radius_sq = (3 * SCALE as u128) * (3 * SCALE as u128);
    params.cross_allow_radius_sq = (2 * SCALE as u128) * (2 * SCALE as u128);
    params.rang_value = 13 * SCALE / 10;
    let factory = VectorGeneticFactory::new(params);
    let seed: Vec<VectorChromosome> = (0..100).map(|_| factory.new_chromosome()).collect();
    let mut processor: VectorGeneticProcessor<VectorFitnessEvaluater> =
        factory.new_processor().init_population(seed);
    let mut elites: Vec<VectorChromosome> = Vec::new();
    for _ in 0..50 {
        processor = processor.populate();
        elites.extend(processor.top_chromosomes(5, fe.clone()));
        processor = processor.cross();
        let tape = noise_tape(&mut rng, processor.population().len(), 2);
        processor = processor.mutate(&tape);
    }
    processor = processor.populate();
    let final_pop = processor.finalyze();
    elites.extend(final_pop);
    let best = elites.iter().map(|c| fe.fitness(c)).max().unwrap();
    // within one whole unit of the optimum value 0
    assert!(best >= -SCALE, "best fitness {} is too far from 0", best);
}

#[test]
fn constrained_run_elites_satisfy_the_annealed_tolerance() {
    // constrained run with the restriction y - x^2 = 0 and eps annealed
    // from 0.01 down to 0.005: every returned elite with zero penalty
    // satisfies |y - x^2| < 0.005
    let mut rng = rand::thread_rng();
    let start_eps = SCALE / 100;
    let end_eps = SCALE / 200;
    let objective = Formula::Add(
        Box::new(Formula::Mul(coord(0), coord(0))),
        Box::new(Formula::Mul(
            Box::new(Formula::Sub(coord(1), Box::new(Formula::Lit(SCALE)))),
            Box::new(Formula::Sub(coord(1), Box::new(Formula::Lit(SCALE)))),
        )),
    );
    let parabola = Formula::Sub(coord(1), Box::new(Formula::Mul(coord(0), coord(0))));
    let make_fe = |eps: i64| {
        MultifactorFitnessEvaluater::new(
            objective.clone(),
            vec![parabola.clone()],
            vec![400 * SCALE],
            eps,
        )
    };
    let fe = make_fe(start_eps);
    let mut params = GeneticParameters::new(fe.clone());
    params.min = vec![-SCALE, -SCALE];
    params.max = vec![SCALE, SCALE];
    params.search_radius_sq = (SCALE as u128 / 100) * (SCALE as u128 / 100);
    params.cross_allow_radius_sq = (SCALE as u128 / 200) * (SCALE as u128 / 200);
    params.mutation_chance = 3 * SCALE / 10;
    let factory = VectorGeneticFactory::new(params);
    let seed: Vec<VectorChromosome> = (0..100).map(|_| factory.new_chromosome()).collect();
    let mut processor = factory.new_processor().init_population(seed);
    let total = 50usize;
    let mut elites: Vec<VectorChromosome> = Vec::new();
    for step in 0..total {
        processor = processor.populate();
        elites.extend(processor.top_chromosomes(5, make_fe(anneal_eps(start_eps, end_eps, step, total))));
        processor = processor.cross();
        let tape = noise_tape(&mut rng, processor.population().len(), 2);
        processor = processor.mutate(&tape);
        let eps = anneal_eps(start_eps, end_eps, step + 1, total);
        processor = processor.replace_evaluater(make_fe(eps));
    }
    processor = processor.populate();
    elites.extend(processor.finalyze());

    let final_fe = make_fe(end_eps);
    let policy = ConstrainedPolicy {
        fe: final_fe.clone(),
        tie_eps: 1,
    };
    let tol_sq = (7 * SCALE as u128 / 10) * (7 * SCALE as u128 / 10);
    let result = decluster_until_stable(elites, &policy, tol_sq);
    for c in &result {
        if final_fe.penalty(&c) == 0 {
            // zero penalty means the restriction really holds within eps
            let x = c.point[0] as i128;
            let y = c.point[1] as i128;
            let violation = (y - x * x / (SCALE as i128)).abs();
            assert!(
                violation < end_eps as i128,
                "zero-penalty point ({}, {}) violates the restriction by {}",
                x,
                y,
                violation
            );
        }
    }
}
