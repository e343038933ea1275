use genetic_algorithm::analysis::{errors_to_targets, min_distance_sq};
use genetic_algorithm::conditional::{anneal_eps, MultifactorFitnessEvaluater};
use genetic_algorithm::formula::{eval_formula, Formula};
use genetic_algorithm::multifactor::{GeneticParameters, VectorGeneticFactory};
use genetic_algorithm::select::{exponential_rank_select, rank_weights, top_chromosomes};
use genetic_algorithm::vector::{VectorChromosome, VectorFitnessEvaluater};
use genetic_algorithm::{Chromosome, FitnessEvaluater, GeneticFactory, SCALE};

fn chrom(point: Vec<i64>, lo: i64, hi: i64) -> VectorChromosome {
    let dim = point.len();
    VectorChromosome {
        point,
        min: vec![lo; dim],
        max: vec![hi; dim],
    }
}

fn coord(i: usize) -> Box<Formula> {
    Box::new(Formula::Coord(i))
}

fn lit(units: i64) -> Box<Formula> {
    Box::new(Formula::Lit(units))
}

/// x^2 + y^2, in fixed-point units.
fn square_norm() -> Formula {
    Formula::Add(
        Box::new(Formula::Mul(coord(0), coord(0))),
        Box::new(Formula::Mul(coord(1), coord(1))),
    )
}

#[test]
fn cross_yields_four_with_parents_last() {
    let mut rng = rand::thread_rng();
    let a = chrom(vec![SCALE, 2 * SCALE], -6 * SCALE, 6 * SCALE);
    let b = chrom(vec![3 * SCALE, -SCALE], -6 * SCALE, 6 * SCALE);
    let a_point = a.point.clone();
    let b_point = b.point.clone();
    let out = a.cross(b, &mut rng);
    assert_eq!(out.len(), 4);
    assert_eq!(out[2].point, a_point);
    assert_eq!(out[3].point, b_point);
}

#[test]
fn cross_children_stay_between_parents() {
    let mut rng = rand::thread_rng();
    for _ in 0..20 {
        let a = chrom(vec![-2 * SCALE, 5 * SCALE], -6 * SCALE, 6 * SCALE);
        let b = chrom(vec![4 * SCALE, -3 * SCALE], -6 * SCALE, 6 * SCALE);
        let a_point = a.point.clone();
        let b_point = b.point.clone();
        let out = a.cross(b, &mut rng);
        for child in &out[0..2] {
            for i in 0..2 {
                let lo = a_point[i].min(b_point[i]);
                let hi = a_point[i].max(b_point[i]);
                assert!(lo <= child.point[i] && child.point[i] <= hi);
            }
        }
    }
}

#[test]
fn reset_mutation_stays_inside_the_box() {
    let mut rng = rand::thread_rng();
    for _ in 0..20 {
        let a = chrom(vec![100 * SCALE, -100 * SCALE], -2 * SCALE, 3 * SCALE);
        let m = a.mutate_reset(&mut rng);
        for i in 0..2 {
            assert!(-2 * SCALE <= m.point[i] && m.point[i] < 3 * SCALE);
        }
    }
}

#[test]
fn zero_noise_jitter_keeps_the_point() {
    let a = chrom(vec![SCALE, -SCALE], -6 * SCALE, 6 * SCALE);
    let m = a.mutate_jitter(&vec![0, 0]);
    assert_eq!(m.point, vec![SCALE, -SCALE]);
}

#[test]
fn jitter_moves_by_scaled_noise() {
    // one whole unit of noise moves a coordinate by (hi - lo) / 300
    let a = chrom(vec![0, 0], -6 * SCALE, 6 * SCALE);
    let m = a.mutate_jitter(&vec![SCALE, -SCALE]);
    let expected = 12 * SCALE / 300;
    assert_eq!(m.point, vec![expected, -expected]);
}

#[test]
fn distance_is_squared_euclidean() {
    let a = chrom(vec![0, 0], -6 * SCALE, 6 * SCALE);
    let b = chrom(vec![3 * SCALE, 4 * SCALE], -6 * SCALE, 6 * SCALE);
    let expected = (3u128 * SCALE as u128).pow(2) + (4u128 * SCALE as u128).pow(2);
    assert_eq!(a.distance_sq(&b), expected);
    assert_eq!(b.distance_sq(&a), expected);
}

#[test]
fn formula_rescales_products() {
    let f = Formula::Mul(lit(2 * SCALE), lit(3 * SCALE));
    assert_eq!(eval_formula(&f, &vec![]), 6 * SCALE);
}

#[test]
fn himmelblau_is_exact_at_a_known_optimum() {
    // 2500 - (x^2 + y - 11)^2 - (x + y^2 - 7)^2 is 2500 at (3, 2)
    let first = Formula::Sub(
        Box::new(Formula::Add(
            Box::new(Formula::Mul(coord(0), coord(0))),
            coord(1),
        )),
        lit(11 * SCALE),
    );
    let second = Formula::Sub(
        Box::new(Formula::Add(
            coord(0),
            Box::new(Formula::Mul(coord(1), coord(1))),
        )),
        lit(7 * SCALE),
    );
    let f = Formula::Sub(
        Box::new(Formula::Sub(
            lit(2500 * SCALE),
            Box::new(Formula::Mul(Box::new(first.clone()), Box::new(first))),
        )),
        Box::new(Formula::Mul(Box::new(second.clone()), Box::new(second))),
    );
    assert_eq!(eval_formula(&f, &vec![3 * SCALE, 2 * SCALE]), 2500 * SCALE);
    assert!(eval_formula(&f, &vec![0, 0]) < 2500 * SCALE);
}

#[test]
fn rank_weights_sum_to_the_common_denominator() {
    // the normalized weights sum exactly to one
    for n in [2usize, 5, 17, 100] {
        for a in [SCALE, 13 * SCALE / 10, 2 * SCALE] {
            let w = rank_weights(n, a);
            assert_eq!(w.len(), n);
            let sum: u128 = w.iter().map(|x| *x as u128).sum();
            assert_eq!(sum, (n as u128) * ((n - 1) as u128) * (SCALE as u128));
        }
    }
}

#[test]
fn rank_weights_follow_the_linear_rule() {
    let a = 13 * SCALE / 10;
    let w = rank_weights(5, a);
    let slope = 2 * a - 2 * SCALE;
    for i in 0..5 {
        assert_eq!(w[i] as i64, a * 4 - slope * (i as i64));
    }
    assert!(w[0] > w[4]);
}

#[test]
fn uniform_rank_weights_are_equal() {
    let w = rank_weights(4, SCALE);
    assert!(w.iter().all(|x| *x == w[0]));
}

fn small_population(n: usize) -> Vec<VectorChromosome> {
    (0..n)
        .map(|i| chrom(vec![i as i64 * SCALE, -(i as i64) * SCALE], -6 * SCALE, 6 * SCALE))
        .collect()
}

fn default_params() -> GeneticParameters<VectorFitnessEvaluater> {
    GeneticParameters::new(VectorFitnessEvaluater::new(Formula::Neg(Box::new(square_norm()))))
}

#[test]
fn rank_selection_returns_exactly_the_target_size() {
    let factory = VectorGeneticFactory::new(default_params());
    let mut processor = factory.new_processor();
    processor = processor.init_population(small_population(6));
    processor = processor.populate();
    assert_eq!(processor.population().len(), 6);
    // after crossover the next selection trims back to the target
    processor = processor.cross();
    processor = processor.populate();
    assert_eq!(processor.population().len(), 6);
}

#[test]
fn crossover_doubles_an_even_population() {
    let factory = VectorGeneticFactory::new(default_params());
    let mut processor = factory.new_processor();
    processor = processor.init_population(small_population(6));
    processor = processor.cross();
    assert_eq!(processor.population().len(), 12);
    let odd = factory
        .new_processor()
        .init_population(small_population(5))
        .cross();
    assert_eq!(odd.population().len(), 8);
}

#[test]
fn full_resampling_is_a_permutation() {
    // drawing n of n without replacement returns the same multiset
    let factory = VectorGeneticFactory::new(default_params());
    let mut processor = factory.new_processor();
    let input = small_population(5);
    let mut input_points: Vec<Vec<i64>> = input.iter().map(|c| c.point.clone()).collect();
    processor = processor.init_population(input);
    processor = processor.populate();
    let mut out_points: Vec<Vec<i64>> = processor
        .population()
        .iter()
        .map(|c| c.point.clone())
        .collect();
    input_points.sort();
    out_points.sort();
    assert_eq!(input_points, out_points);
}

#[test]
fn exponential_selection_returns_exactly_the_target_size() {
    let fe = VectorFitnessEvaluater::new(Formula::Neg(Box::new(square_norm())));
    let pop = small_population(5);
    let out = exponential_rank_select(pop, &fe, &vec![0, 3, 99, 3]);
    assert_eq!(out.len(), 4);
    // equal draws copy the same ranked chromosome
    assert_eq!(out[1].point, out[3].point);
    // an overlarge draw clamps to the best rank (the pool is sorted worst
    // first, so the last rank is the best)
    let fittest = &out[2];
    assert_eq!(fittest.point, vec![0, 0]);
}

#[test]
fn top_chromosomes_are_sorted_best_first() {
    let fe = VectorFitnessEvaluater::new(Formula::Neg(Box::new(square_norm())));
    let pop = small_population(5);
    let top = top_chromosomes(&pop, 2, &fe);
    assert_eq!(top.len(), 2);
    // closest to the origin first
    assert_eq!(top[0].point, vec![0, 0]);
    assert_eq!(top[1].point, vec![SCALE, -SCALE]);
}

#[test]
fn penalty_is_zero_strictly_inside_the_tolerance() {
    let fe = MultifactorFitnessEvaluater::new(
        Formula::Lit(0),
        vec![Formula::Coord(0)],
        vec![SCALE],
        10_000,
    );
    let inside = chrom(vec![9_999, 0], -SCALE, SCALE);
    assert_eq!(fe.penalty(&inside), 0);
    let negative_inside = chrom(vec![-9_999, 0], -SCALE, SCALE);
    assert_eq!(fe.penalty(&negative_inside), 0);
}

#[test]
fn penalty_counts_a_violation_exactly_at_the_tolerance() {
    // the boundary is penalized: the tolerated region is |v| < eps
    let fe = MultifactorFitnessEvaluater::new(
        Formula::Lit(0),
        vec![Formula::Coord(0)],
        vec![SCALE],
        10_000,
    );
    let boundary = chrom(vec![10_000, 0], -SCALE, SCALE);
    assert_eq!(fe.penalty(&boundary), 10_000);
    let outside = chrom(vec![30_000, 0], -SCALE, SCALE);
    assert_eq!(fe.penalty(&outside), 30_000);
}

#[test]
fn penalty_weights_scale_each_violation() {
    let fe = MultifactorFitnessEvaluater::new(
        Formula::Lit(0),
        vec![Formula::Coord(0), Formula::Coord(1)],
        vec![2 * SCALE, 3 * SCALE],
        1_000,
    );
    let p = chrom(vec![10_000, -20_000], -SCALE, SCALE);
    assert_eq!(fe.penalty(&p), 2 * 10_000 + 3 * 20_000);
}

#[test]
fn constrained_fitness_adds_raw_and_penalty() {
    let fe = MultifactorFitnessEvaluater::new(
        Formula::Coord(1),
        vec![Formula::Coord(0)],
        vec![SCALE],
        1_000,
    );
    let p = chrom(vec![50_000, 7 * SCALE], -10 * SCALE, 10 * SCALE);
    assert_eq!(fe.fitness(&p), 7 * SCALE + 50_000);
}

#[test]
fn anneal_interpolates_between_the_tolerances() {
    assert_eq!(anneal_eps(10_000, 5_000, 0, 100), 10_000);
    assert_eq!(anneal_eps(10_000, 5_000, 100, 100), 5_000);
    assert_eq!(anneal_eps(10_000, 5_000, 50, 100), 7_500);
    // annealing can widen the tolerance too
    assert_eq!(anneal_eps(5_000, 10_000, 50, 100), 7_500);
}

#[test]
fn factory_chromosomes_live_in_the_box() {
    let factory = VectorGeneticFactory::new(default_params());
    for _ in 0..20 {
        let c = factory.new_chromosome();
        assert_eq!(c.point.len(), 2);
        for i in 0..2 {
            assert!(c.min[i] <= c.point[i] && c.point[i] < c.max[i]);
        }
    }
}

#[test]
fn min_distance_finds_the_nearest_point() {
    let points = vec![vec![0, 0], vec![3 * SCALE, 4 * SCALE], vec![SCALE, 0]];
    let target = vec![SCALE, SCALE];
    let expected = (SCALE as u128) * (SCALE as u128);
    assert_eq!(min_distance_sq(&points, &target), expected);
    let errors = errors_to_targets(&points, &vec![vec![SCALE, SCALE], vec![0, 0]]);
    assert_eq!(errors, vec![expected, 0]);
}
