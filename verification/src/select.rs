use vstd::prelude::*;
use vstd::multiset::Multiset;

use rand::distributions::Distribution;

verus! {

use crate::rng::{rng_index, rng_below};
use crate::vector::VectorChromosome;
use crate::{chrom_wf, ChromView, FitnessEvaluater, POP_LIMIT, SCALE};
use rand::rngs::ThreadRng;

/// The mathematical views of a population, in order.
pub open spec fn views(s: Seq<VectorChromosome>) -> Seq<ChromView> {
    s.map_values(|c: VectorChromosome| c@)
}

/// Every chromosome of the population is well formed.
pub open spec fn all_wf(s: Seq<VectorChromosome>) -> bool {
    forall|i: int| 0 <= i < s.len() ==> chrom_wf(#[trigger] s[i]@)
}

/// The chromosome carries the view of some element of `src`.
pub open spec fn from_some(c: VectorChromosome, src: Seq<VectorChromosome>) -> bool {
    exists|j: int| 0 <= j < src.len() && c@ == (#[trigger] src[j])@
}

/// Every element of `out` carries the view of some element of `src`.
pub open spec fn all_from(out: Seq<VectorChromosome>, src: Seq<VectorChromosome>) -> bool {
    forall|i: int| 0 <= i < out.len() ==> from_some(#[trigger] out[i], src)
}

/// A population carries its own views.
pub proof fn lemma_all_from_refl(s: Seq<VectorChromosome>)
    ensures
        all_from(s, s),
{
    assert forall|i: int| 0 <= i < s.len() implies from_some(#[trigger] s[i], s) by {
        assert(s[i]@ == s[i]@);
    }
}

/// Pointwise equal views carry over.
pub proof fn lemma_all_from_pointwise(a: Seq<VectorChromosome>, b: Seq<VectorChromosome>)
    requires
        a.len() == b.len(),
        forall|i: int| 0 <= i < a.len() ==> (#[trigger] a[i])@ == b[i]@,
    ensures
        all_from(a, b),
{
    assert forall|i: int| 0 <= i < a.len() implies from_some(#[trigger] a[i], b) by {
        assert(a[i]@ == b[i]@);
    }
}

/// The population is sorted by this evaluater, best first.
pub open spec fn sorted_desc_by<FE: FitnessEvaluater<VectorChromosome>>(
    fe: FE,
    s: Seq<VectorChromosome>,
) -> bool {
    forall|i: int, j: int|
        0 <= i < j < s.len() ==> fe.fitness_spec((#[trigger] s[i])@) >= fe.fitness_spec(
            (#[trigger] s[j])@,
        )
}

/// The population is sorted by this evaluater, worst first.
pub open spec fn sorted_asc_by<FE: FitnessEvaluater<VectorChromosome>>(
    fe: FE,
    s: Seq<VectorChromosome>,
) -> bool {
    forall|i: int, j: int|
        0 <= i < j < s.len() ==> fe.fitness_spec((#[trigger] s[i])@) <= fe.fitness_spec(
            (#[trigger] s[j])@,
        )
}

/// Sum of the first `k` weights.
pub open spec fn sum_u64_prefix(s: Seq<u64>, k: int) -> int
    decreases k,
{
    if k <= 0 {
        0
    } else {
        sum_u64_prefix(s, k - 1) + s[k - 1]
    }
}

/// Sum of a weight list.
pub open spec fn sum_u64(s: Seq<u64>) -> int {
    sum_u64_prefix(s, s.len() as int)
}

/// Largest value a linear-ranking weight can take.
pub open spec fn weight_bound() -> int {
    2 * (SCALE as int) * (POP_LIMIT as int)
}

/// Every weight is small enough for the alias sampler at any list length
/// up to `POP_LIMIT`.
pub open spec fn weights_ok(s: Seq<u64>) -> bool {
    forall|i: int| 0 <= i < s.len() ==> (#[trigger] s[i]) as int <= weight_bound()
}

/// The linear-ranking weight of rank `i` (0 is the best rank) in a
/// population of `n`, for ranging value `a` in `SCALE` units: the weight
/// is `a * (n-1) - (2a - 2*SCALE) * i`, a numerator over the common
/// denominator `n * (n-1) * SCALE`. Normalized, rank `i` receives
/// `(1/n) * (a' - (a' - b') * i/(n-1))` with `a' = a/SCALE` and
/// `b' = 2 - a'`, exactly the linear ranking selection rule.
pub open spec fn rank_weight(n: int, a: int, i: int) -> int {
    a * (n - 1) - (2 * a - 2 * (SCALE as int)) * i
}

/// Closed form of the partial weight sums (doubled to stay in integers).
pub proof fn lemma_sum_weights_closed(n: int, a: int, w: Seq<u64>, k: int)
    requires
        0 <= k <= w.len(),
        forall|i: int| 0 <= i < w.len() ==> (#[trigger] w[i]) as int == rank_weight(n, a, i),
    ensures
        2 * sum_u64_prefix(w, k) == 2 * a * (n - 1) * k - (2 * a - 2 * (SCALE as int)) * k * (k
            - 1),
    decreases k,
{
    if k > 0 {
        lemma_sum_weights_closed(n, a, w, k - 1);
        let s_prev = sum_u64_prefix(w, k - 1);
        let wk = rank_weight(n, a, k - 1);
        let sc = SCALE as int;
        assert(2 * (s_prev + wk) == 2 * a * (n - 1) * k - (2 * a - 2 * sc) * k * (k - 1))
            by (nonlinear_arith)
            requires
                2 * s_prev == 2 * a * (n - 1) * (k - 1) - (2 * a - 2 * sc) * (k - 1) * (k - 2),
                wk == a * (n - 1) - (2 * a - 2 * sc) * (k - 1),
        ;
        assert(w[k - 1] as int == wk);
        assert(sum_u64_prefix(w, k) == s_prev + w[k - 1]);
    } else {
        let sc = SCALE as int;
        assert(2 * a * (n - 1) * k - (2 * a - 2 * sc) * k * (k - 1) == 0) by (nonlinear_arith)
            requires
                k == 0,
        ;
    }
}

/// Linear-ranking weight normalization: the `n` weights of a population of
/// `n` sum exactly to the common denominator `n * (n-1) * SCALE`, so the
/// normalized weights sum exactly to one.
pub proof fn lemma_rank_weights_normalized(n: int, a: int, w: Seq<u64>)
    requires
        2 <= n,
        w.len() == n,
        forall|i: int| 0 <= i < w.len() ==> (#[trigger] w[i]) as int == rank_weight(n, a, i),
    ensures
        sum_u64(w) == n * (n - 1) * (SCALE as int),
{
    lemma_sum_weights_closed(n, a, w, n);
    assert(2 * a * (n - 1) * n - (2 * a - 2 * (SCALE as int)) * n * (n - 1) == 2 * (n * (n - 1)
        * (SCALE as int))) by (nonlinear_arith);
}

/// Builds the linear-ranking weights for a sorted population of `n`, best
/// rank first.
pub fn rank_weights(n: usize, rang_value: i64) -> (w: Vec<u64>)
    requires
        2 <= n <= POP_LIMIT,
        SCALE <= rang_value <= 2 * SCALE,
    ensures
        w@.len() == n,
        forall|i: int|
            0 <= i < n ==> (#[trigger] w@[i]) as int == rank_weight(
                n as int,
                rang_value as int,
                i,
            ),
        weights_ok(w@),
        sum_u64(w@) == (n as int) * (n as int - 1) * (SCALE as int),
{
    proof {
        assert((rang_value as int) * ((n - 1) as int) <= 2 * (SCALE as int) * (POP_LIMIT as int))
            by (nonlinear_arith)
            requires
                0 < rang_value as int <= 2 * (SCALE as int),
                0 <= (n - 1) as int <= POP_LIMIT as int,
        ;
    }
    let base: u128 = (rang_value as u128) * ((n - 1) as u128);
    let slope: u128 = (2 * rang_value - 2 * SCALE) as u128;
    let mut w: Vec<u64> = Vec::new();
    let mut i: usize = 0;
    while i < n
        invariant
            0 <= i <= n,
            2 <= n <= POP_LIMIT,
            SCALE <= rang_value <= 2 * SCALE,
            base as int == (rang_value as int) * ((n - 1) as int),
            base as int <= weight_bound(),
            slope as int == 2 * (rang_value as int) - 2 * (SCALE as int),
            w@.len() == i,
            forall|j: int|
                0 <= j < i ==> (#[trigger] w@[j]) as int == rank_weight(
                    n as int,
                    rang_value as int,
                    j,
                ),
        decreases n - i,
    {
        proof {
            assert(slope as int * (i as int) <= base as int) by (nonlinear_arith)
                requires
                    0 <= slope as int,
                    slope as int <= rang_value as int,
                    0 <= i as int <= (n - 1) as int,
                    base as int == (rang_value as int) * ((n - 1) as int),
            ;
        }
        let wi: u128 = base - slope * (i as u128);
        w.push(wi as u64);
        i = i + 1;
    }
    proof {
        lemma_rank_weights_normalized(n as int, rang_value as int, w@);
    }
    w
}

/// A weighted index sampler: rand_distr's alias table over a fixed list
/// of integer weights. Verus cannot declare rand_distr's generic table
/// type directly, so it is held opaquely here.
#[verifier::external_body]
pub struct AliasTable {
    inner: rand_distr::weighted_alias::WeightedAliasIndex<u64>,
}

/// How many weights an alias table was built over.
pub uninterp spec fn alias_len(d: AliasTable) -> nat;

/// Relies on rand_distr::weighted_alias::WeightedAliasIndex::new: with a
/// nonempty weight list of at most u32::MAX entries, every weight at most
/// u64::MAX divided by the length, and a positive sum, the constructor
/// returns Ok, so the unwrap cannot panic.
#[verifier::external_body]
pub(crate) fn alias_new(weights: &Vec<u64>) -> (d: AliasTable)
    requires
        1 <= weights@.len() <= u32::MAX as usize,
        forall|i: int|
            0 <= i < weights@.len() ==> (#[trigger] weights@[i]) as int * (weights@.len() as int)
                <= u64::MAX as int,
        sum_u64(weights@) > 0,
    ensures
        alias_len(d) == weights@.len(),
{
    AliasTable { inner: rand_distr::weighted_alias::WeightedAliasIndex::new(weights.clone()).unwrap() }
}

/// Relies on Distribution::sample of WeightedAliasIndex: the sampled value
/// is the index of one of the weights the table was built over.
#[verifier::external_body]
pub(crate) fn alias_sample(d: &AliasTable, rng: &mut ThreadRng) -> (r: usize)
    ensures
        r < alias_len(*d),
{
    d.inner.sample(rng)
}

/// Draws one chromosome from the pool, each slot with probability
/// proportional to its weight (uniformly once all weights are zero), and
/// removes the drawn slot from both the pool and the weight list.
pub(crate) fn draw_weighted(
    pool: &mut Vec<VectorChromosome>,
    weights: &mut Vec<u64>,
    rng: &mut ThreadRng,
) -> (r: (VectorChromosome, usize))
    requires
        old(pool)@.len() == old(weights)@.len(),
        1 <= old(pool)@.len() <= POP_LIMIT,
        weights_ok(old(weights)@),
    ensures
        final(pool)@.len() == old(pool)@.len() - 1,
        final(weights)@.len() == old(weights)@.len() - 1,
        weights_ok(final(weights)@),
        r.1 < old(pool)@.len(),
        r.0 == old(pool)@[r.1 as int],
        final(pool)@ == old(pool)@.remove(r.1 as int),
        final(weights)@ == old(weights)@.remove(r.1 as int),
{
    let n = weights.len();
    let mut total: u64 = 0;
    let mut i: usize = 0;
    while i < n
        invariant
            0 <= i <= n,
            n == weights@.len() <= POP_LIMIT,
            weights_ok(weights@),
            total as int == sum_u64_prefix(weights@, i as int),
            total as int <= (i as int) * weight_bound(),
        decreases n - i,
    {
        proof {
            assert((i as int) * weight_bound() + weight_bound() == (i as int + 1) * weight_bound())
                by (nonlinear_arith);
            assert((i as int + 1) * weight_bound() <= (POP_LIMIT as int) * weight_bound())
                by (nonlinear_arith)
                requires
                    i as int + 1 <= POP_LIMIT as int,
            ;
            assert((POP_LIMIT as int) * weight_bound() < u64::MAX as int) by (nonlinear_arith);
        }
        total = total + weights[i];
        i = i + 1;
    }
    let idx: usize = if total > 0 {
        proof {
            assert forall|k: int| 0 <= k < weights@.len() implies (#[trigger] weights@[k]) as int
                * (weights@.len() as int) <= u64::MAX as int by {
                assert(weights@[k] as int * (weights@.len() as int) <= weight_bound() * (
                POP_LIMIT as int)) by (nonlinear_arith)
                    requires
                        0 <= weights@[k] as int <= weight_bound(),
                        0 <= weights@.len() as int <= POP_LIMIT as int,
                ;
                assert(weight_bound() * (POP_LIMIT as int) <= u64::MAX as int)
                    by (nonlinear_arith);
            }
        }
        let d = alias_new(weights);
        alias_sample(&d, rng)
    } else {
        rng_index(rng, pool.len())
    };
    let picked = pool.remove(idx);
    let _ = weights.remove(idx);
    (picked, idx)
}

/// Well-formedness is a property of views, so it carries over.
pub proof fn lemma_all_from_wf(out: Seq<VectorChromosome>, src: Seq<VectorChromosome>)
    requires
        all_from(out, src),
        all_wf(src),
    ensures
        all_wf(out),
{
    assert forall|i: int| 0 <= i < out.len() implies chrom_wf(#[trigger] out[i]@) by {
        let j = choose|j: int| 0 <= j < src.len() && out[i]@ == src[j]@;
        assert(chrom_wf(src[j]@));
    }
}

/// Every chromosome of the population lives in the box `[lo, hi)`.
pub open spec fn boxed_by(s: Seq<VectorChromosome>, lo: Seq<i64>, hi: Seq<i64>) -> bool {
    forall|i: int| 0 <= i < s.len() ==> (#[trigger] s[i])@.lo == lo && s[i]@.hi == hi
}

/// The bounding box is a property of views, so it carries over.
pub proof fn lemma_all_from_boxed(
    out: Seq<VectorChromosome>,
    src: Seq<VectorChromosome>,
    lo: Seq<i64>,
    hi: Seq<i64>,
)
    requires
        all_from(out, src),
        boxed_by(src, lo, hi),
    ensures
        boxed_by(out, lo, hi),
{
    assert forall|i: int| 0 <= i < out.len() implies (#[trigger] out[i])@.lo == lo && out[i]@.hi
        == hi by {
        let j = choose|j: int| 0 <= j < src.len() && out[i]@ == src[j]@;
        assert(src[j]@.lo == lo && src[j]@.hi == hi);
    }
}

/// Two populations holding the same chromosomes carry each other's views.
pub proof fn lemma_multiset_eq_all_from(a: Seq<VectorChromosome>, b: Seq<VectorChromosome>)
    requires
        a.to_multiset() == b.to_multiset(),
    ensures
        all_from(a, b),
{
    assert forall|i: int| 0 <= i < a.len() implies from_some(#[trigger] a[i], b) by {
        vstd::seq_lib::to_multiset_contains(a, a[i]);
        vstd::seq_lib::to_multiset_contains(b, a[i]);
        assert(a.contains(a[i]));
        assert(b.to_multiset().count(a[i]) > 0);
        assert(b.contains(a[i]));
        let j = choose|j: int| 0 <= j < b.len() && b[j] == a[i];
        assert(a[i]@ == b[j]@);
    }
}

/// Appending an element with an origin keeps every element's origin.
pub proof fn lemma_all_from_push(
    s: Seq<VectorChromosome>,
    c: VectorChromosome,
    src: Seq<VectorChromosome>,
)
    requires
        all_from(s, src),
        from_some(c, src),
    ensures
        all_from(s.push(c), src),
{
    let post = s.push(c);
    assert forall|t: int| 0 <= t < post.len() implies from_some(#[trigger] post[t], src) by {
        if t < s.len() {
            assert(post[t] == s[t]);
        } else {
            assert(post[t] == c);
        }
    }
}

/// Moving one slot from the pool to the output keeps the combined
/// contents: what selection hands out, it took from the pool.
pub proof fn lemma_transfer_keeps_contents(
    pre_pool: Seq<VectorChromosome>,
    post_pool: Seq<VectorChromosome>,
    pre_out: Seq<VectorChromosome>,
    post_out: Seq<VectorChromosome>,
    idx: int,
)
    requires
        0 <= idx < pre_pool.len(),
        post_pool == pre_pool.remove(idx),
        post_out == pre_out.push(pre_pool[idx]),
    ensures
        views(post_out).to_multiset().add(views(post_pool).to_multiset()) == views(
            pre_out,
        ).to_multiset().add(views(pre_pool).to_multiset()),
{
    let c = pre_pool[idx];
    assert(views(pre_pool)[idx] == c@);
    assert(views(pre_pool).contains(c@));
    assert(views(pre_pool).to_multiset().count(c@) > 0) by {
        vstd::seq_lib::to_multiset_contains(views(pre_pool), c@);
    }
    assert(views(post_pool) =~= views(pre_pool).remove(idx));
    assert(views(pre_pool).remove(idx).to_multiset() == views(pre_pool).to_multiset().remove(c@))
        by {
        vstd::seq_lib::to_multiset_remove(views(pre_pool), idx);
    }
    assert(views(post_out) =~= views(pre_out).push(c@));
    assert(views(pre_out).push(c@).to_multiset() =~= views(pre_out).to_multiset().insert(c@)) by {
        vstd::seq_lib::to_multiset_build(views(pre_out), c@);
    }
    assert(views(post_out).to_multiset().add(views(post_pool).to_multiset()) =~= views(
        pre_out,
    ).to_multiset().add(views(pre_pool).to_multiset()));
}

/// A population whose contents joined with a rest give the whole holds a
/// part of the whole.
pub proof fn lemma_part_of_whole(
    part: Seq<VectorChromosome>,
    rest: Seq<VectorChromosome>,
    whole: Seq<VectorChromosome>,
)
    requires
        views(part).to_multiset().add(views(rest).to_multiset()) == views(whole).to_multiset(),
    ensures
        views(part).to_multiset().subset_of(views(whole).to_multiset()),
{
}

/// Two populations holding the same chromosomes hold the same views.
pub proof fn lemma_views_multiset_eq(a: Seq<VectorChromosome>, b: Seq<VectorChromosome>)
    requires
        a.to_multiset() == b.to_multiset(),
    ensures
        views(a).to_multiset() == views(b).to_multiset(),
    decreases a.len(),
{
    broadcast use vstd::seq_lib::group_to_multiset_ensures;

    if a.len() == 0 {
        assert(a.to_multiset().len() == 0);
        assert(b.to_multiset().len() == 0);
        assert(b.len() == 0);
        assert(views(a) =~= views(b));
    } else {
        let x = a.last();
        assert(a.contains(x));
        assert(b.to_multiset().count(x) > 0);
        assert(b.contains(x));
        let i = choose|i: int| 0 <= i < b.len() && b[i] == x;
        let a2 = a.drop_last();
        let b2 = b.remove(i);
        assert(a2.push(x) =~= a);
        assert(a2.push(x).to_multiset() =~= a2.to_multiset().insert(x));
        assert(b2.to_multiset() == b.to_multiset().remove(b[i]));
        assert(a2.to_multiset() =~= b2.to_multiset()) by {
            assert(a.to_multiset() =~= a2.to_multiset().insert(x));
        }
        lemma_views_multiset_eq(a2, b2);
        assert(views(a) =~= views(a2).push(x@));
        assert(views(a2).push(x@).to_multiset() =~= views(a2).to_multiset().insert(x@));
        assert(views(b2) =~= views(b).remove(i));
        assert(views(b).remove(i).to_multiset() =~= views(b).to_multiset().remove(views(b)[i]));
        assert(views(b)[i] == x@);
        assert(views(b).contains(x@));
        assert(views(b).to_multiset().count(x@) > 0);
        assert(views(a).to_multiset() =~= views(b).to_multiset());
    }
}

/// Swapping one slot out removes exactly that chromosome's view from the
/// population's contents.
pub proof fn lemma_swap_views_multiset(
    pre: Seq<VectorChromosome>,
    post: Seq<VectorChromosome>,
    at: int,
)
    requires
        0 <= at < pre.len(),
        post == pre.update(at, pre.last()).drop_last(),
    ensures
        views(post).to_multiset() == views(pre).to_multiset().remove(pre[at]@),
        views(pre).to_multiset().count(pre[at]@) > 0,
{
    broadcast use vstd::seq_lib::group_to_multiset_ensures;
    broadcast use vstd::multiset::group_multiset_axioms;

    let n = pre.len() as int;
    let lastv = pre.last()@;
    let upd = pre.update(at, pre.last());
    assert(views(pre)[at] == pre[at]@);
    assert(views(pre).contains(pre[at]@));
    assert(views(pre).to_multiset().count(pre[at]@) > 0);
    assert(views(upd) =~= views(pre).update(at, lastv));
    assert(views(pre).update(at, lastv).to_multiset() =~= views(pre).to_multiset().remove(
        views(pre)[at],
    ).insert(lastv)) by {
        vstd::seq_lib::to_multiset_update(views(pre), at, lastv);
    }
    assert(views(post) =~= views(upd).remove(n - 1));
    assert(views(upd).remove(n - 1).to_multiset() =~= views(upd).to_multiset().remove(
        views(upd)[n - 1],
    ));
    assert(views(upd)[n - 1] == lastv);
    assert(views(post).to_multiset() =~= views(pre).to_multiset().remove(pre[at]@).insert(
        lastv,
    ).remove(lastv));
    assert(views(pre).to_multiset().remove(pre[at]@).insert(lastv).remove(lastv) =~= views(
        pre,
    ).to_multiset().remove(pre[at]@));
}

/// Removing one slot keeps every element's origin.
pub proof fn lemma_all_from_remove(pre: Seq<VectorChromosome>, j: int, src: Seq<VectorChromosome>)
    requires
        all_from(pre, src),
        0 <= j < pre.len(),
    ensures
        all_from(pre.remove(j), src),
{
    let post = pre.remove(j);
    assert forall|t: int| 0 <= t < post.len() implies from_some(#[trigger] post[t], src) by {
        if t < j {
            assert(post[t] == pre[t]);
        } else {
            assert(post[t] == pre[t + 1]);
        }
    }
}

/// Copies a population; the copy carries the same views in the same order.
pub fn clone_population(v: &Vec<VectorChromosome>) -> (r: Vec<VectorChromosome>)
    ensures
        r@.len() == v@.len(),
        forall|i: int| 0 <= i < v@.len() ==> (#[trigger] r@[i])@ == v@[i]@,
{
    let mut r: Vec<VectorChromosome> = Vec::new();
    let mut i: usize = 0;
    while i < v.len()
        invariant
            0 <= i <= v@.len(),
            r@.len() == i,
            forall|j: int| 0 <= j < i ==> (#[trigger] r@[j])@ == v@[j]@,
        decreases v@.len() - i,
    {
        r.push(v[i].clone());
        i = i + 1;
    }
    r
}

/// Sorts a population by fitness, best first when `descending` is set,
/// worst first otherwise. The result holds exactly the input chromosomes.
pub fn sort_by_fitness<FE: FitnessEvaluater<VectorChromosome>>(
    pop: Vec<VectorChromosome>,
    fe: &FE,
    descending: bool,
) -> (out: Vec<VectorChromosome>)
    requires
        all_wf(pop@),
    ensures
        out@.len() == pop@.len(),
        views(out@).to_multiset() == views(pop@).to_multiset(),
        all_wf(out@),
        all_from(out@, pop@),
        descending ==> sorted_desc_by(*fe, out@),
        !descending ==> sorted_asc_by(*fe, out@),
{
    broadcast use vstd::seq_lib::group_to_multiset_ensures;

    let mut remaining = pop;
    let mut out: Vec<VectorChromosome> = Vec::new();
    let ghost orig = remaining@;
    proof {
        lemma_all_from_refl(orig);
        assert(views(out@) =~= Seq::<ChromView>::empty());
        assert(views(out@).to_multiset().add(views(remaining@).to_multiset()) =~= views(
            orig,
        ).to_multiset());
    }
    while remaining.len() > 0
        invariant
            all_wf(remaining@),
            all_wf(out@),
            all_from(remaining@, pop@),
            all_from(out@, pop@),
            orig == pop@,
            out@.len() + remaining@.len() == orig.len(),
            views(out@).to_multiset().add(views(remaining@).to_multiset()) == views(
                orig,
            ).to_multiset(),
            descending ==> sorted_desc_by(*fe, out@),
            !descending ==> sorted_asc_by(*fe, out@),
            forall|x: int, y: int|
                0 <= x < out@.len() && 0 <= y < remaining@.len() ==> if descending {
                    fe.fitness_spec((#[trigger] out@[x])@) >= fe.fitness_spec(
                        (#[trigger] remaining@[y])@,
                    )
                } else {
                    fe.fitness_spec(out@[x]@) <= fe.fitness_spec(remaining@[y]@)
                },
        decreases remaining@.len(),
    {
        let mut best: usize = 0;
        let mut best_score: i64 = fe.fitness(&remaining[0]);
        let mut i: usize = 1;
        while i < remaining.len()
            invariant
                0 < remaining@.len(),
                1 <= i <= remaining@.len(),
                best < i,
                all_wf(remaining@),
                best_score as int == fe.fitness_spec(remaining@[best as int]@),
                forall|j: int|
                    0 <= j < i ==> if descending {
                        fe.fitness_spec((#[trigger] remaining@[j])@) <= best_score as int
                    } else {
                        fe.fitness_spec(remaining@[j]@) >= best_score as int
                    },
            decreases remaining@.len() - i,
        {
            let score = fe.fitness(&remaining[i]);
            let better = if descending {
                score > best_score
            } else {
                score < best_score
            };
            if better {
                best = i;
                best_score = score;
            }
            i = i + 1;
        }
        let ghost pre = remaining@;
        let ghost preout = out@;
        let picked = remaining.remove(best);
        out.push(picked);
        proof {
            assert(views(pre)[best as int] == pre[best as int]@);
            assert(views(pre).contains(pre[best as int]@));
            assert(views(pre).to_multiset().count(pre[best as int]@) > 0) by {
                vstd::seq_lib::to_multiset_contains(views(pre), pre[best as int]@);
            }
            assert(views(pre.remove(best as int)) =~= views(pre).remove(best as int));
            assert(views(pre).remove(best as int).to_multiset() == views(pre).to_multiset().remove(
                pre[best as int]@,
            )) by {
                vstd::seq_lib::to_multiset_remove(views(pre), best as int);
            }
            assert(views(out@) =~= views(preout).push(picked@));
            assert(views(preout).push(picked@).to_multiset() =~= views(preout).to_multiset()
                .insert(picked@)) by {
                vstd::seq_lib::to_multiset_build(views(preout), picked@);
            }
            assert(views(out@).to_multiset() =~= views(preout).to_multiset().insert(picked@));
            assert(views(remaining@).to_multiset() =~= views(pre).to_multiset().remove(
                pre[best as int]@,
            ));
            assert(views(out@).to_multiset().add(views(remaining@).to_multiset()) =~= views(
                orig,
            ).to_multiset());
            assert forall|t: int| 0 <= t < remaining@.len() implies from_some(
                #[trigger] remaining@[t],
                pop@,
            ) by {
                if t < best {
                    assert(remaining@[t] == pre[t]);
                } else {
                    assert(remaining@[t] == pre[t + 1]);
                }
            }
            assert(from_some(picked, pop@));
        }
    }
    proof {
        assert(views(remaining@) =~= Seq::<ChromView>::empty());
        assert(views(remaining@).to_multiset() =~= Multiset::<ChromView>::empty());
        assert(views(out@).to_multiset() =~= views(orig).to_multiset());
    }
    out
}

/// The `count` best chromosomes of the population under this evaluater,
/// best first: nothing left behind scores above the worst returned one.
pub fn top_chromosomes<FE: FitnessEvaluater<VectorChromosome>>(
    pop: &Vec<VectorChromosome>,
    count: usize,
    fe: &FE,
) -> (out: Vec<VectorChromosome>)
    requires
        all_wf(pop@),
        0 < count < pop@.len(),
    ensures
        out@.len() == count,
        all_wf(out@),
        all_from(out@, pop@),
        sorted_desc_by(*fe, out@),
        views(out@).to_multiset().subset_of(views(pop@).to_multiset()),
        forall|y: ChromView|
            #[trigger] views(pop@).to_multiset().sub(views(out@).to_multiset()).count(y) > 0
                ==> fe.fitness_spec(y) <= fe.fitness_spec(out@[count - 1]@),
{
    broadcast use vstd::seq_lib::group_to_multiset_ensures;

    let copy = clone_population(pop);
    proof {
        assert(views(copy@) =~= views(pop@));
        assert(all_wf(copy@));
        lemma_all_from_pointwise(copy@, pop@);
    }
    let ghost copy_view = copy@;
    let mut sorted = sort_by_fitness(copy, fe, true);
    let ghost full = sorted@;
    sorted.truncate(count);
    proof {
        lemma_all_from_trans(full, copy_view, pop@);
        assert forall|i: int| 0 <= i < sorted@.len() implies from_some(
            #[trigger] sorted@[i],
            pop@,
        ) && chrom_wf(sorted@[i]@) by {
            assert(sorted@[i] == full[i]);
        }
        let pre = views(full).take(count as int);
        let post = views(full).skip(count as int);
        assert(views(sorted@) =~= pre);
        assert(pre + post =~= views(full));
        vstd::seq_lib::lemma_multiset_commutative(pre, post);
        assert forall|y: ChromView|
            #[trigger] views(pop@).to_multiset().sub(views(sorted@).to_multiset()).count(y)
                > 0 implies fe.fitness_spec(y) <= fe.fitness_spec(sorted@[count - 1]@) by {
            assert(views(pop@).to_multiset().sub(views(sorted@).to_multiset()) =~= post
                .to_multiset());
            assert(post.to_multiset().count(y) > 0);
            assert(post.contains(y));
            let k = choose|k: int| 0 <= k < post.len() && post[k] == y;
            assert(full[count + k]@ == y);
            assert(fe.fitness_spec(full[count + k]@) <= fe.fitness_spec(full[count - 1]@));
        }
        assert(views(sorted@).to_multiset().subset_of(views(pop@).to_multiset())) by {
            assert(views(pop@).to_multiset() =~= views(sorted@).to_multiset().add(
                post.to_multiset(),
            ));
        }
    }
    sorted
}

/// Exponential-rank selection: the pool is sorted worst first, and each of
/// the `draws.len()` output slots copies the chromosome whose rank is the
/// (pre-floored) exponential draw for that slot, clamped into the pool.
/// Equal draws give equal output slots; the pool is kept, nothing removed.
pub fn exponential_rank_select<FE: FitnessEvaluater<VectorChromosome>>(
    pop: Vec<VectorChromosome>,
    fe: &FE,
    draws: &Vec<u64>,
) -> (out: Vec<VectorChromosome>)
    requires
        all_wf(pop@),
        pop@.len() >= 1,
    ensures
        out@.len() == draws@.len(),
        all_wf(out@),
        all_from(out@, pop@),
        forall|k1: int, k2: int|
            0 <= k1 < draws@.len() && 0 <= k2 < draws@.len() && draws@[k1] == draws@[k2]
                ==> (#[trigger] out@[k1])@ == (#[trigger] out@[k2])@,
        exists|s: Seq<VectorChromosome>|
            #![trigger sorted_asc_by(*fe, s)]
            sorted_asc_by(*fe, s) && s.len() == pop@.len() && views(s).to_multiset() == views(
                pop@,
            ).to_multiset() && forall|k: int|
                0 <= k < draws@.len() ==> (#[trigger] out@[k])@ == s[clamp_rank(
                    draws@[k],
                    s.len() as int,
                )]@,
{
    let ghost input = pop@;
    let sorted = sort_by_fitness(pop, fe, false);
    let ghost src = sorted@;
    let n = sorted.len();
    let mut out: Vec<VectorChromosome> = Vec::new();
    let mut k: usize = 0;
    while k < draws.len()
        invariant
            0 <= k <= draws@.len(),
            out@.len() == k,
            n == src.len() >= 1,
            sorted@ == src,
            all_wf(src),
            all_wf(out@),
            forall|j: int|
                0 <= j < k ==> (#[trigger] out@[j])@ == src[clamp_rank(draws@[j], n as int)]@,
        decreases draws@.len() - k,
    {
        let d: u64 = draws[k];
        let idx: usize = if d >= n as u64 {
            n - 1
        } else {
            d as usize
        };
        proof {
            assert(idx as int == clamp_rank(d, n as int));
        }
        out.push(sorted[idx].clone());
        k = k + 1;
    }
    proof {
        assert forall|i: int| 0 <= i < out@.len() implies from_some(#[trigger] out@[i], src) by {
            let r = clamp_rank(draws@[i], n as int);
            assert(out@[i]@ == src[r]@);
        }
        lemma_all_from_trans(out@, src, input);
        assert(sorted_asc_by(*fe, src) && src.len() == input.len() && views(src).to_multiset()
            == views(input).to_multiset() && forall|k: int|
            0 <= k < draws@.len() ==> (#[trigger] out@[k])@ == src[clamp_rank(
                draws@[k],
                src.len() as int,
            )]@);
    }
    out
}

/// Carrying views over is transitive.
pub proof fn lemma_all_from_trans(
    a: Seq<VectorChromosome>,
    b: Seq<VectorChromosome>,
    c: Seq<VectorChromosome>,
)
    requires
        all_from(a, b),
        all_from(b, c),
    ensures
        all_from(a, c),
{
    assert forall|i: int| 0 <= i < a.len() implies exists|j: int|
        0 <= j < c.len() && (#[trigger] a[i])@ == c[j]@ by {
        let jb = choose|jb: int| 0 <= jb < b.len() && a[i]@ == b[jb]@;
        let jc = choose|jc: int| 0 <= jc < c.len() && b[jb]@ == c[jc]@;
        assert(0 <= jc < c.len() && a[i]@ == c[jc]@);
    }
}

/// The rank an exponential draw selects in a pool of `n`: the draw itself
/// when it is inside the pool, the last (best) rank otherwise.
pub open spec fn clamp_rank(d: u64, n: int) -> int {
    if d as int >= n {
        n - 1
    } else {
        d as int
    }
}

} // verus!
