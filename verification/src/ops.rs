use vstd::prelude::*;

verus! {

use crate::rng::{rng_below, rng_index, shuffle_vec};
use crate::select::{all_wf, boxed_by, lemma_all_from_boxed, lemma_all_from_wf,
    lemma_multiset_eq_all_from, lemma_swap_views_multiset, lemma_views_multiset_eq, views};
use crate::vector::VectorChromosome;
use crate::{chrom_wf, is_jitter, is_reset, ChromView, Chromosome, SCALE};
use rand::rngs::ThreadRng;
use vstd::multiset::Multiset;

/// Crossover over a whole population: shuffles it, then repeatedly pairs
/// the first remaining chromosome with a partner inside the crossing
/// radius (a random partner when none is in reach) and replaces the pair
/// by its four crossover outputs. An orphan, if any, is dropped, so the
/// result holds four chromosomes per consumed pair.
pub(crate) fn cross_population(
    pool: Vec<VectorChromosome>,
    rng: &mut ThreadRng,
    search_radius_sq: u128,
    cross_allow_radius_sq: u128,
    lo: Ghost<Seq<i64>>,
    hi: Ghost<Seq<i64>>,
) -> (out: Vec<VectorChromosome>)
    requires
        all_wf(pool@),
        boxed_by(pool@, lo@, hi@),
    ensures
        all_wf(out@),
        boxed_by(out@, lo@, hi@),
        out@.len() == 4 * (pool@.len() as int / 2),
        pool@.len() % 2 == 0 ==> views(pool@).to_multiset().subset_of(
            views(out@).to_multiset(),
        ),
    {
        broadcast use vstd::seq_lib::group_to_multiset_ensures;
        broadcast use vstd::multiset::group_multiset_axioms;

        let mut pool = pool;
        let ghost orig = pool@;
        shuffle_vec(rng, &mut pool);
        proof {
            lemma_multiset_eq_all_from(pool@, orig);
            lemma_all_from_wf(pool@, orig);
            lemma_all_from_boxed(pool@, orig, lo@, hi@);
            lemma_views_multiset_eq(pool@, orig);
        }
        let ghost whole = views(pool@).to_multiset();
        let n = pool.len();
        let mut new_pop: Vec<VectorChromosome> = Vec::new();
        proof {
            assert(views(new_pop@) =~= Seq::<ChromView>::empty());
            assert(views(new_pop@).to_multiset() =~= Multiset::<ChromView>::empty());
        }
        while pool.len() > 1
            invariant
                all_wf(pool@),
                boxed_by(pool@, lo@, hi@),
                all_wf(new_pop@),
                boxed_by(new_pop@, lo@, hi@),
                new_pop@.len() == 4 * ((n - pool@.len()) as int / 2),
                (n - pool@.len()) % 2 == 0,
                pool@.len() <= n,
                whole == views(orig).to_multiset(),
                whole.subset_of(
                    views(new_pop@).to_multiset().add(views(pool@).to_multiset()),
                ),
            decreases pool@.len(),
        {
            let ghost pre = pool@;
            let first = swap_remove_front(&mut pool);
            proof {
                lemma_swap_front_keeps(pre, pool@, lo@, hi@);
                lemma_swap_views_multiset(pre, pool@, 0);
            }
            // indexes of the chromosomes inside the search radius
            let mut in_radius: Vec<usize> = Vec::new();
            let mut i: usize = 0;
            while i < pool.len()
                invariant
                    0 <= i <= pool@.len(),
                    all_wf(pool@),
                    boxed_by(pool@, lo@, hi@),
                    chrom_wf(first@),
                    first@.lo == lo@,
                    first@.hi == hi@,
                                        forall|t: int| 0 <= t < in_radius@.len() ==> (#[trigger] in_radius@[t]) < pool@.len(),
                decreases pool@.len() - i,
            {
                let d = first.distance_sq(&pool[i]);
                if d <= search_radius_sq {
                    in_radius.push(i);
                }
                i = i + 1;
            }
            let ghost pre_rad = in_radius@;
            shuffle_vec(rng, &mut in_radius);
            proof {
                assert forall|t: int| 0 <= t < in_radius@.len() implies (#[trigger] in_radius@[t])
                    < pool@.len() by {
                    vstd::seq_lib::to_multiset_contains(in_radius@, in_radius@[t]);
                    vstd::seq_lib::to_multiset_contains(pre_rad, in_radius@[t]);
                    assert(in_radius@.contains(in_radius@[t]));
                    assert(pre_rad.to_multiset().count(in_radius@[t]) > 0);
                    assert(pre_rad.contains(in_radius@[t]));
                    let j = choose|j: int| 0 <= j < pre_rad.len() && pre_rad[j] == in_radius@[t];
                    assert(pre_rad[j] < pool@.len());
                }
            }
            // the first shuffled candidate inside the crossing radius
            let mut found: bool = false;
            let mut second_id: usize = 0;
            let mut j: usize = 0;
            while j < in_radius.len() && !found
                invariant
                    0 <= j <= in_radius@.len(),
                    all_wf(pool@),
                    boxed_by(pool@, lo@, hi@),
                    chrom_wf(first@),
                    first@.lo == lo@,
                    first@.hi == hi@,
                                        forall|t: int| 0 <= t < in_radius@.len() ==> (#[trigger] in_radius@[t]) < pool@.len(),
                    found ==> second_id < pool@.len(),
                decreases in_radius@.len() - j, !found as int,
            {
                let cand = in_radius[j];
                let d = first.distance_sq(&pool[cand]);
                if d <= cross_allow_radius_sq {
                    found = true;
                    second_id = cand;
                }
                j = j + 1;
            }
            if !found {
                // fall back to a random partner from the whole pool
                second_id = rng_index(rng, pool.len());
            }
            let ghost mid = pool@;
            let second = pool.swap_remove(second_id);
            proof {
                lemma_swap_any_keeps(mid, pool@, second_id as int, lo@, hi@);
                lemma_swap_views_multiset(mid, pool@, second_id as int);
            }
            let ghost fv = first@;
            let ghost sv = second@;
            let children = first.cross(second, rng);
            let ghost pre_new = new_pop@;
            let mut c = children;
            new_pop.append(&mut c);
            proof {
                assert(new_pop@ =~= pre_new + children@);
                assert forall|t: int| 0 <= t < new_pop@.len() implies chrom_wf(
                    #[trigger] new_pop@[t]@,
                ) && new_pop@[t]@.lo == lo@ && new_pop@[t]@.hi == hi@ by {
                    if t < pre_new.len() {
                        assert(new_pop@[t] == pre_new[t]);
                    } else {
                        assert(new_pop@[t] == children@[t - pre_new.len()]);
                    }
                }
                // the two parents went from the pool into the output
                let cviews = views(children@);
                assert(views(new_pop@) =~= views(pre_new) + cviews);
                vstd::seq_lib::lemma_multiset_commutative(views(pre_new), cviews);
                assert(cviews[2] == fv && cviews[3] == sv);
                assert(cviews.contains(fv));
                vstd::seq_lib::to_multiset_contains(cviews, fv);
                assert(cviews.to_multiset().count(fv) >= 1);
                if fv == sv {
                    vstd::seq_lib::to_multiset_remove(cviews, 3);
                    assert(cviews.remove(3).to_multiset() == cviews.to_multiset().remove(sv));
                    assert(cviews.remove(3)[2] == fv);
                    assert(cviews.remove(3).contains(fv));
                    vstd::seq_lib::to_multiset_contains(cviews.remove(3), fv);
                    assert(cviews.to_multiset().remove(sv).count(fv) > 0);
                    assert(cviews.to_multiset().count(fv) >= 2);
                } else {
                    assert(cviews.contains(sv));
                    vstd::seq_lib::to_multiset_contains(cviews, sv);
                    assert(cviews.to_multiset().count(sv) >= 1);
                }
                lemma_cross_step(
                    whole,
                    views(pre_new).to_multiset(),
                    views(pre).to_multiset(),
                    cviews.to_multiset(),
                    fv,
                    sv,
                );
                assert(views(pool@).to_multiset() == views(pre).to_multiset().remove(fv).remove(
                    sv,
                ));
                assert(views(new_pop@).to_multiset() == views(pre_new).to_multiset().add(
                    cviews.to_multiset(),
                ));
            }
        }
        proof {
            assert(new_pop@.len() == 4 * (n as int / 2));
            if orig.len() % 2 == 0 {
                assert(pool@.len() == 0);
                assert(views(pool@) =~= Seq::<ChromView>::empty());
                assert(views(pool@).to_multiset() =~= Multiset::<ChromView>::empty());
                assert forall|y: ChromView| whole.count(y) <= views(
                    new_pop@,
                ).to_multiset().count(y) by {
                    assert(whole.count(y) <= views(new_pop@).to_multiset().add(
                        views(pool@).to_multiset(),
                    ).count(y));
                }
            }
        }
        new_pop
    }


/// One crossover step moves the two parents from the pool into the
/// output (among the four children), so what the shuffled pool held is
/// still held by the output and the rest of the pool together.
proof fn lemma_cross_step(
    s: Multiset<ChromView>,
    n1: Multiset<ChromView>,
    p1: Multiset<ChromView>,
    c: Multiset<ChromView>,
    f: ChromView,
    sec: ChromView,
)
    requires
        s.subset_of(n1.add(p1)),
        p1.count(f) > 0,
        p1.remove(f).count(sec) > 0,
        c.count(f) >= 1,
        f == sec ==> c.count(f) >= 2,
        f != sec ==> c.count(sec) >= 1,
    ensures
        s.subset_of(n1.add(c).add(p1.remove(f).remove(sec))),
{
    broadcast use vstd::multiset::group_multiset_axioms;

    assert forall|y: ChromView| s.count(y) <= n1.add(c).add(
        p1.remove(f).remove(sec),
    ).count(y) by {
        if y == f && y == sec {
            assert(p1.remove(f).remove(sec).count(y) + 2 <= p1.count(y) + c.count(y));
        } else if y == f || y == sec {
            assert(p1.remove(f).remove(sec).count(y) + 1 <= p1.count(y) + c.count(y));
        } else {
            assert(p1.remove(f).remove(sec).count(y) == p1.count(y));
        }
    }
}

/// Mutation over a whole population: each chromosome is independently
/// mutated with probability `mutation_chance` out of `SCALE` and is
/// otherwise passed through unchanged. One vector of jitter noise per
/// population slot.
pub(crate) fn mutate_population(
    pool: Vec<VectorChromosome>,
    rng: &mut ThreadRng,
    mutation_chance: i64,
    noise: &Vec<Vec<i64>>,
    lo: Ghost<Seq<i64>>,
    hi: Ghost<Seq<i64>>,
) -> (out: Vec<VectorChromosome>)
    requires
        all_wf(pool@),
        boxed_by(pool@, lo@, hi@),
        0 <= mutation_chance <= SCALE,
        noise@.len() >= pool@.len(),
        forall|k: int| 0 <= k < pool@.len() ==> (#[trigger] noise@[k])@.len() == lo@.len(),
    ensures
        all_wf(out@),
        boxed_by(out@, lo@, hi@),
        out@.len() == pool@.len(),
        forall|k: int|
            0 <= k < pool@.len() ==> (#[trigger] out@[k])@ == pool@[k]@ || is_reset(out@[k]@)
                || is_jitter(pool@[k]@, out@[k]@, noise@[k]@),
    {
        let mut pool = pool;
        let ghost orig = pool@;
        let total: usize = pool.len();
        let mut out: Vec<VectorChromosome> = Vec::new();
        let mut k: usize = 0;
        while pool.len() > 0
            invariant
                                k == out@.len(),
                k + pool@.len() == orig.len(),
                orig.len() == total as int,
                forall|t: int| 0 <= t < pool@.len() ==> pool@[t] == orig[k + t],
                noise@.len() >= orig.len(),
                forall|t: int|
                    0 <= t < orig.len() ==> (#[trigger] noise@[t])@.len() == lo@.len(),
                all_wf(orig),
                boxed_by(orig, lo@, hi@),
                all_wf(out@),
                boxed_by(out@, lo@, hi@),
                forall|t: int|
                    0 <= t < k ==> (#[trigger] out@[t])@ == orig[t]@ || is_reset(out@[t]@)
                        || is_jitter(orig[t]@, out@[t]@, noise@[t]@),
            decreases pool@.len(),
        {
            let ghost pre = pool@;
            let ch = pool.remove(0);
            proof {
                assert(ch == orig[k as int]);
                assert(chrom_wf(ch@));
                assert(ch@.point.len() == ch@.lo.len());
                assert forall|t: int| 0 <= t < pool@.len() implies pool@[t] == orig[k + 1 + t] by {
                    assert(pool@[t] == pre[t + 1]);
                }
            }
            let draw = rng_below(rng, SCALE as u64);
            let mutated = if draw < mutation_chance as u64 {
                ch.mutate(rng, &noise[k])
            } else {
                ch
            };
            out.push(mutated);
            k = k + 1;
        }
        out
    }


/// Takes the front chromosome out, swapping the last one into its place.
fn swap_remove_front(pool: &mut Vec<VectorChromosome>) -> (r: VectorChromosome)
    requires
        old(pool)@.len() >= 1,
    ensures
        r == old(pool)@[0],
        final(pool)@ == old(pool)@.update(0, old(pool)@.last()).drop_last(),
        final(pool)@.len() == old(pool)@.len() - 1,
        forall|t: int|
            0 <= t < final(pool)@.len() ==> #[trigger] final(pool)@[t] == old(pool)@[if t == 0 {
                old(pool)@.len() - 1
            } else {
                t
            }],
{
    pool.swap_remove(0)
}

/// Swapping one slot out keeps well-formedness and the box.
proof fn lemma_swap_front_keeps(
    pre: Seq<VectorChromosome>,
    post: Seq<VectorChromosome>,
    lo: Seq<i64>,
    hi: Seq<i64>,
)
    requires
        pre.len() >= 1,
        post.len() == pre.len() - 1,
        forall|t: int|
            0 <= t < post.len() ==> #[trigger] post[t] == pre[if t == 0 {
                pre.len() - 1
            } else {
                t
            }],
        all_wf(pre),
        boxed_by(pre, lo, hi),
    ensures
        all_wf(post),
        boxed_by(post, lo, hi),
{
    assert forall|t: int| 0 <= t < post.len() implies chrom_wf(#[trigger] post[t]@) && post[t]@.lo
        == lo && post[t]@.hi == hi by {
        if t == 0 {
            assert(post[t] == pre[pre.len() - 1]);
        } else {
            assert(post[t] == pre[t]);
        }
    }
}

/// Removing any slot by swap keeps well-formedness and the box.
proof fn lemma_swap_any_keeps(
    pre: Seq<VectorChromosome>,
    post: Seq<VectorChromosome>,
    at: int,
    lo: Seq<i64>,
    hi: Seq<i64>,
)
    requires
        pre.len() >= 1,
        0 <= at < pre.len(),
        post == pre.update(at, pre[pre.len() - 1]).drop_last(),
        all_wf(pre),
        boxed_by(pre, lo, hi),
    ensures
        all_wf(post),
        boxed_by(post, lo, hi),
        post.len() == pre.len() - 1,
{
    assert forall|t: int| 0 <= t < post.len() implies chrom_wf(#[trigger] post[t]@) && post[t]@.lo
        == lo && post[t]@.hi == hi by {
        if t == at {
            assert(post[t] == pre[pre.len() - 1]);
        } else {
            assert(post[t] == pre[t]);
        }
    }
}

} // verus!
