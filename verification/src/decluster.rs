use vstd::prelude::*;

verus! {

use crate::conditional::{penalty_spec, MultifactorFitnessEvaluater};
use crate::formula::eval;
use crate::select::{all_from, all_wf, from_some, lemma_all_from_trans, views};
use crate::vector::{dist_sq, dist_sq_prefix, VectorChromosome};
use crate::{chrom_wf, ChromView, FitnessEvaluater};

/// Decides whether a candidate chromosome should replace the exemplar of
/// its cluster.
pub trait DeclusterPolicy: Sized {
    /// Whether `cand` beats the incumbent `inc`.
    spec fn better_spec(&self, cand: ChromView, inc: ChromView) -> bool;

    fn better(&self, cand: &VectorChromosome, inc: &VectorChromosome) -> (r: bool)
        requires
            chrom_wf(cand@),
            chrom_wf(inc@),
        ensures
            r == self.better_spec(cand@, inc@);
}

/// Keeps the chromosome with the higher fitness.
pub struct FitnessPolicy<FE: FitnessEvaluater<VectorChromosome>> {
    pub fe: FE,
}

impl<FE: FitnessEvaluater<VectorChromosome>> DeclusterPolicy for FitnessPolicy<FE> {
    open spec fn better_spec(&self, cand: ChromView, inc: ChromView) -> bool {
        self.fe.fitness_spec(cand) > self.fe.fitness_spec(inc)
    }

    fn better(&self, cand: &VectorChromosome, inc: &VectorChromosome) -> (r: bool) {
        let c = self.fe.fitness(cand);
        let i = self.fe.fitness(inc);
        c > i
    }
}

/// Keeps the chromosome with the lower penalty; penalties closer than the
/// tie tolerance count as equal and the lower raw objective wins instead.
pub struct ConstrainedPolicy {
    pub fe: MultifactorFitnessEvaluater,
    pub tie_eps: i64,
}

impl DeclusterPolicy for ConstrainedPolicy {
    open spec fn better_spec(&self, cand: ChromView, inc: ChromView) -> bool {
        let pc = penalty_spec(self.fe, cand.point);
        let pi = penalty_spec(self.fe, inc.point);
        let diff = if pc >= pi {
            pc - pi
        } else {
            pi - pc
        };
        if diff < self.tie_eps {
            eval(self.fe.fitness_func, cand.point) < eval(self.fe.fitness_func, inc.point)
        } else {
            pc < pi
        }
    }

    fn better(&self, cand: &VectorChromosome, inc: &VectorChromosome) -> (r: bool) {
        let pc = self.fe.penalty(cand);
        let pi = self.fe.penalty(inc);
        let diff: i128 = if pc >= pi {
            (pc as i128) - (pi as i128)
        } else {
            (pi as i128) - (pc as i128)
        };
        if diff < self.tie_eps as i128 {
            let rc = self.fe.real_fitness(cand);
            let ri = self.fe.real_fitness(inc);
            rc < ri
        } else {
            pc < pi
        }
    }
}

/// The first exemplar within the tolerance of `c`, scanned in insertion
/// order; -1 when every exemplar is at least the tolerance away.
pub open spec fn find_exemplar(origins: Seq<ChromView>, c: ChromView, tol_sq: int) -> int
    decreases origins.len(),
{
    if origins.len() == 0 {
        -1
    } else if dist_sq(c.point, origins[0].point) < tol_sq {
        0
    } else {
        let r = find_exemplar(origins.drop_first(), c, tol_sq);
        if r == -1 {
            -1
        } else {
            r + 1
        }
    }
}

/// One declustering step: a candidate within the tolerance of an exemplar
/// replaces that cluster's winner when the policy prefers it; otherwise
/// the candidate founds a new cluster. Origins keep the exemplars' first
/// positions; winners keep the best member seen so far.
pub open spec fn decluster_step<P: DeclusterPolicy>(
    p: P,
    origins: Seq<ChromView>,
    winners: Seq<ChromView>,
    c: ChromView,
    tol_sq: int,
) -> (Seq<ChromView>, Seq<ChromView>) {
    let f = find_exemplar(origins, c, tol_sq);
    if f == -1 {
        (origins.push(c), winners.push(c))
    } else {
        (
            origins,
            winners.update(
                f,
                if p.better_spec(c, winners[f]) {
                    c
                } else {
                    winners[f]
                },
            ),
        )
    }
}

/// The origins and winners after the first `k` chromosomes were processed,
/// the first as the seed.
pub open spec fn decluster_rec<P: DeclusterPolicy>(p: P, s: Seq<ChromView>, k: int, tol_sq: int) -> (
    Seq<ChromView>,
    Seq<ChromView>,
)
    recommends
        1 <= k <= s.len(),
    decreases k,
{
    if k <= 1 {
        (seq![s[0]], seq![s[0]])
    } else {
        let ow = decluster_rec(p, s, k - 1, tol_sq);
        decluster_step(p, ow.0, ow.1, s[k - 1], tol_sq)
    }
}

/// What one declustering pass returns on this population.
pub open spec fn decluster_spec<P: DeclusterPolicy>(p: P, s: Seq<ChromView>, tol_sq: int) -> Seq<
    ChromView,
> {
    decluster_rec(p, s, s.len() as int, tol_sq).1
}

/// Any two distinct chromosomes are at least the tolerance apart.
pub open spec fn pairwise_separated(s: Seq<ChromView>, tol_sq: int) -> bool {
    forall|i: int, j: int|
        0 <= i < j < s.len() ==> dist_sq(#[trigger] s[i].point, #[trigger] s[j].point) >= tol_sq
}

/// Squared distance does not depend on the order of its arguments.
pub proof fn lemma_dist_sq_sym_prefix(a: Seq<i64>, b: Seq<i64>, n: int)
    ensures
        dist_sq_prefix(a, b, n) == dist_sq_prefix(b, a, n),
    decreases n,
{
    if n > 0 {
        lemma_dist_sq_sym_prefix(a, b, n - 1);
        let x = a[n - 1] as int;
        let y = b[n - 1] as int;
        assert((x - y) * (x - y) == (y - x) * (y - x)) by (nonlinear_arith);
    }
}

/// Squared distance is symmetric for points of one dimension.
pub proof fn lemma_dist_sq_sym(a: Seq<i64>, b: Seq<i64>)
    requires
        a.len() == b.len(),
    ensures
        dist_sq(a, b) == dist_sq(b, a),
{
    lemma_dist_sq_sym_prefix(a, b, a.len() as int);
}

/// The scan finds exactly the first exemplar within the tolerance.
pub proof fn lemma_find_exemplar_at(origins: Seq<ChromView>, c: ChromView, tol_sq: int, i: int)
    requires
        0 <= i <= origins.len(),
        forall|j: int| 0 <= j < i ==> dist_sq(c.point, (#[trigger] origins[j]).point) >= tol_sq,
        i < origins.len() ==> dist_sq(c.point, origins[i].point) < tol_sq,
    ensures
        find_exemplar(origins, c, tol_sq) == if i < origins.len() {
            i
        } else {
            -1
        },
    decreases origins.len(),
{
    if origins.len() == 0 {
    } else if dist_sq(c.point, origins[0].point) < tol_sq {
        assert(i == 0);
    } else {
        let rest = origins.drop_first();
        assert(forall|j: int| 0 <= j < rest.len() ==> rest[j] == origins[j + 1]);
        lemma_find_exemplar_at(rest, c, tol_sq, if i >= 1 {
            i - 1
        } else {
            0
        });
    }
}

/// The scan returns -1 or the index of an exemplar.
pub proof fn lemma_find_exemplar_range(origins: Seq<ChromView>, c: ChromView, tol_sq: int)
    ensures
        -1 <= find_exemplar(origins, c, tol_sq) < origins.len(),
    decreases origins.len(),
{
    if origins.len() > 0 && !(dist_sq(c.point, origins[0].point) < tol_sq) {
        lemma_find_exemplar_range(origins.drop_first(), c, tol_sq);
    }
}

/// When the scan finds nothing, every exemplar is at least the tolerance
/// away.
pub proof fn lemma_find_exemplar_none(origins: Seq<ChromView>, c: ChromView, tol_sq: int)
    requires
        find_exemplar(origins, c, tol_sq) == -1,
    ensures
        forall|j: int| 0 <= j < origins.len() ==> dist_sq(c.point, (#[trigger] origins[j]).point)
            >= tol_sq,
    decreases origins.len(),
{
    if origins.len() > 0 {
        let rest = origins.drop_first();
        if dist_sq(c.point, origins[0].point) < tol_sq {
            assert(find_exemplar(origins, c, tol_sq) == 0);
        } else {
            lemma_find_exemplar_range(rest, c, tol_sq);
            assert(find_exemplar(rest, c, tol_sq) == -1);
            lemma_find_exemplar_none(rest, c, tol_sq);
            assert(forall|j: int| 0 <= j < rest.len() ==> rest[j] == origins[j + 1]);
            assert forall|j: int| 0 <= j < origins.len() implies dist_sq(
                c.point,
                (#[trigger] origins[j]).point,
            ) >= tol_sq by {
                if j > 0 {
                    assert(origins[j] == rest[j - 1]);
                }
            }
        }
    }
}

/// The shape of the model state: as many winners as origins, at most one
/// per processed chromosome, and, when no cluster ever merged, both lists
/// are exactly the processed prefix and that prefix is pairwise separated.
/// Conversely a separated prefix never merges.
pub proof fn lemma_decluster_rec_shape<P: DeclusterPolicy>(
    p: P,
    s: Seq<ChromView>,
    k: int,
    tol_sq: int,
)
    requires
        1 <= k <= s.len(),
        forall|i: int| 0 <= i < s.len() ==> (#[trigger] s[i]).point.len() == s[0].point.len(),
    ensures
        decluster_rec(p, s, k, tol_sq).0.len() == decluster_rec(p, s, k, tol_sq).1.len(),
        1 <= decluster_rec(p, s, k, tol_sq).1.len() <= k,
        decluster_rec(p, s, k, tol_sq).1.len() == k ==> decluster_rec(p, s, k, tol_sq).0 == s.take(
            k,
        ) && decluster_rec(p, s, k, tol_sq).1 == s.take(k) && pairwise_separated(s.take(k), tol_sq),
        pairwise_separated(s.take(k), tol_sq) ==> decluster_rec(p, s, k, tol_sq).0 == s.take(k)
            && decluster_rec(p, s, k, tol_sq).1 == s.take(k),
    decreases k,
{
    if k <= 1 {
        assert(seq![s[0]] =~= s.take(1));
        assert(pairwise_separated(s.take(1), tol_sq));
    } else {
        lemma_decluster_rec_shape(p, s, k - 1, tol_sq);
        let o = decluster_rec(p, s, k - 1, tol_sq).0;
        let w = decluster_rec(p, s, k - 1, tol_sq).1;
        let c = s[k - 1];
        let f = find_exemplar(o, c, tol_sq);
        lemma_find_exemplar_range(o, c, tol_sq);
        assert(decluster_rec(p, s, k, tol_sq) == decluster_step(p, o, w, c, tol_sq));
        if f == -1 {
            assert(decluster_step(p, o, w, c, tol_sq) == (o.push(c), w.push(c)));
        } else {
            assert(decluster_step(p, o, w, c, tol_sq) == (
                o,
                w.update(
                    f,
                    if p.better_spec(c, w[f]) {
                        c
                    } else {
                        w[f]
                    },
                ),
            ));
            assert(w.update(
                f,
                if p.better_spec(c, w[f]) {
                    c
                } else {
                    w[f]
                },
            ).len() == w.len());
        }

        if decluster_rec(p, s, k, tol_sq).1.len() == k {
            // the step must have pushed, and the prefix never merged
            assert(f == -1);
            assert(w.len() == k - 1);
            assert(o == s.take(k - 1) && w == s.take(k - 1));
            assert(pairwise_separated(s.take(k - 1), tol_sq));
            lemma_find_exemplar_none(o, c, tol_sq);
            assert(s.take(k - 1).push(c) =~= s.take(k));
            assert forall|i: int, j: int| 0 <= i < j < s.take(k).len() implies dist_sq(
                (#[trigger] s.take(k)[i]).point,
                (#[trigger] s.take(k)[j]).point,
            ) >= tol_sq by {
                if j == k - 1 {
                    assert(o[i] == s.take(k)[i]);
                    assert(dist_sq(c.point, o[i].point) >= tol_sq);
                    lemma_dist_sq_sym(s.take(k)[i].point, c.point);
                } else {
                    assert(pairwise_separated(s.take(k - 1), tol_sq));
                    assert(s.take(k - 1)[i] == s.take(k)[i]);
                    assert(s.take(k - 1)[j] == s.take(k)[j]);
                }
            }
        }
        if pairwise_separated(s.take(k), tol_sq) {
            // the prefix without the new chromosome is separated too
            assert forall|i: int, j: int| 0 <= i < j < s.take(k - 1).len() implies dist_sq(
                (#[trigger] s.take(k - 1)[i]).point,
                (#[trigger] s.take(k - 1)[j]).point,
            ) >= tol_sq by {
                assert(s.take(k - 1)[i] == s.take(k)[i]);
                assert(s.take(k - 1)[j] == s.take(k)[j]);
            }
            assert(o == s.take(k - 1) && w == s.take(k - 1));
            // the new chromosome is far from every earlier one
            assert forall|j: int| 0 <= j < o.len() implies dist_sq(
                c.point,
                (#[trigger] o[j]).point,
            ) >= tol_sq by {
                assert(o[j] == s.take(k)[j]);
                assert(c == s.take(k)[k - 1]);
                assert(dist_sq(s.take(k)[j].point, s.take(k)[k - 1].point) >= tol_sq);
                lemma_dist_sq_sym(s.take(k)[j].point, c.point);
            }
            lemma_find_exemplar_at(o, c, tol_sq, o.len() as int);
            assert(f == -1);
            assert(s.take(k - 1).push(c) =~= s.take(k));
        }
    }
}

/// Decluster idempotence at a fixed point: a pass that does not change the
/// population's size has not changed the population at all, the result is
/// pairwise separated, and every further pass returns it unchanged.
pub proof fn lemma_decluster_fixed_point<P: DeclusterPolicy>(p: P, s: Seq<ChromView>, tol_sq: int)
    requires
        s.len() >= 1,
        forall|i: int| 0 <= i < s.len() ==> (#[trigger] s[i]).point.len() == s[0].point.len(),
        decluster_spec(p, s, tol_sq).len() == s.len(),
    ensures
        decluster_spec(p, s, tol_sq) == s,
        pairwise_separated(s, tol_sq),
        decluster_spec(p, decluster_spec(p, s, tol_sq), tol_sq) == decluster_spec(p, s, tol_sq),
{
    lemma_decluster_rec_shape(p, s, s.len() as int, tol_sq);
    assert(s.take(s.len() as int) =~= s);
}

/// A separated population declusters to itself.
pub proof fn lemma_decluster_separated_identity<P: DeclusterPolicy>(
    p: P,
    s: Seq<ChromView>,
    tol_sq: int,
)
    requires
        s.len() >= 1,
        forall|i: int| 0 <= i < s.len() ==> (#[trigger] s[i]).point.len() == s[0].point.len(),
        pairwise_separated(s, tol_sq),
    ensures
        decluster_spec(p, s, tol_sq) == s,
{
    lemma_decluster_rec_shape(p, s, s.len() as int, tol_sq);
    assert(s.take(s.len() as int) =~= s);
}

/// One declustering pass: collapses chromosomes within the tolerance of an
/// earlier exemplar into that cluster, keeping the policy's preferred
/// member, exactly as the model `decluster_spec` says.
pub fn decluster<P: DeclusterPolicy>(
    pop: &Vec<VectorChromosome>,
    policy: &P,
    tol_sq: u128,
) -> (out: Vec<VectorChromosome>)
    requires
        all_wf(pop@),
        pop@.len() >= 1,
        forall|i: int|
            0 <= i < pop@.len() ==> (#[trigger] pop@[i])@.point.len() == pop@[0]@.point.len(),
    ensures
        views(out@) == decluster_spec(*policy, views(pop@), tol_sq as int),
        1 <= out@.len() <= pop@.len(),
        all_from(out@, pop@),
        all_wf(out@),
{
    let ghost sv = views(pop@);
    let n = pop.len();
    let mut origins: Vec<VectorChromosome> = Vec::new();
    let mut winners: Vec<VectorChromosome> = Vec::new();
    origins.push(pop[0].clone());
    winners.push(pop[0].clone());
    let mut k: usize = 1;
    proof {
        assert(views(origins@) =~= seq![sv[0]]);
        assert(views(winners@) =~= seq![sv[0]]);
        assert(forall|i: int| 0 <= i < sv.len() ==> (#[trigger] sv[i]) == pop@[i]@);
    }
    while k < n
        invariant
            1 <= k <= n,
            n == pop@.len(),
            sv == views(pop@),
            sv.len() == n,
            forall|i: int| 0 <= i < sv.len() ==> (#[trigger] sv[i]) == pop@[i]@,
            all_wf(pop@),
            forall|i: int|
                0 <= i < pop@.len() ==> (#[trigger] pop@[i])@.point.len() == pop@[0]@.point.len(),
            views(origins@) == decluster_rec(*policy, sv, k as int, tol_sq as int).0,
            views(winners@) == decluster_rec(*policy, sv, k as int, tol_sq as int).1,
            origins@.len() == winners@.len(),
            1 <= winners@.len() <= k,
            all_from(origins@, pop@),
            all_from(winners@, pop@),
            all_wf(origins@),
            all_wf(winners@),
        decreases n - k,
    {
        let c = &pop[k];
        let mut i: usize = 0;
        let mut found: bool = false;
        while i < origins.len() && !found
            invariant
                0 <= i <= origins@.len(),
                all_wf(origins@),
                all_from(origins@, pop@),
                chrom_wf(c@),
                c == pop@[k as int],
                1 <= k < pop@.len(),
                all_wf(pop@),
                forall|t: int|
                    0 <= t < pop@.len() ==> (#[trigger] pop@[t])@.point.len()
                        == pop@[0]@.point.len(),
                !found ==> forall|j: int|
                    0 <= j < i ==> dist_sq(c@.point, (#[trigger] origins@[j])@.point)
                        >= tol_sq as int,
                found ==> i < origins@.len() && dist_sq(c@.point, origins@[i as int]@.point)
                    < tol_sq as int && forall|j: int|
                    0 <= j < i ==> dist_sq(c@.point, (#[trigger] origins@[j])@.point)
                        >= tol_sq as int,
            decreases origins@.len() - i, !found as int,
        {
            proof {
                let j = choose|j: int| 0 <= j < pop@.len() && origins@[i as int]@ == pop@[j]@;
                assert(origins@[i as int]@.point.len() == c@.point.len());
            }
            let d = c.distance_sq(&origins[i]);
            if d < tol_sq {
                found = true;
            } else {
                i = i + 1;
            }
        }
        proof {
            let ghost ov = views(origins@);
            assert(forall|j: int| 0 <= j < ov.len() ==> (#[trigger] ov[j]) == origins@[j]@);
            if found {
                lemma_find_exemplar_at(ov, c@, tol_sq as int, i as int);
            } else {
                lemma_find_exemplar_at(ov, c@, tol_sq as int, ov.len() as int);
            }
        }
        if found {
            let ghost pre_w = winners@;
            let replace = policy.better(c, &winners[i]);
            if replace {
                winners.set(i, c.clone());
            }
            proof {
                let wv = views(pre_w);
                let f = find_exemplar(views(origins@), c@, tol_sq as int);
                assert(f == i as int);
                assert(views(winners@) =~= wv.update(
                    f,
                    if policy.better_spec(c@, wv[f]) {
                        c@
                    } else {
                        wv[f]
                    },
                ));
                assert forall|t: int| 0 <= t < winners@.len() implies from_some(
                    #[trigger] winners@[t],
                    pop@,
                ) && chrom_wf(winners@[t]@) by {
                    if t != i as int {
                        assert(winners@[t] == pre_w[t]);
                    } else {
                        if replace {
                            assert(winners@[t]@ == pop@[k as int]@);
                        } else {
                            assert(winners@[t]@ == pre_w[t]@);
                            assert(from_some(pre_w[t], pop@));
                        }
                    }
                }
            }
        } else {
            let ghost pre_o = origins@;
            let ghost pre_w = winners@;
            origins.push(c.clone());
            winners.push(c.clone());
            proof {
                assert(views(origins@) =~= views(pre_o).push(c@));
                assert(views(winners@) =~= views(pre_w).push(c@));
                assert(from_some(origins@[origins@.len() - 1], pop@)) by {
                    assert(origins@[origins@.len() - 1]@ == pop@[k as int]@);
                }
                crate::select::lemma_all_from_push(pre_o, origins@[origins@.len() - 1], pop@);
                crate::select::lemma_all_from_push(pre_w, winners@[winners@.len() - 1], pop@);
                assert(all_wf(origins@)) by {
                    assert forall|t: int| 0 <= t < origins@.len() implies chrom_wf(
                        #[trigger] origins@[t]@,
                    ) by {
                        if t < pre_o.len() {
                            assert(origins@[t] == pre_o[t]);
                        } else {
                            assert(origins@[t]@ == pop@[k as int]@);
                        }
                    }
                }
                assert(all_wf(winners@)) by {
                    assert forall|t: int| 0 <= t < winners@.len() implies chrom_wf(
                        #[trigger] winners@[t]@,
                    ) by {
                        if t < pre_w.len() {
                            assert(winners@[t] == pre_w[t]);
                        } else {
                            assert(winners@[t]@ == pop@[k as int]@);
                        }
                    }
                }
            }
        }
        k = k + 1;
    }
    winners
}

/// Repeats declustering passes until the size stabilizes: the result is a
/// fixed point of the declusterer, and its members are pairwise at least
/// the tolerance apart.
pub fn decluster_until_stable<P: DeclusterPolicy>(
    pop: Vec<VectorChromosome>,
    policy: &P,
    tol_sq: u128,
) -> (out: Vec<VectorChromosome>)
    requires
        all_wf(pop@),
        pop@.len() >= 1,
        forall|i: int|
            0 <= i < pop@.len() ==> (#[trigger] pop@[i])@.point.len() == pop@[0]@.point.len(),
    ensures
        views(out@) == decluster_spec(*policy, views(out@), tol_sq as int),
        pairwise_separated(views(out@), tol_sq as int),
        1 <= out@.len() <= pop@.len(),
        all_from(out@, pop@),
        all_wf(out@),
{
    let mut cur = pop;
    let ghost orig = cur@;
    proof {
        crate::select::lemma_all_from_refl(orig);
    }
    loop
        invariant
            all_wf(cur@),
            1 <= cur@.len() <= orig.len(),
            all_from(cur@, orig),
            forall|i: int|
                0 <= i < cur@.len() ==> (#[trigger] cur@[i])@.point.len() == cur@[0]@.point.len(),
            orig == pop@,
        decreases cur@.len(),
    {
        let prev_len = cur.len();
        let next = decluster(&cur, policy, tol_sq);
        proof {
            assert(forall|i: int| 0 <= i < views(cur@).len() ==> (#[trigger] views(cur@)[i])
                == cur@[i]@);
            lemma_all_from_trans(next@, cur@, orig);
            assert forall|i: int| 0 <= i < next@.len() implies (#[trigger] next@[i])@.point.len()
                == next@[0]@.point.len() by {
                let a = choose|a: int| 0 <= a < cur@.len() && next@[i]@ == cur@[a]@;
                let b = choose|b: int| 0 <= b < cur@.len() && next@[0]@ == cur@[b]@;
            }
        }
        if next.len() == prev_len {
            proof {
                let sv = views(cur@);
                assert(sv.len() >= 1);
                assert forall|i: int| 0 <= i < sv.len() implies (#[trigger] sv[i]).point.len()
                    == sv[0].point.len() by {
                    assert(sv[i] == cur@[i]@);
                    assert(sv[0] == cur@[0]@);
                }
                lemma_decluster_fixed_point(*policy, sv, tol_sq as int);
                assert(views(next@) == sv);
            }
            return next;
        }
        proof {
            assert(next@.len() < cur@.len());
        }
        cur = next;
    }
}

} // verus!
