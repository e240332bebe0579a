//! A species: genomes clustered around a representative by the genome
//! distance metric, with fitness-sharing bookkeeping.

use vstd::prelude::*;
use vstd::multiset::Multiset;
use crate::evaluator::grn_sine_evaluator::SineEvaluator;
use crate::evaluator::grn_genome_evaluator::GrnGenomeEvaluator;
use crate::evolver::grn_gene::IdCounter;
use crate::evolver::grn_genome::{genome_dist_ratio, genome_eq, GrnGenome};
use crate::fixed::Ratio;

verus! {

/// Total recorded fitness of the first `upto` genomes.
pub open spec fn fit_sum(s: Seq<GrnGenome>, upto: int) -> int
    decreases upto,
{
    if upto <= 0 {
        0
    } else {
        fit_sum(s, upto - 1) + s[upto - 1].last_fit as int
    }
}

/// The genomes stand in ascending order of recorded fitness.
pub open spec fn sorted_by_fit(s: Seq<GrnGenome>) -> bool {
    forall|i: int, j: int| 0 <= i < j < s.len() ==> s[i].last_fit <= s[j].last_fit
}

proof fn lemma_fit_sum_prefix(a: Seq<GrnGenome>, b: Seq<GrnGenome>, upto: int)
    requires
        0 <= upto <= a.len(),
        upto <= b.len(),
        forall|i: int| 0 <= i < upto ==> a[i] == b[i],
    ensures
        fit_sum(a, upto) == fit_sum(b, upto),
    decreases upto,
{
    if upto > 0 {
        lemma_fit_sum_prefix(a, b, upto - 1);
    }
}

proof fn lemma_fit_sum_remove(s: Seq<GrnGenome>, i: int)
    requires
        0 <= i < s.len(),
    ensures
        fit_sum(s.remove(i), s.len() - 1) == fit_sum(s, s.len() as int) - s[i].last_fit as int,
    decreases s.len(),
{
    if i == s.len() - 1 {
        assert(s.remove(i) =~= s.subrange(0, i));
        lemma_fit_sum_prefix(s.remove(i), s, i);
    } else {
        let l = s.len() - 1;
        let t = s.drop_last();
        assert(s.remove(i).drop_last() =~= t.remove(i));
        assert(s.remove(i).last() == s.last());
        lemma_fit_sum_remove(t, i);
        lemma_fit_sum_prefix(t, s, l);
        lemma_fit_sum_prefix(s.remove(i).drop_last(), s.remove(i), l - 1);
        lemma_fit_sum_prefix(t.remove(i), s.remove(i), l - 1);
    }
}

/// Whether a species accepts a genome: membership is not tested, there is
/// no representative to test against, or the genome's exact rational
/// distance to the representative stays within the speciation threshold.
pub open spec fn accepts(s: Species, g: GrnGenome, test_species: bool) -> bool {
    !test_species || match s.representative_genome {
        Some(rep) => genome_dist_ratio(rep, g, s.use_dynamics_genome_for_distance).0
            * s.speciation_threshold.den <= s.speciation_threshold.num * genome_dist_ratio(
            rep,
            g,
            s.use_dynamics_genome_for_distance,
        ).1,
        None => true,
    }
}

/// Clusters genomes whose distance to the representative stays under the
/// speciation threshold; tracks the members' total and best fitness.
pub struct Species {
    pub genomes: Vec<GrnGenome>,
    pub genomes_are_sorted: bool,
    pub speciation_threshold: Ratio,
    pub representative_genome: Option<GrnGenome>,
    pub evaluator: Option<SineEvaluator>,
    pub fitness_sum: i64,
    pub best_genome: Option<GrnGenome>,
    pub best_fitness: i64,
    pub representative_is_first: bool,
    pub replacement: bool,
    pub use_dynamics_genome_for_distance: bool,
    pub species_id: i32,
}

impl Species {
    /// The bookkeeping invariant: the threshold is a proper ratio, the
    /// representative and every member are well-formed genomes, the fitness
    /// sum is exactly the members' total recorded fitness, and the sorted
    /// flag is honest.
    pub open spec fn wf(self) -> bool {
        &&& self.speciation_threshold.wf()
        &&& match self.representative_genome {
            Some(rep) => rep.wf(),
            None => true,
        }
        &&& forall|i: int| 0 <= i < self.genomes@.len() ==> (#[trigger] self.genomes@[i]).wf()
        &&& self.fitness_sum == fit_sum(self.genomes@, self.genomes@.len() as int)
        &&& self.genomes_are_sorted ==> sorted_by_fit(self.genomes@)
    }

    /// An empty species: threshold `0.3`, no representative, no evaluator.
    pub fn new() -> (r: Species)
        ensures
            r.wf(),
            r.genomes@.len() == 0,
            r.speciation_threshold == (Ratio { num: 3, den: 10 }),
            r.representative_genome is None,
            r.best_fitness == i64::MIN,
            r.fitness_sum == 0,
    {
        Species {
            genomes: Vec::new(),
            genomes_are_sorted: true,
            speciation_threshold: Ratio { num: 3, den: 10 },
            representative_genome: None,
            evaluator: None,
            fitness_sum: 0,
            best_genome: None,
            best_fitness: i64::MIN,
            representative_is_first: true,
            replacement: true,
            use_dynamics_genome_for_distance: true,
            species_id: 0,
        }
    }

    /// A species founded on a representative genome, which is immediately
    /// added as its first member (without a membership test), with a fresh
    /// species identifier.
    pub fn with_parameters(
        representative: GrnGenome,
        speciation_threshold: Ratio,
        add_repr: bool,
        an_evaluator: SineEvaluator,
        ids: &mut IdCounter,
    ) -> (r: Species)
        requires
            representative.wf(),
            speciation_threshold.wf(),
            old(ids).next_id < i32::MAX,
        ensures
            r.wf(),
            r.species_id == old(ids).next_id,
            final(ids).next_id == old(ids).next_id + 1,
            r.speciation_threshold == speciation_threshold,
            r.genomes@.len() == 1,
            genome_eq(r.genomes@[0], representative),
            match r.representative_genome {
                Some(rep) => genome_eq(rep, representative),
                None => false,
            },
            r.fitness_sum == representative.last_fit,
            r.representative_is_first,
            r.use_dynamics_genome_for_distance,
    {
        let id = ids.take();
        let mut s = Species {
            genomes: Vec::new(),
            genomes_are_sorted: true,
            speciation_threshold,
            representative_genome: Some(representative.snapshot()),
            evaluator: Some(an_evaluator),
            fitness_sum: 0,
            best_genome: None,
            best_fitness: i64::MIN,
            representative_is_first: true,
            replacement: true,
            use_dynamics_genome_for_distance: true,
            species_id: id,
        };
        s.add_genome(representative, false);
        s
    }

    /// Add a genome.  With `test_species` set, it is accepted only when its
    /// distance to the representative stays within the speciation
    /// threshold; otherwise it is accepted outright.  An accepted genome is
    /// evaluated if it has not been (the evaluator is consulted), appended,
    /// and its fitness joins the sum; when it beats the recorded best
    /// fitness it becomes the best genome and its fitness the new best
    /// fitness (and it is promoted to representative only if the
    /// representative is not pinned to the first member).  Returns whether
    /// the genome was accepted; a rejection changes nothing.
    pub fn add_genome(&mut self, a_genome: GrnGenome, test_species: bool) -> (r: bool)
        requires
            old(self).wf(),
            a_genome.wf(),
            test_species ==> old(self).representative_genome is Some,
            test_species && !old(self).use_dynamics_genome_for_distance ==> match old(self).representative_genome {
                Some(rep) => rep.all_genes@.len() + a_genome.all_genes@.len() > 0,
                None => true,
            },
            accepts(*old(self), a_genome, test_species) && !a_genome.has_been_evaluated ==> old(
                self,
            ).evaluator is Some,
            accepts(*old(self), a_genome, test_species) ==> i64::MIN <= old(self).fitness_sum
                + a_genome.last_fit <= i64::MAX,
        ensures
            final(self).wf(),
            r == accepts(*old(self), a_genome, test_species),
            !r ==> *final(self) == *old(self),
            r ==> final(self).genomes@.len() == old(self).genomes@.len() + 1 && genome_eq(
                final(self).genomes@.last(),
                a_genome,
            ) && final(self).fitness_sum == old(self).fitness_sum + a_genome.last_fit && !final(self).genomes_are_sorted && (forall|i: int|
                0 <= i < old(self).genomes@.len() ==> final(self).genomes@[i] == old(
                    self,
                ).genomes@[i]),
            r && a_genome.last_fit > old(self).best_fitness ==> (match final(self).best_genome {
                Some(b) => genome_eq(b, a_genome),
                None => false,
            }) && final(self).best_fitness == a_genome.last_fit,
            r && !(a_genome.last_fit > old(self).best_fitness) ==> final(self).best_genome == old(self).best_genome && final(self).best_fitness == old(self).best_fitness,
            final(self).speciation_threshold == old(self).speciation_threshold,
            final(self).species_id == old(self).species_id,
            final(self).representative_is_first == old(self).representative_is_first,
            final(self).use_dynamics_genome_for_distance == old(self).use_dynamics_genome_for_distance,
            final(self).replacement == old(self).replacement,
            final(self).evaluator == old(self).evaluator,
            r && old(self).representative_genome is Some && !(a_genome.last_fit > old(self).best_fitness && !old(self).representative_is_first) ==> final(self).representative_genome == old(self).representative_genome,
            r && (old(self).representative_genome is None || (a_genome.last_fit > old(self).best_fitness && !old(self).representative_is_first)) ==> (match final(self).representative_genome {
                Some(rep) => genome_eq(rep, a_genome),
                None => false,
            }),
    {
        let accept: bool;
        if !test_species {
            accept = true;
        } else {
            match &self.representative_genome {
                Some(rep) => {
                    let d = rep.distance_to(&a_genome, self.use_dynamics_genome_for_distance);
                    accept = d.le(&self.speciation_threshold);
                },
                None => {
                    accept = true;
                },
            }
        }
        if accept {
            if !a_genome.has_been_evaluated() {
                match &self.evaluator {
                    Some(evaluator) => {
                        evaluator.evaluate(&a_genome);
                    },
                    None => {},
                }
            }
            if self.representative_genome.is_none() {
                self.representative_genome = Some(a_genome.snapshot());
            }
            let ghost before = self.genomes@;
            self.genomes.push(a_genome.snapshot());
            proof {
                lemma_fit_sum_prefix(before, self.genomes@, before.len() as int);
            }
            self.genomes_are_sorted = false;
            let best_fit = a_genome.get_last_fit();
            self.fitness_sum = self.fitness_sum + best_fit;
            if best_fit > self.best_fitness {
                if !self.representative_is_first {
                    self.representative_genome = Some(a_genome.snapshot());
                }
                self.best_genome = Some(a_genome);
                self.best_fitness = best_fit;
            }
            true
        } else {
            false
        }
    }

    /// Re-invoke the evaluator on every member in place (membership and
    /// order are untouched; the species itself is not modified).
    pub fn recompute_fitness(&self) {
        let mut k: usize = 0;
        while k < self.genomes.len()
            decreases self.genomes@.len() - k,
        {
            match &self.evaluator {
                Some(evaluator) => {
                    evaluator.evaluate(&self.genomes[k]);
                },
                None => {},
            }
            k = k + 1;
        }
    }

    /// Member count.
    pub fn size(&self) -> (r: usize)
        ensures
            r == self.genomes@.len(),
    {
        self.genomes.len()
    }

    /// Sort the members by recorded fitness, ascending, and mark the list
    /// sorted; the members themselves are preserved (a permutation).
    #[allow(non_snake_case)]
    pub fn sort_Genome(&mut self)
        requires
            old(self).wf(),
        ensures
            final(self).wf(),
            final(self).genomes_are_sorted,
            sorted_by_fit(final(self).genomes@),
            final(self).genomes@.to_multiset() == old(self).genomes@.to_multiset(),
            final(self).genomes@.len() == old(self).genomes@.len(),
            final(self).fitness_sum == old(self).fitness_sum,
            final(self).representative_genome == old(self).representative_genome,
            final(self).best_genome == old(self).best_genome,
            final(self).best_fitness == old(self).best_fitness,
            final(self).speciation_threshold == old(self).speciation_threshold,
    {
        let ghost orig = self.genomes@;
        let mut src: Vec<GrnGenome> = Vec::new();
        core::mem::swap(&mut src, &mut self.genomes);
        let mut result: Vec<GrnGenome> = Vec::new();
        proof {
            result@.to_multiset_ensures();
            orig.to_multiset_ensures();
            assert(result@.to_multiset().len() == 0);
            assert(result@.to_multiset() =~= Multiset::empty());
            assert(result@.to_multiset().add(src@.to_multiset()) =~= src@.to_multiset());
        }
        while src.len() > 0
            invariant
                result@.to_multiset().add(src@.to_multiset()) =~= orig.to_multiset(),
                fit_sum(result@, result@.len() as int) + fit_sum(src@, src@.len() as int)
                    == fit_sum(orig, orig.len() as int),
                result@.len() + src@.len() == orig.len(),
                sorted_by_fit(result@),
                forall|i: int, j: int|
                    0 <= i < result@.len() && 0 <= j < src@.len() ==> (#[trigger] result@[i]).last_fit
                        <= (#[trigger] src@[j]).last_fit,
                forall|i: int| 0 <= i < result@.len() ==> (#[trigger] result@[i]).wf(),
                forall|i: int| 0 <= i < src@.len() ==> (#[trigger] src@[i]).wf(),
            decreases src@.len(),
        {
            // select the least remaining fitness
            let mut min_idx: usize = 0;
            let mut k: usize = 1;
            while k < src.len()
                invariant
                    src@.len() > 0,
                    min_idx < k,
                    k <= src@.len(),
                    forall|j: int| 0 <= j < k ==> src@[min_idx as int].last_fit
                        <= (#[trigger] src@[j]).last_fit,
                decreases src@.len() - k,
            {
                if src[k].get_last_fit() < src[min_idx].get_last_fit() {
                    min_idx = k;
                }
                k = k + 1;
            }
            let ghost src_before = src@;
            let picked = src.remove(min_idx);
            proof {
                lemma_fit_sum_remove(src_before, min_idx as int);
                src_before.to_multiset_ensures();
                result@.to_multiset_ensures();
                assert(src_before.contains(picked));
                assert(src_before.to_multiset().count(picked) > 0);
                assert(result@.push(picked).to_multiset() =~= result@.to_multiset().insert(
                    picked,
                ));
                assert(src@.to_multiset() =~= src_before.to_multiset().remove(picked));
                assert(result@.push(picked).to_multiset().add(src@.to_multiset())
                    =~= result@.to_multiset().add(src_before.to_multiset()));
                lemma_fit_sum_prefix(result@, result@.push(picked), result@.len() as int);
            }
            result.push(picked);
        }
        proof {
            src@.to_multiset_ensures();
            assert(src@.to_multiset().len() == 0);
            assert(src@.to_multiset() =~= Multiset::empty());
            assert(result@.to_multiset() =~= orig.to_multiset());
        }
        core::mem::swap(&mut result, &mut self.genomes);
        self.genomes_are_sorted = true;
        proof {
            assert(self.genomes@.to_multiset() == orig.to_multiset());
            assert(fit_sum(self.genomes@, self.genomes@.len() as int) == fit_sum(
                orig,
                orig.len() as int,
            ));
        }
    }

    /// Sort if needed, then evict the member at the tail of the
    /// ascending-sorted list — the member of highest recorded fitness — and
    /// take its fitness out of the sum.
    pub fn remove_worst_genome(&mut self)
        requires
            old(self).wf(),
            old(self).genomes@.len() >= 1,
            forall|i: int|
                0 <= i < old(self).genomes@.len() ==> i64::MIN <= old(self).fitness_sum - (
                #[trigger] old(self).genomes@[i]).last_fit <= i64::MAX,
        ensures
            final(self).wf(),
            final(self).genomes@.len() == old(self).genomes@.len() - 1,
            exists|g: GrnGenome|
                #![auto]
                old(self).genomes@.to_multiset() == final(self).genomes@.to_multiset().insert(g)
                    && (forall|i: int|
                    0 <= i < final(self).genomes@.len() ==> (#[trigger] final(self).genomes@[i]).last_fit <= g.last_fit),
            final(self).fitness_sum == fit_sum(final(self).genomes@, final(self).genomes@.len() as int),
    {
        if !self.genomes_are_sorted {
            self.sort_Genome();
        }
        proof {
            self.genomes@.to_multiset_ensures();
            old(self).genomes@.to_multiset_ensures();
            assert(self.genomes@.to_multiset().len() == self.genomes@.len());
        }
        let ghost sorted_seq = self.genomes@;
        let last_index = self.genomes.len() - 1;
        let ghost picked = self.genomes@[last_index as int];
        proof {
            assert(exists|i: int|
                0 <= i < old(self).genomes@.len() && (#[trigger] old(self).genomes@[i]).last_fit
                    == picked.last_fit) by {
                assert(old(self).genomes@.to_multiset().count(picked) > 0);
                assert(old(self).genomes@.contains(picked));
                let w = choose|w: int|
                    0 <= w < old(self).genomes@.len() && old(self).genomes@[w] == picked;
                assert((#[trigger] old(self).genomes@[w]).last_fit == picked.last_fit);
            }
        }
        let worst_fit = self.genomes[last_index].get_last_fit();
        proof {
            let w = choose|w: int|
                0 <= w < old(self).genomes@.len() && (#[trigger] old(self).genomes@[w]).last_fit
                    == picked.last_fit;
            assert(i64::MIN <= old(self).fitness_sum - old(self).genomes@[w].last_fit
                <= i64::MAX);
        }
        self.fitness_sum = self.fitness_sum - worst_fit;
        let ghost before_pop = self.genomes@;
        let _ = self.genomes.pop();
        proof {
            before_pop.to_multiset_ensures();
            assert(before_pop.drop_last() =~= before_pop.remove(before_pop.len() - 1));
            assert(before_pop.remove(before_pop.len() - 1).to_multiset() =~= before_pop
                .to_multiset().remove(picked));
            lemma_fit_sum_remove(before_pop, before_pop.len() - 1);
            assert(before_pop.to_multiset() =~= self.genomes@.to_multiset().insert(picked));
            assert forall|i: int| 0 <= i < self.genomes@.len() implies (#[trigger] self
                .genomes@[i]).last_fit <= picked.last_fit by {
                assert(self.genomes@[i] == before_pop[i]);
            }
        }
    }

    /// Whether the members stand in non-increasing fitness order; a single
    /// member is reported as unsorted (no comparison is ever made).
    #[allow(dead_code)]
    fn test_sorted(&self) -> (r: bool)
        requires
            self.genomes@.len() >= 1,
        ensures
            r == (self.genomes@.len() >= 2 && (forall|i: int|
                1 <= i < self.genomes@.len() ==> (#[trigger] self.genomes@[i]).last_fit
                    <= self.genomes@[i - 1].last_fit)),
    {
        let mut prev_genome_fit = self.genomes[0].get_last_fit();
        let mut is_sorted: bool = false;
        let mut i: usize = 1;
        while i < self.genomes.len()
            invariant
                1 <= i <= self.genomes@.len(),
                self.genomes@.len() >= 1,
                prev_genome_fit == self.genomes@[i - 1].last_fit,
                is_sorted == (i >= 2 && self.genomes@[i - 1].last_fit <= self.genomes@[i
                    - 2].last_fit),
                forall|j: int|
                    1 <= j < i ==> (#[trigger] self.genomes@[j]).last_fit <= self.genomes@[j
                        - 1].last_fit,
            decreases self.genomes@.len() - i,
        {
            let current_fit = self.genomes[i].get_last_fit();
            is_sorted = current_fit <= prev_genome_fit;
            prev_genome_fit = current_fit;
            if !is_sorted {
                return false;
            }
            i = i + 1;
        }
        is_sorted
    }
}

} // verus!
