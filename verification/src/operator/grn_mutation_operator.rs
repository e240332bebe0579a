//! The mutation-operator contract: an application probability, an in-place
//! mutation predicate, and a derived clone-and-mutate step.

use vstd::prelude::*;
use crate::evolver::grn_genome::{genome_eq, GrnGenome};

verus! {

/// A mutation operator: its application probability in thousandths, and a
/// mutation predicate that mutates a genome in place and reports whether it
/// changed anything.  Implementors live outside this crate; they model
/// their effect with `mutation_of`, prove the predicate matches it, and the
/// derived `clone_and_mutate` then returns exactly the mutated clone or the
/// untouched input.
#[allow(non_camel_case_types)]
pub trait grn_mutation_operator {
    /// The operator's abstract effect: the genome it would leave behind,
    /// and whether that is a change.
    spec fn mutation_of(&self, g: GrnGenome) -> (GrnGenome, bool);

    /// The effect depends only on a genome's content, never on the
    /// identity of its backing vectors.
    proof fn mutation_congruence(&self, a: GrnGenome, b: GrnGenome)
        requires
            genome_eq(a, b),
        ensures
            self.mutation_of(a).1 == self.mutation_of(b).1,
            genome_eq(self.mutation_of(a).0, self.mutation_of(b).0),
    ;

    fn get_probability(&self) -> u32;

    fn set_probability(&self);

    /// Mutate the genome in place; the report is honest: when no change is
    /// reported, the genome is exactly as it was.
    fn mutate_by_modifying(&self, a_genome: &mut GrnGenome) -> (r: bool)
        ensures
            *final(a_genome) == self.mutation_of(*old(a_genome)).0,
            r == self.mutation_of(*old(a_genome)).1,
            !r ==> *final(a_genome) == *old(a_genome),
    ;

    /// Clone first, try to mutate the clone in place, and hand back the
    /// mutated clone when a mutation was reported, the untouched input
    /// otherwise.
    fn clone_and_mutate(&self, a_genome: GrnGenome) -> (r: GrnGenome)
        ensures
            self.mutation_of(a_genome).1 ==> genome_eq(r, self.mutation_of(a_genome).0),
            !self.mutation_of(a_genome).1 ==> r == a_genome,
    {
        let mut offspring: GrnGenome = a_genome.snapshot();
        proof {
            self.mutation_congruence(offspring, a_genome);
        }
        if self.mutate_by_modifying(&mut offspring) {
            offspring
        } else {
            a_genome
        }
    }
}

} // verus!
