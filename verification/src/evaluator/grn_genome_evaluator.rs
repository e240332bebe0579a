//! The evaluator contract: a pure map from a genome to a scalar fitness (in
//! `MILLI` units), plus a trivial default implementation.

use vstd::prelude::*;
use crate::evolver::grn_genome::GrnGenome;

verus! {

/// A fitness function over genomes; fitness is a fixed-point value in
/// thousandths.  Implementations are expected to be pure with respect to
/// the genome's content.
pub trait GrnGenomeEvaluator {
    fn evaluate(&self, gene: &GrnGenome) -> i64;
}

/// An evaluator that assigns every genome a fitness of zero.
#[allow(non_camel_case_types)]
#[derive(Clone)]
pub struct defaultEvaluator {
    pub name: String,
}

impl GrnGenomeEvaluator for defaultEvaluator {
    fn evaluate(&self, gene: &GrnGenome) -> (r: i64)
        ensures
            r == 0,
    {
        0
    }
}

impl defaultEvaluator {
    pub fn new() -> (r: Self)
        ensures
            r.name@ == "default"@,
    {
        Self { name: String::from_str("default") }
    }
}

} // verus!
