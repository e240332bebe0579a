//! The sine-tracking experiment's evaluator shell: it carries the
//! experiment's wiring counts; its fitness here is the neutral zero (the
//! scoring against a target signal is driven from outside).

use vstd::prelude::*;
use crate::evaluator::grn_genome_evaluator::GrnGenomeEvaluator;
use crate::evolver::grn_genome::GrnGenome;

verus! {

/// Evaluator for the sine experiment: how many model inputs and outputs the
/// experiment wires, and how many evaluations were run.
#[derive(Clone)]
pub struct SineEvaluator {
    pub num_grn_inputs: i32,
    pub num_grn_outputs: i32,
    pub num_evaluation: i32,
    pub name: String,
}

impl SineEvaluator {
    pub fn new(input: i32, output: i32) -> (r: Self)
        ensures
            r.num_grn_inputs == input,
            r.num_grn_outputs == output,
            r.num_evaluation == 0,
            r.name@ == "sine experience"@,
    {
        Self {
            num_grn_inputs: input,
            num_grn_outputs: output,
            num_evaluation: 0,
            name: String::from_str("sine experience"),
        }
    }
}

impl GrnGenomeEvaluator for SineEvaluator {
    fn evaluate(&self, gene: &GrnGenome) -> (r: i64)
        ensures
            r == 0,
    {
        gene.has_been_evaluated();
        0
    }
}

} // verus!
