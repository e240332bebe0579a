//! Fitness evaluators: the capability interface species call through, and
//! its built-in implementations.

pub mod grn_genome_evaluator;
pub mod grn_sine_evaluator;
