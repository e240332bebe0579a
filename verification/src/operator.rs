//! Genetic operators: the contract mutation operators implement.

pub mod grn_mutation_operator;
