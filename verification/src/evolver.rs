//! The evolvable encoding: genes, genomes, and the species clustering that
//! consumes the genome distance metric.

pub mod grn_gene;
pub mod grn_genome;
pub mod rng;
pub mod species;
