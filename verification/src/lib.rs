//! Core of a gene-regulatory-network (GRN) neuroevolution engine.
//!
//! A genome encodes virtual proteins wired into input, output and regulatory
//! roles; its phenotype is a discrete dynamical system of protein
//! concentrations.  Genomes are compared through a topology-free distance
//! metric, and species cluster genomes whose distance to a representative
//! stays under a threshold.
//!
//! All real-valued quantities are carried as fixed-point integers so that
//! every computation here is exact and verified: see [`fixed`] for the scales.

pub mod evaluator;
pub mod evolver;
pub mod fixed;
pub mod grn;
pub mod operator;
