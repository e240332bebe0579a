//! The GRN phenotype: proteins and the dynamical model that steps them.

pub mod grn_model;
pub mod grn_protein;
