//! Experiments: planning, running decisions, minimisation, diagnosis and repair.
pub mod compare;
pub mod control;
pub mod ddmin;
pub mod deltas;
pub mod diagnosis;
pub mod fix;
pub mod interventions;
pub mod outcomes;
pub mod patch;
pub mod provenance;
pub mod statistics;
