//! What the operations of the library are for: laws over their inputs and results.
pub mod archive_changes;
pub mod archive_patches;
pub mod archives;
pub mod artifacts;
pub mod builds;
pub mod checks;
pub mod comparison;
pub mod configuration;
pub mod contents;
pub mod diagnoses;
pub mod discovery;
pub mod environments;
pub mod evidence;
pub mod executables;
pub mod files;
pub mod fixes;
pub mod migration;
pub mod patches;
pub mod plans;
pub mod projects;
pub mod provenance;
pub mod readiness;
pub mod reports;
pub mod texts;
pub mod trials;
pub mod wording;
