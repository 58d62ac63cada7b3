//! Artifacts: recognising them, reading their structure and comparing it.
pub mod archive;
pub mod elf;
pub mod generic;
pub mod semantic;
