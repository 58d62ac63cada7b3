pub mod artifact;
pub mod bytes;
pub mod cli;
pub mod compat;
pub mod config;
pub mod digest;
pub mod doctor;
pub mod engine;
pub mod environment;
pub mod evidence;
pub mod init;
pub mod json;
pub mod laws;
pub mod model;
pub mod numbers;
pub mod ordering;
pub mod output_discovery;
pub mod readback;
pub mod report;
pub mod schema;
pub mod sorting;
pub mod string_map;
pub mod text;
pub mod toml_tree;
