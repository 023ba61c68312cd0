//! Packaging of a source project and its compiled executable into one portable file: the
//! container codec, the archive listing, the process supervisor's and the build
//! orchestrator's decisions, and the execution engine's checks.
pub mod answer;
pub mod archive;
pub mod commands;
pub mod config;
pub mod container;
pub mod edit_loop;
pub mod file_tree;
pub mod listing;
pub mod project;
pub mod run;
pub mod supervisor;
pub mod unpack;
