//! Step-based conventions for coding-agent workflows: configuration
//! validation, step resolution from trigger artifacts, and the decisions of
//! each command, with their contracts proved by Verus.
pub mod commands;
pub mod config;
pub mod config_dir;
pub mod errors;
pub mod format;
pub mod git;
pub mod laws;
pub mod output;
pub mod resolve;
pub mod scan;
pub mod search;
pub mod text;
