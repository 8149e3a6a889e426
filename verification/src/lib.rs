//! Repository bookkeeping for git checkouts kept under `base/host/owner/repo`.
pub mod text;
pub mod git;
pub mod paths;
pub mod repo_source;
pub mod table;
pub mod config;
pub mod task;
pub mod hook;
pub mod numbers;
pub mod color;
pub mod cmd;
pub mod laws;
