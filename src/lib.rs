//! Versioned patch series for git branches: the on-disk version store, the
//! interdiff protocol with its transient branch and worktree, and the cover
//! letter that binds an operator's title and body into a generated series.
pub mod commands;
pub mod cover_letter;
pub mod error;
pub mod run;
pub mod text;
pub mod utils;
pub mod version_store;
pub mod workflow;
