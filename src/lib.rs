//! Structured access to the `git` command line: diff parsing, single-line
//! patch synthesis, outcome classification, conflict detection and rebase
//! planning, all as verified functions over plain values.

pub mod text;
pub mod numeric;
pub mod types;
pub mod diff;
pub mod patch;
pub mod executor;
pub mod conflict;
pub mod rebase;
pub mod staging;
pub mod service;
pub mod history;
pub mod settings;
pub mod commit_message;
pub mod worktree;
