//! Decision logic of a tool that finds and removes stale Git worktrees:
//! parsing of durations, configuration, the rules that select, protect and
//! report worktrees, and the text report.

pub mod cli;
pub mod config;
pub mod duration;
pub mod git;
pub mod globs;
pub mod report;
pub mod sweep;
pub mod text;
