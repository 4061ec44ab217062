//! Rusk - a YAML-based task runner, verified.
//!
//! The library holds the decisions of the task runner: how placeholders in
//! strings are resolved, when a configuration is valid, what a condition
//! comes to, what process a command asks for, and how a task moves through
//! its run and finally items. Every function states what it returns, and
//! Verus proves that it does.
//!
//! The library starts no process and touches no file. Where a run needs the
//! world outside, it says what is to be done, and the caller reports what
//! came of it; see `runner::engine`.

pub mod cli;
pub mod collections;
pub mod config;
pub mod error;
pub mod runner;
pub mod text;

use vstd::prelude::*;

verus! {

/// Current version of Rusk.
pub const VERSION: &'static str = "0.1.0";

} // verus!
