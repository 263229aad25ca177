//! Decisions behind `cargo multivers`, a tool that builds one package once per
//! CPU of a target and bundles the builds into a single executable.

pub mod builds;
pub mod cargo;
pub mod cli;
pub mod error;
pub mod format;
pub mod launch;
pub mod lines;
pub mod outcome;
pub mod pack;
pub mod plan;
pub mod print;
pub mod runner;
pub mod rustc;
pub mod session;
pub mod target;
pub mod text;
pub mod trace;
