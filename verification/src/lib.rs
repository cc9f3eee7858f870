//! Core of an online judge: it plans a submission's test set, models the
//! resource-bounded sandbox that runs untrusted code, drives the judging
//! state machine (compile, run each test, compare output), and reduces the
//! per-test outcomes into one verdict.
use vstd::prelude::*;

pub mod judger;
pub mod utils;
pub mod web;

verus! {

/// Top-level configuration of the judge service.
#[derive(Debug, Clone)]
pub struct Config {
    pub web: ConfigWeb,
    pub db: ConfigDb,
    pub judger: ConfigJudger,
}

/// Where the HTTP frontend listens and serves from.
#[derive(Debug, Clone)]
pub struct ConfigWeb {
    pub root: String,
    pub host: String,
    pub port: u16,
}

/// How to reach the database that stores contests, problems and records.
#[derive(Debug, Clone)]
pub struct ConfigDb {
    pub host: String,
    pub username: String,
    pub password: String,
    pub database: String,
}

/// Judge-specific settings: the problem store root, sandbox limits and the
/// two fixed compiler executables.
#[derive(Debug, Clone)]
pub struct ConfigJudger {
    pub root: String,
    pub stack_limit: u64,
    pub output_limit: u64,
    pub compiler_c: String,
    pub compiler_cxx: String,
}

/// Verbosity levels selectable on the command line.
#[derive(Debug, Clone, Copy, PartialEq, Eq, Structural)]
pub enum ArgsLevel {
    Trace,
    Debug,
    Info,
    Warn,
    Error,
}

} // verus!
