//! The command line: what each subcommand is given.

use vstd::prelude::*;

verus! {

/// The arguments of `apitester test`.
#[derive(Debug, Clone)]
pub struct TestArgs {
    /// Path to the test configuration YAML file.
    pub config: String,
    /// Run requests in parallel.
    pub parallel: bool,
    /// Output format: terminal, json, tap.
    pub output: String,
    /// Enable verbose output.
    pub verbose: bool,
}

/// The arguments of `apitester load`.
#[derive(Debug, Clone)]
pub struct LoadArgs {
    /// Path to the test configuration YAML file.
    pub config: String,
    /// Number of concurrent requests (overrides config).
    pub concurrency: Option<usize>,
    /// Duration of the load test (overrides config).
    pub duration: Option<String>,
    /// Output format: terminal, json, tap.
    pub output: String,
    /// Enable verbose output.
    pub verbose: bool,
}

/// The arguments of `apitester run`: a functional test, then a load test.
#[derive(Debug, Clone)]
pub struct RunArgs {
    /// Path to the test configuration YAML file.
    pub config: String,
    /// Run requests in parallel.
    pub parallel: bool,
    /// Output format: terminal, json, tap.
    pub output: String,
    /// Enable verbose output.
    pub verbose: bool,
}

/// The subcommands.
#[derive(Debug, Clone)]
pub enum Commands {
    Test(TestArgs),
    Load(LoadArgs),
    Run(RunArgs),
}

/// A whole command line.
#[derive(Debug, Clone)]
pub struct Cli {
    pub command: Commands,
}

/// What a command asks for: the configuration to read, whether to run the
/// functional test (and whether in parallel), whether to run the load test
/// after it, the overrides of the load settings, and the output format of
/// the reports.
#[derive(Debug, Clone)]
pub struct Plan {
    pub config: String,
    pub functional: bool,
    pub parallel: bool,
    pub load: bool,
    /// The concurrency to use in place of the configured one.
    pub concurrency: Option<usize>,
    /// The duration text to use in place of the configured duration.
    pub duration: Option<String>,
    pub output: String,
}

/// A copy of an optional text.
fn copy_text(t: &Option<String>) -> (res: Option<String>)
    ensures
        match (res, *t) {
            (Some(a), Some(b)) => a@ == b@,
            (None, None) => true,
            _ => false,
        },
{
    match t {
        Some(s) => Some(s.clone()),
        None => None,
    }
}

impl Commands {
    /// The steps of the command: `test` runs the functional test, `load` the
    /// load test, and `run` the functional test and then the load test; each
    /// reads the configuration given and reports in the output format given.
    /// Only `load` overrides the configured concurrency and duration, with
    /// those it was given.
    pub fn plan(&self) -> (res: Plan)
        ensures
            match self {
                Commands::Test(a) => res.config@ == a.config@ && res.functional && !res.load
                    && res.parallel == a.parallel && res.output@ == a.output@ && res.concurrency is None
                    && res.duration is None,
                Commands::Load(a) => res.config@ == a.config@ && !res.functional && res.load
                    && !res.parallel && res.output@ == a.output@ && res.concurrency == a.concurrency
                    && match (res.duration, a.duration) {
                    (Some(x), Some(y)) => x@ == y@,
                    (None, None) => true,
                    _ => false,
                },
                Commands::Run(a) => res.config@ == a.config@ && res.functional && res.load
                    && res.parallel == a.parallel && res.output@ == a.output@ && res.concurrency is None
                    && res.duration is None,
            },
    {
        match self {
            Commands::Test(a) => Plan {
                config: a.config.clone(),
                functional: true,
                parallel: a.parallel,
                load: false,
                concurrency: None,
                duration: None,
                output: a.output.clone(),
            },
            Commands::Load(a) => Plan {
                config: a.config.clone(),
                functional: false,
                parallel: false,
                load: true,
                concurrency: a.concurrency,
                duration: copy_text(&a.duration),
                output: a.output.clone(),
            },
            Commands::Run(a) => Plan {
                config: a.config.clone(),
                functional: true,
                parallel: a.parallel,
                load: true,
                concurrency: None,
                duration: None,
                output: a.output.clone(),
            },
        }
    }
}

} // verus!
