//! The command line of `coldtrace`: `coldtrace run [--name NAME] -- CMD...`.
//! The parser itself lives with the program; these are the values it yields.
use vstd::prelude::*;

verus! {

/// A parsed command line.
#[derive(Debug)]
pub struct Cli {
    pub command: Command,
}

/// The subcommands.
#[derive(Debug)]
pub enum Command {
    /// Run a child command and record it.
    Run(RunArgs),
}

/// The arguments of `run`.
#[derive(Debug)]
pub struct RunArgs {
    /// An explicit run name (`--name`).
    pub name: Option<String>,
    /// The child command and its arguments, everything after `--`.
    pub command: Vec<String>,
}

} // verus!
