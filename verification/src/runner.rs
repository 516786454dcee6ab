//! What a direct run is asked to do, and the run id it is filed under.
use vstd::prelude::*;

use crate::cli::Command;
use crate::label::{run_label, run_label_of};
use crate::text::{opt_string_view, string_views};
use crate::timestamp::{run_id, run_stamp, seconds_fit, within_calendar, TimestampError, MAX_UNIX_SECONDS};

verus! {

/// A request to run a child command.
#[derive(Debug)]
pub struct RunOptions {
    /// An explicit run name.
    pub name: Option<String>,
    /// The child command and its arguments.
    pub command_argv: Vec<String>,
}

impl RunOptions {
    /// The request that a parsed subcommand makes.
    pub fn for_command(command: Command) -> (r: RunOptions)
        ensures
            match command {
                Command::Run(args) => r.name == args.name && r.command_argv == args.command,
            },
    {
        match command {
            Command::Run(args) => RunOptions { name: args.name, command_argv: args.command },
        }
    }

    /// The label of this run.
    pub open spec fn label(&self) -> Seq<char> {
        run_label_of(opt_string_view(self.name), string_views(self.command_argv@))
    }
}

/// The run id of a run that started at `started_unix_ms`: the UTC timestamp
/// of the start, a dash and the run's label. This is the name of the run
/// directory unless another run already took it.
pub fn base_run_id(options: &RunOptions, started_unix_ms: u128) -> (r: Result<
    String,
    TimestampError,
>)
    ensures
        (r matches Err(TimestampError::SecondsOverflow)) == !seconds_fit(started_unix_ms),
        (r matches Err(TimestampError::OutOfRange)) == (seconds_fit(started_unix_ms)
            && started_unix_ms / 1000 > MAX_UNIX_SECONDS),
        r matches Ok(id) ==> id@ == run_stamp(started_unix_ms) + seq!['-'] + options.label(),
        within_calendar(started_unix_ms) ==> r is Ok,
{
    let name = match &options.name {
        Some(n) => Some(n.as_str()),
        None => None,
    };
    let label = run_label(name, options.command_argv.as_slice());
    run_id(started_unix_ms, label.as_str())
}

} // verus!
