use coldtrace::cli::{Cli, Command, RunArgs};
use coldtrace::runner::{base_run_id, RunOptions};
use coldtrace::timestamp::TimestampError;

fn run_args(name: Option<&str>, command: &[&str]) -> Cli {
    Cli {
        command: Command::Run(RunArgs {
            name: name.map(|n| n.to_string()),
            command: command.iter().map(|s| s.to_string()).collect(),
        }),
    }
}

#[test]
fn run_subcommand_becomes_run_options() {
    let cli = run_args(Some("torch-import"), &["python3", "-c", "import torch"]);
    let options = RunOptions::for_command(cli.command);
    assert_eq!(options.name.as_deref(), Some("torch-import"));
    assert_eq!(options.command_argv, ["python3", "-c", "import torch"]);
}

#[test]
fn base_run_id_joins_timestamp_and_label() {
    let options = RunOptions::for_command(run_args(None, &["python3", "-c", "print('hello')"]).command);
    assert_eq!(
        base_run_id(&options, 1782094875254).unwrap(),
        "20260622T022115.254Z-python3-print-hello"
    );
    let options = RunOptions::for_command(run_args(Some("torch-import"), &["python3"]).command);
    assert_eq!(
        base_run_id(&options, 1782094875254).unwrap(),
        "20260622T022115.254Z-torch-import"
    );
    assert_eq!(base_run_id(&options, u128::MAX), Err(TimestampError::SecondsOverflow));
}
