//! What to make of a run of the test command.
//!
//! Starting the process and waiting for it is the caller's part. This module says whether
//! a command can be run at all, what to report before and after the run, and what the
//! run's outcome means.

use crate::error::{outcome_view, Error, ErrorView};
use crate::text::{decimal, decimal_string, join, join_from};
use vstd::prelude::*;
use vstd::string::StringExecFns;

verus! {

/// How the attempt to run a command ended.
#[derive(Debug, Clone, PartialEq, Eq)]
pub enum ProcessOutcome {
    /// The process could not be started; the reason.
    SpawnFailed(String),
    /// The process was started, but waiting for it failed; the reason.
    WaitFailed(String),
    /// The process ended, with its exit code, or with none where a signal ended it.
    Exited(Option<i32>),
}

/// What a `ProcessOutcome` holds, as sequences of characters.
pub ghost enum OutcomeView {
    SpawnFailed(Seq<char>),
    WaitFailed(Seq<char>),
    Exited(Option<i32>),
}

impl View for ProcessOutcome {
    type V = OutcomeView;

    open spec fn view(&self) -> OutcomeView {
        match self {
            ProcessOutcome::SpawnFailed(reason) => OutcomeView::SpawnFailed(reason@),
            ProcessOutcome::WaitFailed(reason) => OutcomeView::WaitFailed(reason@),
            ProcessOutcome::Exited(code) => OutcomeView::Exited(*code),
        }
    }
}

/// The command as it is shown: the program, a space, and the arguments with a space
/// between each two. An empty command shows as nothing.
pub open spec fn command_line(command: Seq<Seq<char>>) -> Seq<char> {
    if command.len() == 0 {
        Seq::empty()
    } else {
        command[0] + " "@ + join(command.skip(1), " "@)
    }
}

/// The failure of a command that holds no token.
pub open spec fn no_command() -> ErrorView {
    ErrorView::CommandExecutionFailed("No command provided"@, None)
}

/// What the outcome of running `command` means. An empty command fails whatever the
/// outcome says. Exit code 0 is success; another exit code is a failure that carries the
/// code; an end by signal, and a process that could not be started or waited for, are
/// failures that carry none.
pub open spec fn execution_result(command: Seq<Seq<char>>, outcome: OutcomeView) -> Result<
    (),
    ErrorView,
> {
    let line = command_line(command);
    if command.len() == 0 {
        Err(no_command())
    } else {
        match outcome {
            OutcomeView::SpawnFailed(reason) => Err(
                ErrorView::CommandExecutionFailed(
                    "Failed to execute command '"@ + line + "': "@ + reason,
                    None,
                ),
            ),
            OutcomeView::WaitFailed(reason) => Err(
                ErrorView::CommandExecutionFailed(
                    "Failed to wait for command '"@ + line + "': "@ + reason,
                    None,
                ),
            ),
            OutcomeView::Exited(Some(code)) => if code == 0 {
                Ok(())
            } else {
                Err(
                    ErrorView::CommandExecutionFailed(
                        "Command '"@ + line + "' failed with exit code "@ + decimal(code as int),
                        Some(code),
                    ),
                )
            },
            OutcomeView::Exited(None) => Err(
                ErrorView::CommandExecutionFailed(
                    "Command '"@ + line + "' was terminated by signal"@,
                    None,
                ),
            ),
        }
    }
}

/// What is reported before `command` runs in `dir`: two lines.
pub open spec fn start_report_text(command: Seq<Seq<char>>, dir: Seq<char>) -> Seq<char> {
    "Executing command: "@ + command_line(command) + "\nIn directory: "@ + dir + "\n"@
}

/// What is reported after the process ended: an empty line, then the exit code or the
/// remark that a signal ended it.
pub open spec fn exit_report_text(code: Option<i32>) -> Seq<char> {
    match code {
        Some(code) => "\nExit code: "@ + decimal(code as int) + "\n"@,
        None => "\nProcess terminated by signal\n"@,
    }
}

/// Whether `command` can be run: it must hold the program, at least.
pub fn check_command(command: &Vec<String>) -> (r: Result<(), Error>)
    ensures
        r is Ok <==> command.len() > 0,
        r matches Err(e) ==> e@ == no_command(),
{
    if command.len() == 0 {
        Err(Error::CommandExecutionFailed(String::from_str("No command provided"), None))
    } else {
        Ok(())
    }
}

/// The command as it is shown.
pub fn command_line_of(command: &Vec<String>) -> (line: String)
    ensures
        line@ == command_line(command.deep_view()),
{
    if command.len() == 0 {
        return String::new();
    }
    let mut line = command[0].clone();
    line.append(" ");
    let args = join_from(command, 1, " ");
    line.append(args.as_str());
    line
}

/// What is reported before `command` runs in `dir`.
pub fn start_report(command: &Vec<String>, dir: &str) -> (report: String)
    ensures
        report@ == start_report_text(command.deep_view(), dir@),
{
    let line = command_line_of(command);
    let mut report = String::from_str("Executing command: ");
    report.append(line.as_str());
    report.append("\nIn directory: ");
    report.append(dir);
    report.append("\n");
    report
}

/// What is reported after the process ended.
pub fn exit_report(code: Option<i32>) -> (report: String)
    ensures
        report@ == exit_report_text(code),
{
    match code {
        Some(code) => {
            let number = decimal_string(code);
            let mut report = String::from_str("\nExit code: ");
            report.append(number.as_str());
            report.append("\n");
            report
        },
        None => String::from_str("\nProcess terminated by signal\n"),
    }
}

/// What the outcome of running `command` means: success exactly where the command holds a
/// token and the process ended with exit code 0, and otherwise the failure that says what
/// happened and carries the exit code, if there was one.
pub fn execution_outcome(command: &Vec<String>, outcome: &ProcessOutcome) -> (r: Result<
    (),
    Error,
>)
    ensures
        outcome_view(r) == execution_result(command.deep_view(), outcome@),
        r is Ok <==> command.len() > 0 && outcome@ == OutcomeView::Exited(Some(0)),
        r matches Err(e) ==> e@.exit_code() != 0,
{
    if command.len() == 0 {
        return Err(Error::CommandExecutionFailed(String::from_str("No command provided"), None));
    }
    let line = command_line_of(command);
    match outcome {
        ProcessOutcome::SpawnFailed(reason) => {
            let mut msg = String::from_str("Failed to execute command '");
            msg.append(line.as_str());
            msg.append("': ");
            msg.append(reason.as_str());
            Err(Error::CommandExecutionFailed(msg, None))
        },
        ProcessOutcome::WaitFailed(reason) => {
            let mut msg = String::from_str("Failed to wait for command '");
            msg.append(line.as_str());
            msg.append("': ");
            msg.append(reason.as_str());
            Err(Error::CommandExecutionFailed(msg, None))
        },
        ProcessOutcome::Exited(Some(code)) => {
            if *code == 0 {
                Ok(())
            } else {
                let number = decimal_string(*code);
                let mut msg = String::from_str("Command '");
                msg.append(line.as_str());
                msg.append("' failed with exit code ");
                msg.append(number.as_str());
                Err(Error::CommandExecutionFailed(msg, Some(*code)))
            }
        },
        ProcessOutcome::Exited(None) => {
            let mut msg = String::from_str("Command '");
            msg.append(line.as_str());
            msg.append("' was terminated by signal");
            Err(Error::CommandExecutionFailed(msg, None))
        },
    }
}

} // verus!
