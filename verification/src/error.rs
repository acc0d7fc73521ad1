//! The ways in which a run can fail, with the message and the process exit code of each.

use crate::text::followed_by;
use vstd::prelude::*;
use vstd::string::StringExecFns;

verus! {

/// A failure of the run.
#[derive(Debug, Clone, PartialEq, Eq)]
pub enum Error {
    /// The configuration tool could not be started, or did not answer.
    ConfigToolNotFound,
    /// The command failed: what happened, and the exit code where the process gave one.
    CommandExecutionFailed(String, Option<i32>),
    /// The configuration tool did not store a setting.
    ConfigSaveFailed(String),
    /// The configuration tool could not be asked for the settings.
    ConfigReadFailed(String),
    /// Nothing says what to run: the named parameter is missing.
    MissingParameter(String),
    /// An operation of the operating system failed.
    IoError(String),
}

/// What an `Error` holds, as sequences of characters.
pub ghost enum ErrorView {
    ConfigToolNotFound,
    CommandExecutionFailed(Seq<char>, Option<i32>),
    ConfigSaveFailed(Seq<char>),
    ConfigReadFailed(Seq<char>),
    MissingParameter(Seq<char>),
    IoError(Seq<char>),
}

impl View for Error {
    type V = ErrorView;

    open spec fn view(&self) -> ErrorView {
        match self {
            Error::ConfigToolNotFound => ErrorView::ConfigToolNotFound,
            Error::CommandExecutionFailed(msg, code) => ErrorView::CommandExecutionFailed(
                msg@,
                *code,
            ),
            Error::ConfigSaveFailed(msg) => ErrorView::ConfigSaveFailed(msg@),
            Error::ConfigReadFailed(msg) => ErrorView::ConfigReadFailed(msg@),
            Error::MissingParameter(msg) => ErrorView::MissingParameter(msg@),
            Error::IoError(msg) => ErrorView::IoError(msg@),
        }
    }
}

/// The exit code that goes with the failure when the process gave none: it was ended by a
/// signal.
pub const SIGNAL_EXIT_CODE: i32 = 128;

/// The exit code of every failure that is not the command's own.
pub const FAILURE_EXIT_CODE: i32 = 1;

impl ErrorView {
    /// The exit code of the process after this failure: the command's own code where it
    /// gave one, 128 where it gave none, and 1 for every other failure.
    pub open spec fn exit_code(self) -> i32 {
        match self {
            ErrorView::CommandExecutionFailed(_, Some(code)) => code,
            ErrorView::CommandExecutionFailed(_, None) => SIGNAL_EXIT_CODE,
            _ => FAILURE_EXIT_CODE,
        }
    }

    /// The message that reports this failure.
    pub open spec fn message(self) -> Seq<char> {
        match self {
            ErrorView::ConfigToolNotFound => {
                "c2rust-config not found. Please install c2rust-config first."@
            },
            ErrorView::CommandExecutionFailed(msg, _) => "Command execution failed: "@ + msg,
            ErrorView::ConfigSaveFailed(msg) => "Failed to save configuration: "@ + msg,
            ErrorView::ConfigReadFailed(msg) => "Failed to read configuration: "@ + msg,
            ErrorView::MissingParameter(msg) => "Missing required parameter: "@ + msg,
            ErrorView::IoError(msg) => "IO error: "@ + msg,
        }
    }
}

impl Error {
    /// The exit code of the process after this failure: the command's own code where it
    /// gave one, 128 where it gave none, and 1 for every other failure.
    pub fn exit_code(&self) -> (code: i32)
        ensures
            code == self@.exit_code(),
    {
        match self {
            Error::ConfigToolNotFound => FAILURE_EXIT_CODE,
            Error::CommandExecutionFailed(_, Some(code)) => *code,
            Error::CommandExecutionFailed(_, None) => SIGNAL_EXIT_CODE,
            Error::ConfigSaveFailed(_) => FAILURE_EXIT_CODE,
            Error::ConfigReadFailed(_) => FAILURE_EXIT_CODE,
            Error::MissingParameter(_) => FAILURE_EXIT_CODE,
            Error::IoError(_) => FAILURE_EXIT_CODE,
        }
    }

    /// The message that reports this failure.
    pub fn message(&self) -> (text: String)
        ensures
            text@ == self@.message(),
    {
        match self {
            Error::ConfigToolNotFound => String::from_str(
                "c2rust-config not found. Please install c2rust-config first.",
            ),
            Error::CommandExecutionFailed(msg, _) => followed_by(
                "Command execution failed: ",
                msg.as_str(),
            ),
            Error::ConfigSaveFailed(msg) => followed_by(
                "Failed to save configuration: ",
                msg.as_str(),
            ),
            Error::ConfigReadFailed(msg) => followed_by(
                "Failed to read configuration: ",
                msg.as_str(),
            ),
            Error::MissingParameter(msg) => followed_by(
                "Missing required parameter: ",
                msg.as_str(),
            ),
            Error::IoError(msg) => followed_by("IO error: ", msg.as_str()),
        }
    }
}

/// The outcome `r` with its error, if any, as a view.
pub open spec fn outcome_view<T>(r: Result<T, Error>) -> Result<T, ErrorView> {
    match r {
        Ok(t) => Ok(t),
        Err(e) => Err(e@),
    }
}

} // verus!
