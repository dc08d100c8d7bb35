//! The kinds of failure that end a run.

use vstd::prelude::*;

verus! {

/// A fatal failure. None is retried or recovered from.
#[derive(Clone, Copy, Debug, PartialEq, Eq, Structural)]
pub enum Failure {
    /// The credentials file is missing or cannot be read or written.
    FileNotFound,
    /// The credentials file or an answer of the `aws` command is malformed.
    ParseError,
    /// The `aws` command could not be launched.
    CommandExecutionError,
    /// The terminal cannot be switched to interactive input.
    TerminalUnavailable,
}

impl Failure {
    /// The text of the diagnostic for this failure.
    pub open spec fn spec_message(self) -> Seq<char> {
        match self {
            Failure::FileNotFound => "credentials file not found"@,
            Failure::ParseError => "malformed credentials file or command output"@,
            Failure::CommandExecutionError => "the aws command could not be run"@,
            Failure::TerminalUnavailable => "the terminal is not interactive"@,
        }
    }

    /// The diagnostic printed when a run ends with this failure.
    pub fn message(&self) -> (text: String)
        ensures
            text@ == self.spec_message(),
    {
        match self {
            Failure::FileNotFound => "credentials file not found".to_owned(),
            Failure::ParseError => "malformed credentials file or command output".to_owned(),
            Failure::CommandExecutionError => "the aws command could not be run".to_owned(),
            Failure::TerminalUnavailable => "the terminal is not interactive".to_owned(),
        }
    }
}

} // verus!
