//! The failures that reach the user.

use vstd::prelude::*;
use vstd::string::StringExecFns;

verus! {

/// Why a command failed.
#[derive(Debug)]
pub enum CliError {
    /// The command needs the store at this path, and there is none.
    PathMissing(String),
    /// The store's bytes are not a sequence of whole records.
    CorruptFile,
    /// No stored task has this identifier.
    TaskNotFound(i64),
    /// The first argument names no command.
    InvalidCommand,
    /// The command was given too few arguments.
    InvalidArguments,
    /// An answer or an amount is not of the form asked for.
    InvalidInput(String),
    /// A number could not be read from its digits.
    Parse(String),
}

/// A [`CliError`] with its texts as character sequences.
pub enum CliErrorView {
    PathMissing(Seq<char>),
    CorruptFile,
    TaskNotFound(i64),
    InvalidCommand,
    InvalidArguments,
    InvalidInput(Seq<char>),
    Parse(Seq<char>),
}

impl View for CliError {
    type V = CliErrorView;

    open spec fn view(&self) -> CliErrorView {
        match self {
            CliError::PathMissing(path) => CliErrorView::PathMissing(path@),
            CliError::CorruptFile => CliErrorView::CorruptFile,
            CliError::TaskNotFound(id) => CliErrorView::TaskNotFound(*id),
            CliError::InvalidCommand => CliErrorView::InvalidCommand,
            CliError::InvalidArguments => CliErrorView::InvalidArguments,
            CliError::InvalidInput(message) => CliErrorView::InvalidInput(message@),
            CliError::Parse(message) => CliErrorView::Parse(message@),
        }
    }
}

impl DeepView for CliError {
    type V = CliErrorView;

    open spec fn deep_view(&self) -> CliErrorView {
        self@
    }
}

/// The line that tells the user of `error`.
pub open spec fn message_of(error: CliErrorView) -> Seq<char> {
    match error {
        CliErrorView::PathMissing(path) => "I/O error: Task file "@ + path + " not found"@,
        CliErrorView::CorruptFile => "Invalid file format"@,
        CliErrorView::TaskNotFound(_) => "Task not found"@,
        CliErrorView::InvalidCommand => "Invalid command"@,
        CliErrorView::InvalidArguments => "Invalid arguments"@,
        CliErrorView::InvalidInput(message) => "Invalid input: "@ + message,
        CliErrorView::Parse(message) => "Parse error: "@ + message,
    }
}

/// `r` with the error, if it is one, as its view.
pub open spec fn outcome<T>(r: Result<T, CliError>) -> Result<T, CliErrorView> {
    match r {
        Ok(value) => Ok(value),
        Err(error) => Err(error@),
    }
}

impl CliError {
    /// An [`CliError::InvalidInput`] with the message `text`.
    pub fn input(text: &str) -> (error: Self)
        ensures
            error@ == CliErrorView::InvalidInput(text@),
    {
        CliError::InvalidInput(text.to_owned())
    }

    /// A [`CliError::Parse`] with the message `text`.
    pub fn parse(text: &str) -> (error: Self)
        ensures
            error@ == CliErrorView::Parse(text@),
    {
        CliError::Parse(text.to_owned())
    }

    /// The line that tells the user of this error.
    pub fn message(&self) -> (line: String)
        ensures
            line@ == message_of(self@),
    {
        match self {
            CliError::PathMissing(path) => String::from_str("I/O error: Task file ").concat(
                path.as_str(),
            ).concat(" not found"),
            CliError::CorruptFile => String::from_str("Invalid file format"),
            CliError::TaskNotFound(_) => String::from_str("Task not found"),
            CliError::InvalidCommand => String::from_str("Invalid command"),
            CliError::InvalidArguments => String::from_str("Invalid arguments"),
            CliError::InvalidInput(message) => String::from_str("Invalid input: ").concat(
                message.as_str(),
            ),
            CliError::Parse(message) => String::from_str("Parse error: ").concat(message.as_str()),
        }
    }
}

} // verus!
