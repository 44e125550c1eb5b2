//! The ways the shell can fail.
use vstd::prelude::*;
use crate::shell_command::{CommandView, ShellCommand};

verus! {

/// An operating-system error, carried through the library untouched.
#[verifier::external_type_specification]
#[verifier::external_body]
pub struct ExIoError(std::io::Error);

/// The shell's errors. Variants that hold a `String` come from parsing;
/// variants that hold a `ShellCommand` come from execution.
#[derive(Debug)]
pub enum ShellError {
    /// An underlying filesystem failure.
    IoError(std::io::Error),
    /// A stage between pipes was empty or blank, e.g. `cat file.txt | |`.
    EmptyCommandInPipe(String),
    /// A known command, whose name this holds, was given the wrong number of arguments.
    KnownCommandWrongArgs(String),
    /// The first token of a stage, which names no command.
    UnknownCommand(String),
    /// A stage that needs piped input was run without a left stage.
    ExpectedPipeInput(ShellCommand),
    /// Input was piped into a stage that already had its content.
    UnexpectedPipeInput(ShellCommand),
    /// Input was piped into a stage that cannot take any.
    PipeInputNotAccepted(ShellCommand),
    /// The left stage produced no output for a stage that needs some.
    NoInputForPipe(ShellCommand),
    /// The other end of a streaming connector is gone.
    BrokenPipe,
}

/// The mathematical value of a `ShellError`.
pub enum ErrorView {
    IoError(std::io::Error),
    EmptyCommandInPipe(Seq<char>),
    KnownCommandWrongArgs(Seq<char>),
    UnknownCommand(Seq<char>),
    ExpectedPipeInput(CommandView),
    UnexpectedPipeInput(CommandView),
    PipeInputNotAccepted(CommandView),
    NoInputForPipe(CommandView),
    BrokenPipe,
}

impl View for ShellError {
    type V = ErrorView;

    open spec fn view(&self) -> ErrorView {
        match self {
            ShellError::IoError(e) => ErrorView::IoError(*e),
            ShellError::EmptyCommandInPipe(s) => ErrorView::EmptyCommandInPipe(s@),
            ShellError::KnownCommandWrongArgs(s) => ErrorView::KnownCommandWrongArgs(s@),
            ShellError::UnknownCommand(s) => ErrorView::UnknownCommand(s@),
            ShellError::ExpectedPipeInput(c) => ErrorView::ExpectedPipeInput(c@),
            ShellError::UnexpectedPipeInput(c) => ErrorView::UnexpectedPipeInput(c@),
            ShellError::PipeInputNotAccepted(c) => ErrorView::PipeInputNotAccepted(c@),
            ShellError::NoInputForPipe(c) => ErrorView::NoInputForPipe(c@),
            ShellError::BrokenPipe => ErrorView::BrokenPipe,
        }
    }
}

impl From<std::io::Error> for ShellError {
    fn from(error: std::io::Error) -> (r: Self)
        ensures
            r == ShellError::IoError(error),
    {
        ShellError::IoError(error)
    }
}

impl vstd::std_specs::convert::FromSpecImpl<std::io::Error> for ShellError {
    open spec fn obeys_from_spec() -> bool {
        true
    }

    open spec fn from_spec(v: std::io::Error) -> Self {
        ShellError::IoError(v)
    }
}

} // verus!
