//! The errors that scaffolding can end in.

use vstd::prelude::*;
use crate::text::{append_str, chars_of, text_of};

verus! {

/// What went wrong, by kind, each with its message.
#[derive(Debug, Clone, PartialEq, Eq, PartialOrd, Ord)]
pub enum Error {
    /// An outside command ended with a failure that stops the run.
    ShellCommandError(String),
    /// The file system refused something.
    IOError(String),
    /// A value could not be written down.
    SerializationError(String),
    /// A dependency or an argument could not be read.
    ParseError(String),
    /// The template engine failed.
    TemplateError(String),
    /// The receipt log is corrupt.
    JsonError(String),
    /// Anything else.
    RuntimeError(String),
}

/// The outcome of a run: the configuration it ran with and, where it
/// failed, the error.
#[derive(Debug, Clone)]
pub enum ExecutionResult<T> {
    /// The run went through.
    Done(T),
    /// The run failed with the error.
    Failed(T, Error),
}

/// What an error holds: the name of its kind, and its message.
pub struct ErrorView {
    pub kind: Seq<char>,
    pub message: Seq<char>,
}

impl View for Error {
    type V = ErrorView;

    open spec fn view(&self) -> ErrorView {
        ErrorView { kind: self.kind(), message: self.message() }
    }
}

impl Error {
    /// The name of the kind.
    pub open spec fn kind(self) -> Seq<char> {
        match self {
            Error::ShellCommandError(_) => "ShellCommandError"@,
            Error::IOError(_) => "IOError"@,
            Error::SerializationError(_) => "SerializationError"@,
            Error::ParseError(_) => "ParseError"@,
            Error::TemplateError(_) => "TemplateError"@,
            Error::JsonError(_) => "JsonError"@,
            Error::RuntimeError(_) => "RuntimeError"@,
        }
    }

    /// The message carried.
    pub open spec fn message(self) -> Seq<char> {
        match self {
            Error::ShellCommandError(m) => m@,
            Error::IOError(m) => m@,
            Error::SerializationError(m) => m@,
            Error::ParseError(m) => m@,
            Error::TemplateError(m) => m@,
            Error::JsonError(m) => m@,
            Error::RuntimeError(m) => m@,
        }
    }

    /// What the error prints as: its kind, a colon and a space, its message.
    pub open spec fn shown(self) -> Seq<char> {
        self.kind() + ": "@ + self.message()
    }

    /// The name of the error's kind.
    pub fn variant(&self) -> (r: String)
        ensures
            r@ == self.kind(),
    {
        let name = match self {
            Error::ShellCommandError(_) => "ShellCommandError",
            Error::IOError(_) => "IOError",
            Error::SerializationError(_) => "SerializationError",
            Error::ParseError(_) => "ParseError",
            Error::TemplateError(_) => "TemplateError",
            Error::JsonError(_) => "JsonError",
            Error::RuntimeError(_) => "RuntimeError",
        };
        text_of(&chars_of(name))
    }

    /// The error as a line of text: `<kind>: <message>`.
    pub fn to_string(&self) -> (r: String)
        ensures
            r@ == self.shown(),
    {
        let kind = self.variant();
        let mut out = chars_of(kind.as_str());
        append_str(&mut out, ": ");
        match self {
            Error::ShellCommandError(m) => append_str(&mut out, m.as_str()),
            Error::IOError(m) => append_str(&mut out, m.as_str()),
            Error::SerializationError(m) => append_str(&mut out, m.as_str()),
            Error::ParseError(m) => append_str(&mut out, m.as_str()),
            Error::TemplateError(m) => append_str(&mut out, m.as_str()),
            Error::JsonError(m) => append_str(&mut out, m.as_str()),
            Error::RuntimeError(m) => append_str(&mut out, m.as_str()),
        }
        text_of(&out)
    }
}

} // verus!
