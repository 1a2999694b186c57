//! The ways in which asking the toolchain for a configuration can fail.

use crate::key::Key;
use vstd::prelude::*;
use vstd::string::*;

verus! {

/// One of the two streams that the toolchain writes to.
#[derive(Clone, Copy, Debug, PartialEq, Eq, Hash, Structural)]
pub enum Stream {
    Stdout,
    Stderr,
}

/// Why no record could be produced.
#[derive(Clone, Debug, PartialEq, Eq)]
pub enum Error {
    /// The toolchain could not be started. Holds the operating system's account of why.
    Spawn(String),
    /// The toolchain ran and reported failure. Holds what it wrote to standard error, unchanged.
    Toolchain(String),
    /// What the toolchain wrote to the named stream is not UTF-8.
    Encoding(Stream),
    /// The toolchain's output gives no value for the named key, which a record must have.
    MissingField(Key),
}

/// What an `Error` stands for, with each text as a sequence of characters.
pub enum ErrorView {
    Spawn(Seq<char>),
    Toolchain(Seq<char>),
    Encoding(Stream),
    MissingField(Key),
}

impl View for Error {
    type V = ErrorView;

    open spec fn view(&self) -> ErrorView {
        match self {
            Error::Spawn(reason) => ErrorView::Spawn(reason@),
            Error::Toolchain(stderr) => ErrorView::Toolchain(stderr@),
            Error::Encoding(stream) => ErrorView::Encoding(*stream),
            Error::MissingField(key) => ErrorView::MissingField(*key),
        }
    }
}

impl ErrorView {
    /// The error in words. A missing key is named between backticks; the toolchain's own
    /// words are passed on as they are.
    pub open spec fn message(self) -> Seq<char> {
        match self {
            ErrorView::Spawn(reason) => reason,
            ErrorView::Toolchain(stderr) => stderr,
            ErrorView::Encoding(Stream::Stdout) => "standard output is not valid UTF-8"@,
            ErrorView::Encoding(Stream::Stderr) => "standard error is not valid UTF-8"@,
            ErrorView::MissingField(key) => "`"@ + key.spec_name() + "` is missing"@,
        }
    }
}

impl Error {
    /// The error in words.
    pub fn message(&self) -> (text: String)
        ensures
            text@ == self@.message(),
    {
        match self {
            Error::Spawn(reason) => reason.clone(),
            Error::Toolchain(stderr) => stderr.clone(),
            Error::Encoding(Stream::Stdout) => String::from_str(
                "standard output is not valid UTF-8",
            ),
            Error::Encoding(Stream::Stderr) => String::from_str(
                "standard error is not valid UTF-8",
            ),
            Error::MissingField(key) => {
                let mut text = String::from_str("`");
                text.append(key.name());
                text.append("` is missing");
                text
            },
        }
    }
}

} // verus!
