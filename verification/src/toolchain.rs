//! The exchange with the toolchain: what to run, and what to make of what it wrote.
//!
//! Running the command is left to the caller. This module says which command to run and
//! turns the exit status and the two captured streams into a record or an error.

use crate::error::{Error, ErrorView, Stream};
use crate::record::{outcome, Cfg, CfgView};
use std::string::FromUtf8Error;
use vstd::prelude::*;
use vstd::string::*;
use vstd::utf8::{decode_utf8, valid_utf8};

verus! {

/// The program that is run where the caller names no other.
pub const DEFAULT_TOOLCHAIN: &'static str = "rustc";

/// The environment variable by which a build names the toolchain to run.
pub const TOOLCHAIN_VARIABLE: &'static str = "RUSTC";

/// A command line: the program to run and the arguments to hand to it.
#[derive(Clone, Debug, PartialEq, Eq)]
pub struct Invocation {
    pub program: String,
    pub args: Vec<String>,
}

/// What an `Invocation` stands for.
pub struct InvocationView {
    pub program: Seq<char>,
    pub args: Seq<Seq<char>>,
}

impl View for Invocation {
    type V = InvocationView;

    open spec fn view(&self) -> InvocationView {
        InvocationView { program: self.program@, args: self.args.deep_view() }
    }
}

/// What a finished run of the toolchain left behind.
#[derive(Clone, Debug, PartialEq, Eq)]
pub struct Output {
    /// Whether the toolchain reported success, that is, exited with status zero.
    pub success: bool,
    /// The bytes it wrote to standard output.
    pub stdout: Vec<u8>,
    /// The bytes it wrote to standard error.
    pub stderr: Vec<u8>,
}

/// The text that `bytes` encode in UTF-8, if they encode one.
pub open spec fn decoded(bytes: Seq<u8>) -> Option<Seq<char>> {
    if valid_utf8(bytes) {
        Some(decode_utf8(bytes))
    } else {
        None
    }
}

/// The error type of `String::from_utf8`. Nothing is read from it.
#[verifier::external_type_specification]
#[verifier::external_body]
pub struct ExFromUtf8Error(FromUtf8Error);

/// `String::from_utf8` of the standard library. It succeeds exactly on valid UTF-8, and the
/// string it then returns holds the characters that the bytes encode.
pub assume_specification[ String::from_utf8 ](vec: Vec<u8>) -> (text: Result<
    String,
    FromUtf8Error,
>)
    ensures
        text is Ok <==> valid_utf8(vec@),
        text matches Ok(string) ==> string@ == decode_utf8(vec@),
;

impl Invocation {
    /// The command line that asks `toolchain` for the configuration of `target`.
    pub open spec fn spec_new(toolchain: Option<Seq<char>>, target: Seq<char>) -> InvocationView {
        InvocationView {
            program: match toolchain {
                Some(program) => program,
                None => DEFAULT_TOOLCHAIN@,
            },
            args: seq!["--target"@, target, "--print"@, "cfg"@],
        }
    }

    /// Builds the command line that asks for the configuration of `target`. The program is
    /// `toolchain` where one is given, taken as it stands, and `DEFAULT_TOOLCHAIN` otherwise.
    pub fn new(toolchain: Option<&str>, target: &str) -> (invocation: Invocation)
        ensures
            invocation@ == Invocation::spec_new(
                match toolchain {
                    Some(program) => Some(program@),
                    None => None,
                },
                target@,
            ),
    {
        let program = match toolchain {
            Some(program) => String::from_str(program),
            None => String::from_str(DEFAULT_TOOLCHAIN),
        };
        let mut args: Vec<String> = Vec::new();
        args.push(String::from_str("--target"));
        args.push(String::from_str(target));
        args.push(String::from_str("--print"));
        args.push(String::from_str("cfg"));
        assert(args.deep_view() =~= seq!["--target"@, target@, "--print"@, "cfg"@]);
        Invocation { program, args }
    }
}

impl Cfg {
    /// What a run of the toolchain amounts to. A run that reported failure gives the text of
    /// its standard error as the error; a run that reported success gives the record that its
    /// standard output describes. Either stream must be UTF-8 to be read.
    pub open spec fn spec_from_output(success: bool, stdout: Seq<u8>, stderr: Seq<u8>) -> Result<
        CfgView,
        ErrorView,
    > {
        if !success {
            match decoded(stderr) {
                Some(text) => Err(ErrorView::Toolchain(text)),
                None => Err(ErrorView::Encoding(Stream::Stderr)),
            }
        } else {
            match decoded(stdout) {
                Some(text) => Cfg::spec_parse(text),
                None => Err(ErrorView::Encoding(Stream::Stdout)),
            }
        }
    }

    /// Turns what a run of the toolchain left behind into a record or an error.
    pub fn from_output(output: Output) -> (result: Result<Cfg, Error>)
        ensures
            outcome(result) == Cfg::spec_from_output(
                output.success,
                output.stdout@,
                output.stderr@,
            ),
    {
        if !output.success {
            match String::from_utf8(output.stderr) {
                Ok(text) => Err(Error::Toolchain(text)),
                Err(_) => Err(Error::Encoding(Stream::Stderr)),
            }
        } else {
            match String::from_utf8(output.stdout) {
                Ok(text) => Cfg::parse(text.as_str()),
                Err(_) => Err(Error::Encoding(Stream::Stdout)),
            }
        }
    }
}

} // verus!
