//! Commands to run, and what became of them.
//!
//! The library says which command is to be run and judges its outcome;
//! running it is left to the caller.

use crate::text;
use std::string::FromUtf8Error;
use vstd::prelude::*;
use vstd::utf8::{decode_utf8, valid_utf8};

verus! {

/// The error of `String::from_utf8`.
#[verifier::external_type_specification]
#[verifier::external_body]
pub struct ExFromUtf8Error(FromUtf8Error);

/// `String::from_utf8` turns bytes that are valid UTF-8 into the string
/// they encode, and fails on any other bytes.
pub assume_specification[ String::from_utf8 ](vec: Vec<u8>) -> (r: Result<String, FromUtf8Error>)
    ensures
        r is Ok <==> valid_utf8(vec@),
        r matches Ok(s) ==> s@ == decode_utf8(vec@),
;

/// Why a command gave no output to use.
#[derive(Debug, PartialEq, Eq)]
pub enum Error {
    /// The command could not be launched; the text says why.
    FailedToExecute(String),
    /// What the command wrote to its standard output is no UTF-8.
    FailedToReadStdout(FromUtf8Error),
    /// What the command wrote to its standard error is no UTF-8.
    FailedToReadStderr(FromUtf8Error),
    /// The command failed: what it wrote to its standard error, and its
    /// exit code if it has one.
    ExitFailure(String, Option<i32>),
}

/// A command: the directory to run it in, its name and its arguments.
#[derive(Debug, Clone, PartialEq, Eq)]
pub struct Config {
    pub work_dir: String,
    pub cmd: String,
    pub args: Vec<String>,
}

/// A command as plain values.
pub struct ConfigView {
    pub work_dir: Seq<char>,
    pub cmd: Seq<char>,
    pub args: Seq<Seq<char>>,
}

impl View for Config {
    type V = ConfigView;

    open spec fn view(&self) -> ConfigView {
        ConfigView {
            work_dir: self.work_dir@,
            cmd: self.cmd@,
            args: self.args@.map_values(|a: String| a@),
        }
    }
}

/// The arguments as owned strings.
pub fn to_args(args: &[&str]) -> (out: Vec<String>)
    ensures
        out@.map_values(|a: String| a@) == args@.map_values(|a: &str| a@),
{
    let mut out: Vec<String> = Vec::new();
    let mut i: usize = 0;
    while i < args.len()
        invariant
            i <= args.len(),
            out@.map_values(|a: String| a@) == args@.take(i as int).map_values(|a: &str| a@),
        decreases args.len() - i,
    {
        let arg = args[i].to_owned();
        proof {
            assert(args@.take(i + 1) == args@.take(i as int).push(args@[i as int]));
            assert(out@.push(arg).map_values(|a: String| a@) =~= out@.map_values(
                |a: String| a@,
            ).push(arg@));
            assert(args@.take(i as int).push(args@[i as int]).map_values(|a: &str| a@)
                =~= args@.take(i as int).map_values(|a: &str| a@).push(args@[i as int]@));
        }
        out.push(arg);
        i = i + 1;
    }
    assert(args@.take(args.len() as int) == args@);
    out
}

/// What a command left behind when it ended.
#[derive(Debug, Clone, PartialEq, Eq)]
pub struct Output {
    /// Whether the command ended with success.
    pub success: bool,
    /// The exit code, if the command ended with one.
    pub code: Option<i32>,
    /// What the command wrote to its standard output.
    pub stdout: Vec<u8>,
    /// What the command wrote to its standard error.
    pub stderr: Vec<u8>,
}

/// The outcome of running a command, given how its launch went: the
/// output of a command that ran, and an error with the reason for one that
/// could not be launched.
pub fn run(launched: Result<Output, String>) -> (r: Result<Output, Error>)
    ensures
        launched matches Ok(output) ==> r == Ok::<Output, Error>(output),
        launched matches Err(reason) ==> r == Err::<Output, Error>(Error::FailedToExecute(reason)),
{
    match launched {
        Ok(output) => Ok(output),
        Err(reason) => Err(Error::FailedToExecute(reason)),
    }
}

impl Output {
    /// The standard output of a command that succeeded, as text. A command
    /// that failed gives `ExitFailure` with its standard error as text and
    /// its exit code. Output that is no UTF-8 gives `FailedToReadStdout`
    /// for a command that succeeded and `FailedToReadStderr` for one that
    /// failed.
    pub fn into_stdout(self) -> (r: Result<String, Error>)
        ensures
            self.success && valid_utf8(self.stdout@) ==> (r matches Ok(s) && s@ == decode_utf8(
                self.stdout@,
            )),
            self.success && !valid_utf8(self.stdout@) ==> r matches Err(
                Error::FailedToReadStdout(_),
            ),
            !self.success && valid_utf8(self.stderr@) ==> (r matches Err(
                Error::ExitFailure(text, code),
            ) && text@ == decode_utf8(self.stderr@) && code == self.code),
            !self.success && !valid_utf8(self.stderr@) ==> r matches Err(
                Error::FailedToReadStderr(_),
            ),
    {
        if self.success {
            match String::from_utf8(self.stdout) {
                Ok(text) => Ok(text),
                Err(err) => Err(Error::FailedToReadStdout(err)),
            }
        } else {
            match String::from_utf8(self.stderr) {
                Ok(text) => Err(Error::ExitFailure(text, self.code)),
                Err(err) => Err(Error::FailedToReadStderr(err)),
            }
        }
    }
}

/// A short text for each kind of error.
pub open spec fn describe(err: Error) -> Seq<char> {
    match err {
        Error::FailedToExecute(reason) => "failed to execute: "@ + reason@,
        Error::FailedToReadStdout(_) => "failed to read stdout"@,
        Error::FailedToReadStderr(_) => "failed to read stderr"@,
        Error::ExitFailure(text, _) => "exited with failure: "@ + text@,
    }
}

impl Error {
    /// The error as a line of text.
    pub fn to_string(&self) -> (s: String)
        ensures
            s@ == describe(*self),
    {
        match self {
            Error::FailedToExecute(reason) => text::append("failed to execute: ", reason.as_str()),
            Error::FailedToReadStdout(_) => "failed to read stdout".to_owned(),
            Error::FailedToReadStderr(_) => "failed to read stderr".to_owned(),
            Error::ExitFailure(text, _) => text::append("exited with failure: ", text.as_str()),
        }
    }
}

} // verus!
