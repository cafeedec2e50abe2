//! The subprocess runner, as far as it is decided here: how the shell is
//! called for a command, and what its ending means.

use crate::error::Failure;
use crate::error::XcoprError;
use crate::text::decimal;
use crate::text::decimal_text;
use vstd::prelude::*;
use vstd::string::*;

verus! {

/// What came of running one command.
#[derive(Debug, PartialEq, Eq)]
pub struct SubprocessResult {
    /// The exit code, or `None` where the command ended without one.
    pub code: Option<i32>,
    /// Everything that the command wrote to its standard output.
    pub stdout: Vec<u8>,
    /// Everything that the command wrote to its standard error.
    pub stderr: Vec<u8>,
}

/// What a program gets for one of its standard streams.
#[derive(Debug, PartialEq, Eq, Clone, Copy)]
pub enum Stream {
    /// Nothing: the stream is at its end from the start.
    Closed,
    /// A pipe, read to its end by the caller.
    Captured,
}

/// How to start a program: its name, its arguments and its standard streams.
#[derive(Debug, PartialEq, Eq)]
pub struct Invocation {
    pub program: String,
    pub arguments: Vec<String>,
    pub stdin: Stream,
    pub stdout: Stream,
    pub stderr: Stream,
}

/// A [`SubprocessResult`] as a mathematical value.
#[verifier::ext_equal]
pub struct SubprocessResultView {
    pub code: Option<i32>,
    pub stdout: Seq<u8>,
    pub stderr: Seq<u8>,
}

/// An [`Invocation`] as a mathematical value.
#[verifier::ext_equal]
pub struct InvocationView {
    pub program: Seq<char>,
    pub arguments: Seq<Seq<char>>,
    pub stdin: Stream,
    pub stdout: Stream,
    pub stderr: Stream,
}

impl View for SubprocessResult {
    type V = SubprocessResultView;

    open spec fn view(&self) -> SubprocessResultView {
        SubprocessResultView { code: self.code, stdout: self.stdout@, stderr: self.stderr@ }
    }
}

impl View for Invocation {
    type V = InvocationView;

    open spec fn view(&self) -> InvocationView {
        InvocationView {
            program: self.program@,
            arguments: self.arguments.deep_view(),
            stdin: self.stdin,
            stdout: self.stdout,
            stderr: self.stderr,
        }
    }
}

/// The arguments with which the shell runs `command`. With `-e` the shell
/// stops at the first command that fails, and with `-u` it treats the use of
/// an unset variable as a failure.
pub open spec fn shell_arguments(command: Seq<char>) -> Seq<Seq<char>> {
    seq!["-eu"@, "-c"@, command]
}

/// The call of the shell that runs `command`. The command gets no input:
/// what it works on is in the files that it names. What it writes to its
/// standard output and to its standard error is captured.
pub open spec fn shell_call(command: Seq<char>) -> InvocationView {
    InvocationView {
        program: "sh"@,
        arguments: shell_arguments(command),
        stdin: Stream::Closed,
        stdout: Stream::Captured,
        stderr: Stream::Captured,
    }
}

/// The call of the shell that runs `command`.
pub fn shell_invocation(command: String) -> (invocation: Invocation)
    ensures
        invocation@ == shell_call(command@),
{
    let mut arguments: Vec<String> = Vec::new();
    arguments.push(String::from_str("-eu"));
    arguments.push(String::from_str("-c"));
    arguments.push(command);
    assert(arguments.deep_view() == shell_arguments(command@));
    Invocation {
        program: String::from_str("sh"),
        arguments,
        stdin: Stream::Closed,
        stdout: Stream::Captured,
        stderr: Stream::Captured,
    }
}

/// The exit status of the program after a failure that gives no other.
pub const EXIT_FAILURE: i32 = 1;

/// The exit status of the program after a command that ended with `code`
/// has failed: the command's own code, or [`EXIT_FAILURE`] where it has
/// none.
pub open spec fn exit_status(code: Option<i32>) -> i32 {
    match code {
        Some(n) => if n == 0 {
            EXIT_FAILURE
        } else {
            n
        },
        None => EXIT_FAILURE,
    }
}

/// The number reported for an ending: the exit code, or -1 where the command
/// ended without one.
pub open spec fn reported_code(code: Option<i32>) -> int {
    match code {
        Some(n) => n as int,
        None => -1,
    }
}

/// The detail of a failure of `command`: what went wrong, then the command.
pub open spec fn failure_detail(summary: Seq<char>, command: Seq<char>) -> Seq<char> {
    summary + ": "@ + command
}

/// What went wrong where a command ended with `code`.
pub open spec fn exit_summary(code: Option<i32>) -> Seq<char> {
    "command exited with code "@ + decimal_text(reported_code(code))
}

/// The failure of `command`, described by `summary`.
pub fn subprocess_failure(summary: String, command: &str) -> (error: XcoprError)
    ensures
        error@ == Failure::SubprocessFailed(failure_detail(summary@, command@)),
{
    XcoprError::SubprocessFailed(summary.concat(": ").concat(command))
}

/// What the ending of `command` with `code` means: nothing where the code is
/// 0, and otherwise a failure, with the exit status that the program is to
/// end with.
pub fn exit_failure(code: Option<i32>, command: &str) -> (failure: Option<(XcoprError, i32)>)
    ensures
        failure is None <==> code == Some(0i32),
        failure matches Some((error, status)) ==> error@ == Failure::SubprocessFailed(
            failure_detail(exit_summary(code), command@),
        ) && status == exit_status(code) && status != 0,
{
    let (reported, status): (i32, i32) = match code {
        Some(n) => {
            if n == 0 {
                return None;
            }
            (n, n)
        },
        None => (-1, EXIT_FAILURE),
    };
    let summary = String::from_str("command exited with code ").concat(decimal(reported).as_str());
    Some((subprocess_failure(summary, command), status))
}

} // verus!
