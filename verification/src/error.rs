//! The ways in which a run can fail.

use vstd::prelude::*;
use vstd::string::*;

verus! {

/// Why a run was refused or stopped before its last batch was done.
#[derive(Debug, PartialEq, Eq)]
pub enum XcoprError {
    /// A batch size was given without a replacement token.
    InvalidBatchMode,
    /// The batch size is zero.
    InvalidBatchSize,
    /// The input, or the output of a command, is not UTF-8 text. Holds the
    /// detail of the failure.
    InvalidUtf8(String),
    /// A scratch file could not be created or written. Holds the detail of
    /// the failure.
    FailedToWrite(String),
    /// A command could not be run, or ended in failure. Holds the detail of
    /// the failure.
    SubprocessFailed(String),
    /// A required argument is absent. Holds the argument's name.
    MissingArgs(&'static str),
}

/// An [`XcoprError`] as a mathematical value: the texts are sequences of
/// characters.
#[verifier::ext_equal]
pub enum Failure {
    InvalidBatchMode,
    InvalidBatchSize,
    InvalidUtf8(Seq<char>),
    FailedToWrite(Seq<char>),
    SubprocessFailed(Seq<char>),
    MissingArgs(Seq<char>),
}

impl Failure {
    /// The text shown to the user for this failure.
    pub open spec fn message(self) -> Seq<char> {
        match self {
            Failure::InvalidBatchMode =>
                "invalid batch mode: both -n and -F are required for batch mode"@,
            Failure::InvalidBatchSize => "invalid batch size: -n must be at least 1"@,
            Failure::InvalidUtf8(detail) => "input contains invalid UTF-8: "@ + detail,
            Failure::FailedToWrite(detail) => "could not write to output stream: "@ + detail,
            Failure::SubprocessFailed(detail) => "subprocess failed: "@ + detail,
            Failure::MissingArgs(name) => "missing required argument: "@ + name,
        }
    }
}

impl View for XcoprError {
    type V = Failure;

    open spec fn view(&self) -> Failure {
        match self {
            XcoprError::InvalidBatchMode => Failure::InvalidBatchMode,
            XcoprError::InvalidBatchSize => Failure::InvalidBatchSize,
            XcoprError::InvalidUtf8(detail) => Failure::InvalidUtf8(detail@),
            XcoprError::FailedToWrite(detail) => Failure::FailedToWrite(detail@),
            XcoprError::SubprocessFailed(detail) => Failure::SubprocessFailed(detail@),
            XcoprError::MissingArgs(name) => Failure::MissingArgs(name@),
        }
    }
}

impl XcoprError {
    /// The text shown to the user for this error.
    pub fn message(&self) -> (text: String)
        ensures
            text@ == self@.message(),
    {
        match self {
            XcoprError::InvalidBatchMode => String::from_str(
                "invalid batch mode: both -n and -F are required for batch mode",
            ),
            XcoprError::InvalidBatchSize => String::from_str(
                "invalid batch size: -n must be at least 1",
            ),
            XcoprError::InvalidUtf8(detail) => String::from_str(
                "input contains invalid UTF-8: ",
            ).concat(detail.as_str()),
            XcoprError::FailedToWrite(detail) => String::from_str(
                "could not write to output stream: ",
            ).concat(detail.as_str()),
            XcoprError::SubprocessFailed(detail) => String::from_str("subprocess failed: ").concat(
                detail.as_str(),
            ),
            XcoprError::MissingArgs(name) => String::from_str("missing required argument: ").concat(
                name,
            ),
        }
    }
}

} // verus!
