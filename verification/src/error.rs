//! The errors of the service.

use vstd::prelude::*;
use vstd::string::*;

verus! {

/// Why an operation of the service failed.
#[derive(Debug)]
pub enum RvsError {
    /// An argument, a configuration value or an answer that cannot be used.
    InvalidArg(String),
    /// An identifier that cannot be parsed.
    InvalidId(String),
    /// An operation that took too long.
    Timeout(String),
    /// A failed file or network operation.
    Io(String),
    /// A tray for which the inventory did not return exactly one machine.
    UnexpectedMachineCount { tray_id: String, count: usize },
    /// A download whose content does not have the announced checksum.
    ChecksumMismatch { path: String, expected: String, actual: String },
}

/// An error by the texts that it holds.
pub enum ErrorView {
    InvalidArg(Seq<char>),
    InvalidId(Seq<char>),
    Timeout(Seq<char>),
    Io(Seq<char>),
    UnexpectedMachineCount { tray_id: Seq<char>, count: usize },
    ChecksumMismatch { path: Seq<char>, expected: Seq<char>, actual: Seq<char> },
}

impl View for RvsError {
    type V = ErrorView;

    open spec fn view(&self) -> ErrorView {
        match self {
            RvsError::InvalidArg(m) => ErrorView::InvalidArg(m@),
            RvsError::InvalidId(m) => ErrorView::InvalidId(m@),
            RvsError::Timeout(m) => ErrorView::Timeout(m@),
            RvsError::Io(m) => ErrorView::Io(m@),
            RvsError::UnexpectedMachineCount { tray_id, count } => {
                ErrorView::UnexpectedMachineCount { tray_id: tray_id@, count: *count }
            },
            RvsError::ChecksumMismatch { path, expected, actual } => {
                ErrorView::ChecksumMismatch { path: path@, expected: expected@, actual: actual@ }
            },
        }
    }
}

/// The outcome of an operation without a result.
pub open spec fn outcome_view(outcome: Result<(), RvsError>) -> Result<(), ErrorView> {
    match outcome {
        Ok(()) => Ok(()),
        Err(e) => Err(e@),
    }
}

/// `InvalidArg` with a message in two parts.
pub fn invalid_arg(what: &str, detail: &str) -> (e: RvsError)
    ensures
        e@ == ErrorView::InvalidArg(what@ + detail@),
{
    RvsError::InvalidArg(what.to_owned().concat(detail))
}

/// What is seen of an error is its kind and its texts, whichever the kind: errors of
/// two kinds or with different texts never look alike.
pub proof fn law_errors_are_seen_as_they_are(e: RvsError)
    ensures
        e matches RvsError::InvalidArg(m) ==> e@ == ErrorView::InvalidArg(m@),
        e matches RvsError::InvalidId(m) ==> e@ == ErrorView::InvalidId(m@),
        e matches RvsError::Timeout(m) ==> e@ == ErrorView::Timeout(m@),
        e matches RvsError::Io(m) ==> e@ == ErrorView::Io(m@),
        e matches RvsError::UnexpectedMachineCount { tray_id, count } ==> e@
            == (ErrorView::UnexpectedMachineCount { tray_id: tray_id@, count }),
        e matches RvsError::ChecksumMismatch { path, expected, actual } ==> e@
            == (ErrorView::ChecksumMismatch { path: path@, expected: expected@, actual: actual@ }),
{
}

/// A failure is seen as a failure with its own error, and a success as a success.
pub proof fn law_outcomes_are_seen_as_they_are(outcome: Result<(), RvsError>)
    ensures
        outcome is Ok <==> outcome_view(outcome) is Ok,
        outcome is Err ==> outcome_view(outcome) == Err::<(), ErrorView>(outcome->Err_0@),
{
}

} // verus!
