//! The failure taxonomy of a run, and its mapping to process exit codes.

use vstd::prelude::*;

use crate::records::Action;

verus! {

/// Everything a run can fail with.
///
/// The first four variants are precondition failures: expected,
/// user-actionable conditions. The last two are internal failures:
/// I/O gone wrong, or data (a ledger line, the branch listing) that
/// does not have the expected shape; their payload carries the
/// offending bytes or a description for the caller to report.
#[derive(Clone, Debug, PartialEq, Eq)]
pub enum DropstitchError {
    /// The given root holds no version-control metadata marker.
    NotAGitRepository,
    /// No eligible operation record is left for this action.
    NothingTo(Action),
    /// The checkout is not associated with any named branch.
    DetachedHead,
    /// Another repository operation, named by the payload, is underway.
    OperationInProgress(Vec<u8>),
    /// A file or subprocess operation failed.
    IoError(Vec<u8>),
    /// Any other internal failure, such as malformed persisted state.
    Other(Vec<u8>),
}

impl DropstitchError {
    /// The expected, user-actionable failures: not a repository,
    /// nothing left to act on, detached checkout, or an operation in
    /// progress. Everything else signals an internal failure.
    pub open spec fn is_precondition_failure(self) -> bool {
        match self {
            DropstitchError::NotAGitRepository => true,
            DropstitchError::NothingTo(_) => true,
            DropstitchError::DetachedHead => true,
            DropstitchError::OperationInProgress(_) => true,
            DropstitchError::IoError(_) => false,
            DropstitchError::Other(_) => false,
        }
    }

    /// The process exit code for this failure: 2 for every
    /// precondition failure, 1 for everything else.
    pub fn into_exit_code(self) -> (code: i32)
        ensures
            code == if self.is_precondition_failure() { 2int } else { 1int },
    {
        match self {
            DropstitchError::NotAGitRepository => 2,
            DropstitchError::NothingTo(_) => 2,
            DropstitchError::DetachedHead => 2,
            DropstitchError::OperationInProgress(_) => 2,
            _ => 1,
        }
    }
}

} // verus!
