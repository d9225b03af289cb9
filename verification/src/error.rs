//! The errors that the engine's operations report.

use vstd::prelude::*;

verus! {

/// Why an operation was refused. A refused operation leaves the engine's
/// state as it was.
#[derive(Clone, Copy, Debug, PartialEq, Eq, Structural)]
pub enum Error {
    /// No proposal has the given identifier.
    ProposalNotFound,
    /// The proposal no longer accepts votes.
    ProposalClosed,
    /// The value sent with the call is below the configured floor.
    InsufficientDeposit,
    /// The caller is neither the proposal's creator nor the owner.
    NotCreator,
    /// The caller is not the owner.
    NotOwner,
    /// The vote arrived after the proposal's deadline.
    VotingPeriodEnded,
    /// The proposal was already closed or cancelled.
    AlreadyClosed,
    /// The asset is not among the supported ones.
    InvalidAsset,
    /// The referendum subsystem did not accept the submission.
    ReferendumSubmissionFailed,
}

} // verus!
