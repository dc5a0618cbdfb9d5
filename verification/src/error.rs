//! The ways in which an operation of the engine or of its services can fail.

use vstd::prelude::*;

verus! {

/// Why an operation was refused. A refused operation changes nothing.
#[derive(Clone, Copy, Debug, PartialEq, Eq, Structural)]
pub enum DaoError {
    /// An argument is malformed or out of range.
    InvalidInput,
    /// A credential or identity check did not pass.
    VerificationFailed,
    /// A certificate or asset of an unexpected kind was presented.
    WrongResource,
    /// The certificate has already voted on this proposal.
    AlreadyVoted,
    /// No proposal with this id is in the book.
    UnknownProposal,
    /// Fewer votes than the quorum threshold have been cast.
    QuorumNotMet,
    /// The lock on a stake or on an unstake certificate has not run out.
    NotYetUnlocked,
    /// The caller's capability is not that of a registered protocol.
    UnauthorizedProtocol,
    /// The caller's capability is not that of a registered controller.
    UnauthorizedController,
    /// The request has already been reviewed.
    AlreadyReviewed,
    /// The request has not been reviewed yet.
    NotYetReviewed,
    /// No request with this id is in the book.
    UnknownRequest,
    /// The member already runs a voting pool.
    PoolAlreadyOpen,
    /// A pool holds less than the amount asked from it.
    InsufficientFunds,
    /// A result lies outside the range of the fixed-point numbers, or a
    /// division by zero was asked for.
    Arithmetic,
}

} // verus!
