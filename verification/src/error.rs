//! Errors raised by the vote engine.
//!
//! Storage and serialization failures belong to the host boundary and never
//! arise inside the engine, so they have no variant here.

use vstd::prelude::*;

verus! {

/// Why an engine call was refused. Every error aborts the whole call; the
/// host discards any state changes attempted before the failure.
#[derive(Clone, Copy, Debug, PartialEq, Eq)]
pub enum ContractError {
    /// Reserved for future authorization checks; no operation raises it today.
    Unauthorized,
    /// The calling identity has already cast a vote on this proposal.
    AlreadyVoted,
    /// The requested candidate is not on the proposal's candidate list.
    CandidateNotFound,
}

impl ContractError {
    /// The human-readable description of this error.
    pub open spec fn spec_message(&self) -> Seq<char> {
        match self {
            ContractError::Unauthorized => "Unauthorized"@,
            ContractError::AlreadyVoted => "Voter already voted"@,
            ContractError::CandidateNotFound => "Candidate not found in the candidates list"@,
        }
    }

    /// Render the error as a message string for the host's failure channel.
    pub fn message(&self) -> (m: String)
        ensures
            m@ == self.spec_message(),
    {
        match self {
            ContractError::Unauthorized => String::from_str("Unauthorized"),
            ContractError::AlreadyVoted => String::from_str("Voter already voted"),
            ContractError::CandidateNotFound => String::from_str(
                "Candidate not found in the candidates list",
            ),
        }
    }
}

} // verus!
