//! The logical message shapes the engine expects from the host boundary.
//!
//! The host decodes its wire format into these plain values before
//! dispatching, and encodes the returned values back for its clients.

use vstd::prelude::*;

use crate::state::pairs_view;

verus! {

/// Request to create the proposal: the ordered candidate list and the
/// deadline value. The administrator is taken from the caller identity.
pub struct InstantiateMsg {
    pub candidates: Vec<String>,
    pub deadline: u128,
}

/// A state-changing request.
pub enum ExecuteMsg {
    /// Cast the caller's vote for `candidate`.
    Vote { candidate: String },
}

/// A read-only request.
pub enum QueryMsg {
    /// Report every tally table entry.
    GetVotes {},
}

/// Answer to [`QueryMsg::GetVotes`]: every `(candidate, votes)` pair,
/// in ascending order of candidate identifier.
#[derive(Debug)]
pub struct VotesResponse(pub Vec<(String, u64)>);

impl View for VotesResponse {
    type V = Seq<(Seq<char>, u64)>;

    open spec fn view(&self) -> Seq<(Seq<char>, u64)> {
        pairs_view(self.0@)
    }
}

/// The candidate named by a [`ExecuteMsg::Vote`] request.
pub open spec fn vote_candidate(msg: ExecuteMsg) -> String {
    match msg {
        ExecuteMsg::Vote { candidate } => candidate,
    }
}

/// An attribute value in a call receipt: either plain text or a list of
/// identifiers, which the host renders in its own wire format.
#[derive(Debug)]
pub enum AttrValue {
    Text(String),
    List(Vec<String>),
}

/// A named key/value pair surfaced in the call receipt.
#[derive(Debug)]
pub struct Attribute {
    pub key: String,
    pub value: AttrValue,
}

/// The successful outcome of a state-changing call: the attributes and the
/// named events that the host surfaces in the call's receipt.
#[derive(Debug)]
pub struct Response {
    pub attributes: Vec<Attribute>,
    pub events: Vec<String>,
}

} // verus!
