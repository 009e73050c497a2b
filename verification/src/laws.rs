//! The guarantees of the vote engine, stated and proved once and for all
//! over the operation contracts.
//!
//! Each lemma quantifies over every state and outcome that the operations'
//! own contracts admit, so it holds of every sequence of host calls.

use vstd::prelude::*;

use crate::contract::{instantiate_post, query_post, try_vote_post};
use crate::error::ContractError;
use crate::msg::{InstantiateMsg, Response, VotesResponse};
use crate::state::{State, Tallies, consistent, table_has_key, table_sorted, table_sum};

verus! {

/// No double voting: once an identity's vote has been accepted, any further
/// cast-vote call from that identity — for any candidate — is refused with
/// `AlreadyVoted` and changes neither the proposal nor the tallies.
pub proof fn lemma_no_double_vote(
    s0: State,
    t0: Tallies,
    s1: State,
    t1: Tallies,
    s2: State,
    t2: Tallies,
    voter: String,
    c1: String,
    c2: String,
    r1: Result<Response, ContractError>,
    r2: Result<Response, ContractError>,
)
    requires
        try_vote_post(s0, t0, s1, t1, voter, c1, r1),
        r1 is Ok,
        try_vote_post(s1, t1, s2, t2, voter, c2, r2),
    ensures
        r2 == Err::<Response, ContractError>(ContractError::AlreadyVoted),
        s2 == s1,
        t2 == t1,
{
    let n = s0.voted@.len() as int;
    assert(s1.voted@ == s0.voted@.push(voter));
    assert(s1.voted@[n] == voter);
    assert(s1.voted_view()[n] == s1.voted@[n]@);
    assert(s1.spec_has_voted(voter@));
}

/// Candidate closure: a vote for a name that is not on the candidate list
/// never succeeds and never changes any state; the refusal is
/// `CandidateNotFound`, unless the caller had already voted, in which case
/// the earlier double-voting check answers `AlreadyVoted` first.
pub proof fn lemma_candidate_closure(
    s0: State,
    t0: Tallies,
    s1: State,
    t1: Tallies,
    voter: String,
    candidate: String,
    r: Result<Response, ContractError>,
)
    requires
        try_vote_post(s0, t0, s1, t1, voter, candidate, r),
        !s0.spec_is_candidate(candidate@),
    ensures
        r is Err,
        s1 == s0,
        t1 == t0,
        !s0.spec_has_voted(voter@) ==> r == Err::<Response, ContractError>(
            ContractError::CandidateNotFound,
        ),
        s0.spec_has_voted(voter@) ==> r == Err::<Response, ContractError>(
            ContractError::AlreadyVoted,
        ),
{
}

/// Tally conservation: in any consistent state — and every state the
/// operations produce is consistent — the tally counts sum to the number
/// of recorded voters, and no identity is recorded twice, so the sum equals
/// the number of distinct identities that have successfully voted.
pub proof fn lemma_tally_conservation(s: State, t: Tallies)
    requires
        consistent(s, t),
    ensures
        table_sum(t@) == s.voted@.len(),
        s.voters_distinct(),
{
}

/// Idempotent read: two tally queries against the same state answer with
/// identical contents, in ascending candidate order.
pub proof fn lemma_query_idempotent(t: Tallies, r1: VotesResponse, r2: VotesResponse)
    requires
        t.wf(),
        query_post(t, r1),
        query_post(t, r2),
    ensures
        r1@ == r2@,
        table_sorted(r1@),
{
}

/// Atomic initialization: when initialization succeeds, a following query
/// reports one zero-count entry for every (distinct) listed candidate and
/// nothing else, in ascending order.
pub proof fn lemma_atomic_initialization(
    sender: String,
    msg: InstantiateMsg,
    s: State,
    t: Tallies,
    resp: Response,
    r: VotesResponse,
)
    requires
        instantiate_post(sender, msg, s, t, resp),
        query_post(t, r),
    ensures
        table_sorted(r@),
        forall|p: int| 0 <= p < r@.len() ==> (#[trigger] r@[p]).1 == 0,
        forall|j: int| 0 <= j < msg.candidates@.len() ==> table_has_key(
            r@,
            (#[trigger] msg.candidates@[j])@,
        ),
        forall|p: int|
            0 <= p < r@.len() ==> exists|j: int|
                0 <= j < msg.candidates@.len() && (#[trigger] r@[p]).0 == msg.candidates@[j]@,
{
    assert forall|j: int| 0 <= j < msg.candidates@.len() implies table_has_key(
        r@,
        (#[trigger] msg.candidates@[j])@,
    ) by {
        assert(s.candidates@[j] == msg.candidates@[j]);
        assert(table_has_key(t@, s.candidates@[j]@));
    }
    assert forall|p: int| 0 <= p < r@.len() implies exists|j: int|
        0 <= j < msg.candidates@.len() && (#[trigger] r@[p]).0 == msg.candidates@[j]@ by {
        assert(s.spec_is_candidate(t@[p].0));
        let w = choose|w: int|
            0 <= w < s.candidates_view().len() && s.candidates_view()[w] == t@[p].0;
        assert(s.candidates_view()[w] == s.candidates@[w]@);
        assert(s.candidates@[w] == msg.candidates@[w]);
        assert(0 <= w < msg.candidates@.len() && r@[p].0 == msg.candidates@[w]@);
    }
}

} // verus!

