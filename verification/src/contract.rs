//! The vote engine: initialize, cast-vote and read-tallies, each a pure
//! transition over the owned [`State`] and [`Tallies`] values.
//!
//! The host owns persistence and dispatch: it loads the two structures at
//! the start of a call, hands them in here by reference together with the
//! authenticated caller identity, and writes them back only when the call
//! returns success, so a failed call leaves no visible change.

use vstd::prelude::*;

use crate::error::ContractError;
use crate::msg::{AttrValue, Attribute, ExecuteMsg, InstantiateMsg, QueryMsg, Response,
    VotesResponse, vote_candidate};
use crate::state::{State, Tallies, consistent, lemma_entry_le_sum, lemma_sum_all_zero,
    lemma_sum_update_incr, table_has_key, table_sorted, table_sum};

verus! {

/// True iff `voter` already appears in the proposal's voter record.
pub fn has_voted(voter: &String, state: &State) -> (r: bool)
    ensures
        r == state.spec_has_voted(voter@),
{
    let mut i: usize = 0;
    while i < state.voted.len()
        invariant
            i <= state.voted@.len(),
            forall|j: int| 0 <= j < i ==> (#[trigger] state.voted@[j])@ != voter@,
        decreases state.voted@.len() - i,
    {
        if state.voted[i] == *voter {
            proof {
                assert(state.voted_view()[i as int] == state.voted@[i as int]@);
            }
            return true;
        }
        i += 1;
    }
    proof {
        assert(forall|j: int|
            0 <= j < state.voted_view().len() ==> #[trigger] state.voted_view()[j]
                == state.voted@[j]@);
    }
    false
}

/// True iff `candidate` appears on the proposal's candidate list.
pub fn is_candidate(candidate: &String, state: &State) -> (r: bool)
    ensures
        r == state.spec_is_candidate(candidate@),
{
    let mut i: usize = 0;
    while i < state.candidates.len()
        invariant
            i <= state.candidates@.len(),
            forall|j: int| 0 <= j < i ==> (#[trigger] state.candidates@[j])@ != candidate@,
        decreases state.candidates@.len() - i,
    {
        if state.candidates[i] == *candidate {
            proof {
                assert(state.candidates_view()[i as int] == state.candidates@[i as int]@);
            }
            return true;
        }
        i += 1;
    }
    proof {
        assert(forall|j: int|
            0 <= j < state.candidates_view().len() ==> #[trigger] state.candidates_view()[j]
                == state.candidates@[j]@);
    }
    false
}

/// What a successful initialization reports back: the method name, the
/// administrator, and the candidate list, with no events.
pub open spec fn instantiate_response(sender: String, msg: InstantiateMsg, resp: Response) -> bool {
    &&& resp.attributes@.len() == 3
    &&& resp.attributes@[0].key@ == "method"@
    &&& (resp.attributes@[0].value matches AttrValue::Text(v) && v@ == "instantiate"@)
    &&& resp.attributes@[1].key@ == "owner"@
    &&& (resp.attributes@[1].value matches AttrValue::Text(v) && v@ == sender@)
    &&& resp.attributes@[2].key@ == "candidates"@
    &&& (resp.attributes@[2].value matches AttrValue::List(l) && l@ == msg.candidates@)
    &&& resp.events@.len() == 0
}

/// Everything initialization promises: the persisted proposal carries the
/// given candidates, administrator and deadline with an empty voter record;
/// the tally table holds exactly the candidate set, every count zero; the
/// pair is consistent; and the receipt names the call.
pub open spec fn instantiate_post(
    sender: String,
    msg: InstantiateMsg,
    s: State,
    t: Tallies,
    resp: Response,
) -> bool {
    &&& s.candidates@ == msg.candidates@
    &&& s.voted@ == Seq::<String>::empty()
    &&& s.owner == sender
    &&& s.deadline == msg.deadline
    &&& consistent(s, t)
    &&& forall|i: int| 0 <= i < t@.len() ==> (#[trigger] t@[i]).1 == 0
    &&& instantiate_response(sender, msg, resp)
}

/// Create the proposal and its tally table. The host persists both
/// structures atomically when the call succeeds.
///
/// Candidate-list uniqueness is not validated, as the stored behaviour of
/// the proposal has always been: a duplicated name owns a single tally
/// entry, so the table may hold fewer entries than the list.
pub fn instantiate(sender: String, msg: InstantiateMsg) -> (r: (State, Tallies, Response))
    ensures
        instantiate_post(sender, msg, r.0, r.1, r.2),
{
    let mut tallies = Tallies::new();
    let mut i: usize = 0;
    while i < msg.candidates.len()
        invariant
            i <= msg.candidates@.len(),
            table_sorted(tallies@),
            forall|p: int| 0 <= p < tallies@.len() ==> (#[trigger] tallies@[p]).1 == 0,
            forall|j: int|
                0 <= j < i ==> table_has_key(tallies@, (#[trigger] msg.candidates@[j])@),
            forall|p: int|
                0 <= p < tallies@.len() ==> exists|j: int|
                    0 <= j < msg.candidates@.len() && (#[trigger] tallies@[p]).0
                        == msg.candidates@[j]@,
        decreases msg.candidates@.len() - i,
    {
        let ghost before = tallies@;
        tallies.insert_zero(&msg.candidates[i]);
        proof {
            assert forall|p: int| 0 <= p < tallies@.len() implies exists|j: int|
                0 <= j < msg.candidates@.len() && (#[trigger] tallies@[p]).0
                    == msg.candidates@[j]@ by {
                if tallies@[p].0 == msg.candidates@[i as int]@ {
                    assert(0 <= i < msg.candidates@.len() && tallies@[p].0
                        == msg.candidates@[i as int]@);
                } else {
                    let w = choose|w: int|
                        0 <= w < before.len() && (#[trigger] before[w]).0 == tallies@[p].0;
                    assert(exists|j: int|
                        0 <= j < msg.candidates@.len() && (#[trigger] before[w]).0
                            == msg.candidates@[j]@);
                }
            }
        }
        i += 1;
    }
    let candidates_copy = clone_names(&msg.candidates);
    let owner_copy = sender.clone();
    let state = State {
        candidates: msg.candidates,
        voted: Vec::new(),
        owner: sender,
        deadline: msg.deadline,
    };
    let mut attributes: Vec<Attribute> = Vec::new();
    attributes.push(
        Attribute {
            key: String::from_str("method"),
            value: AttrValue::Text(String::from_str("instantiate")),
        },
    );
    attributes.push(Attribute { key: String::from_str("owner"), value: AttrValue::Text(owner_copy) });
    attributes.push(
        Attribute {
            key: String::from_str("candidates"),
            value: AttrValue::List(candidates_copy),
        },
    );
    let response = Response { attributes, events: Vec::new() };
    proof {
        lemma_sum_all_zero(tallies@);
        assert forall|p: int| 0 <= p < tallies@.len() implies state.spec_is_candidate(
            (#[trigger] tallies@[p]).0,
        ) by {
            let j = choose|j: int|
                0 <= j < state.candidates@.len() && tallies@[p].0 == (
                #[trigger] state.candidates@[j])@;
            assert(state.candidates_view()[j] == state.candidates@[j]@);
        }
    }
    (state, tallies, response)
}

/// Clone a list of names, preserving each name and the order.
fn clone_names(v: &Vec<String>) -> (r: Vec<String>)
    ensures
        r@ == v@,
{
    let mut r: Vec<String> = Vec::new();
    let mut i: usize = 0;
    while i < v.len()
        invariant
            i <= v@.len(),
            r@ == v@.take(i as int),
        decreases v@.len() - i,
    {
        r.push(v[i].clone());
        proof {
            assert(r@ =~= v@.take(i + 1));
        }
        i += 1;
    }
    proof {
        assert(v@.take(v@.len() as int) =~= v@);
    }
    r
}

/// What one cast-vote call promises, relating the state before (`s0`,
/// `t0`) to the state after (`s1`, `t1`). Checked in order: an identity
/// that already voted is refused first, then an unknown candidate; an
/// accepted vote appends the voter and raises exactly one count by one.
pub open spec fn try_vote_post(
    s0: State,
    t0: Tallies,
    s1: State,
    t1: Tallies,
    sender: String,
    candidate: String,
    r: Result<Response, ContractError>,
) -> bool {
    if s0.spec_has_voted(sender@) {
        &&& r == Err::<Response, ContractError>(ContractError::AlreadyVoted)
        &&& s1 == s0
        &&& t1 == t0
    } else if !s0.spec_is_candidate(candidate@) {
        &&& r == Err::<Response, ContractError>(ContractError::CandidateNotFound)
        &&& s1 == s0
        &&& t1 == t0
    } else {
        &&& s1.candidates == s0.candidates
        &&& s1.owner == s0.owner
        &&& s1.deadline == s0.deadline
        &&& s1.voted@ == s0.voted@.push(sender)
        &&& exists|i: int|
            0 <= i < t0@.len() && (#[trigger] t0@[i]).0 == candidate@ && t1@ == t0@.update(
                i,
                (candidate@, (t0@[i].1 + 1) as u64),
            )
        &&& (r matches Ok(resp) && vote_response(resp))
    }
}

/// What a successful cast-vote call reports back: the method name and one
/// bare "voted" event.
pub open spec fn vote_response(resp: Response) -> bool {
    &&& resp.attributes@.len() == 1
    &&& resp.attributes@[0].key@ == "method"@
    &&& (resp.attributes@[0].value matches AttrValue::Text(v) && v@ == "try_vote"@)
    &&& resp.events@.len() == 1
    &&& resp.events@[0]@ == "voted"@
}

/// Cast `sender`'s vote for `candidate`.
///
/// The identity must not have voted before and the candidate must be on
/// the list; a refusal leaves both structures untouched, and the host
/// discards all writes of a failed call anyway.
pub fn try_vote(
    state: &mut State,
    tallies: &mut Tallies,
    sender: String,
    candidate: String,
) -> (r: Result<Response, ContractError>)
    requires
        consistent(*old(state), *old(tallies)),
        old(state).voted@.len() < u64::MAX,
    ensures
        try_vote_post(*old(state), *old(tallies), *final(state), *final(tallies), sender, candidate, r),
        consistent(*final(state), *final(tallies)),
{
    if has_voted(&sender, state) {
        return Err(ContractError::AlreadyVoted);
    }
    if !is_candidate(&candidate, state) {
        return Err(ContractError::CandidateNotFound);
    }
    proof {
        let j = choose|j: int|
            0 <= j < old(state).candidates_view().len() && old(state).candidates_view()[j]
                == candidate@;
        assert(old(state).candidates_view()[j] == old(state).candidates@[j]@);
        assert(table_has_key(old(tallies)@, candidate@));
        assert forall|i: int|
            0 <= i < old(tallies)@.len() && (#[trigger] old(tallies)@[i]).0 == candidate@
            implies old(tallies)@[i].1 < u64::MAX by {
            lemma_entry_le_sum(old(tallies)@, i);
        }
    }
    tallies.increment(&candidate);
    state.voted.push(sender);
    proof {
        let t0 = old(tallies)@;
        let i = choose|i: int|
            0 <= i < t0.len() && (#[trigger] t0[i]).0 == candidate@ && tallies@ == t0.update(
                i,
                (candidate@, (t0[i].1 + 1) as u64),
            );
        lemma_sum_update_incr(t0, i);
        assert(state.voted@ == old(state).voted@.push(sender));
        assert(state.voted_view() =~= old(state).voted_view().push(sender@)) by {
            assert(forall|j: int|
                0 <= j < state.voted@.len() ==> #[trigger] state.voted_view()[j]
                    == state.voted@[j]@);
            assert(forall|j: int|
                0 <= j < old(state).voted@.len() ==> #[trigger] old(state).voted_view()[j]
                    == old(state).voted@[j]@);
        }
        assert(consistent(*state, *tallies)) by {
            assert(table_sorted(tallies@)) by {
                assert(forall|p: int|
                    0 <= p < tallies@.len() ==> (#[trigger] tallies@[p]).0 == t0[p].0);
            }
            assert forall|p: int| 0 <= p < tallies@.len() implies state.spec_is_candidate(
                (#[trigger] tallies@[p]).0,
            ) by {
                assert(tallies@[p].0 == t0[p].0);
                assert(old(state).spec_is_candidate(t0[p].0));
                assert(state.candidates_view() == old(state).candidates_view());
            }
            assert forall|j: int| 0 <= j < state.candidates@.len() implies table_has_key(
                tallies@,
                (#[trigger] state.candidates@[j])@,
            ) by {
                assert(table_has_key(t0, state.candidates@[j]@));
                let w = choose|w: int|
                    0 <= w < t0.len() && (#[trigger] t0[w]).0 == state.candidates@[j]@;
                assert(tallies@[w].0 == t0[w].0);
            }
            assert(table_sum(tallies@) == state.voted@.len());
            assert(state.voters_distinct()) by {
                assert(!old(state).voted_view().contains(sender@));
                assert(forall|j: int|
                    0 <= j < old(state).voted@.len() ==> #[trigger] old(state).voted_view()[j]
                        == old(state).voted@[j]@);
                assert(forall|j: int|
                    0 <= j < state.voted@.len() ==> #[trigger] state.voted@[j]@
                        == state.voted_view()[j]);
            }
        }
    }
    let mut attributes: Vec<Attribute> = Vec::new();
    attributes.push(
        Attribute {
            key: String::from_str("method"),
            value: AttrValue::Text(String::from_str("try_vote")),
        },
    );
    let mut events: Vec<String> = Vec::new();
    events.push(String::from_str("voted"));
    Ok(Response { attributes, events })
}

/// Dispatch a state-changing request to the one operation it names.
pub fn execute(
    state: &mut State,
    tallies: &mut Tallies,
    sender: String,
    msg: ExecuteMsg,
) -> (r: Result<Response, ContractError>)
    requires
        consistent(*old(state), *old(tallies)),
        old(state).voted@.len() < u64::MAX,
    ensures
        try_vote_post(
            *old(state),
            *old(tallies),
            *final(state),
            *final(tallies),
            sender,
            vote_candidate(msg),
            r,
        ),
        consistent(*final(state), *final(tallies)),
{
    match msg {
        ExecuteMsg::Vote { candidate } => try_vote(state, tallies, sender, candidate),
    }
}

/// What a tally query promises: the answer lists the tally table itself,
/// entry for entry, in the table's own ascending key order.
pub open spec fn query_post(t: Tallies, r: VotesResponse) -> bool {
    r@ == t@
}

/// Report every tally table entry, in ascending key order.
pub fn query_votes(tallies: &Tallies) -> (r: VotesResponse)
    ensures
        query_post(*tallies, r),
{
    let entries = tallies.entries();
    let r = VotesResponse(entries);
    proof {
        assert(r@ == crate::state::pairs_view(r.0@));
    }
    r
}

/// Answer a read-only request. Queries never change state.
pub fn query(tallies: &Tallies, msg: QueryMsg) -> (r: VotesResponse)
    ensures
        query_post(*tallies, r),
{
    match msg {
        QueryMsg::GetVotes {} => query_votes(tallies),
    }
}

} // verus!
