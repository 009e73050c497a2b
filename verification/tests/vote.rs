use vote_contract::contract::{execute, has_voted, instantiate, is_candidate, query, query_votes,
    try_vote};
use vote_contract::error::ContractError;
use vote_contract::msg::{AttrValue, ExecuteMsg, InstantiateMsg, QueryMsg, VotesResponse};
use vote_contract::state::{State, Tallies, str_lt};

fn setup(candidates: &[&str], deadline: u128) -> (State, Tallies) {
    let msg = InstantiateMsg {
        candidates: candidates.iter().map(|c| c.to_string()).collect(),
        deadline,
    };
    let (state, tallies, _resp) = instantiate("admin".to_string(), msg);
    (state, tallies)
}

fn tally_pairs(r: &VotesResponse) -> Vec<(String, u64)> {
    r.0.clone()
}

#[test]
fn initialize_then_query_reports_zero_for_each_candidate() {
    let (_state, tallies) = setup(&["A", "B"], 100);
    let r = query_votes(&tallies);
    assert_eq!(tally_pairs(&r), vec![("A".to_string(), 0), ("B".to_string(), 0)]);
}

#[test]
fn initialize_records_candidates_owner_and_deadline() {
    let msg = InstantiateMsg {
        candidates: vec!["alice".to_string(), "bob".to_string()],
        deadline: 1000,
    };
    let (state, _tallies, resp) = instantiate("admin".to_string(), msg);
    assert_eq!(state.candidates, vec!["alice".to_string(), "bob".to_string()]);
    assert!(state.voted.is_empty());
    assert_eq!(state.owner, "admin".to_string());
    assert_eq!(state.deadline, 1000);
    assert_eq!(resp.attributes.len(), 3);
    assert_eq!(resp.attributes[0].key, "method");
    assert!(matches!(&resp.attributes[0].value, AttrValue::Text(v) if v == "instantiate"));
    assert_eq!(resp.attributes[1].key, "owner");
    assert!(matches!(&resp.attributes[1].value, AttrValue::Text(v) if v == "admin"));
    assert_eq!(resp.attributes[2].key, "candidates");
    assert!(matches!(
        &resp.attributes[2].value,
        AttrValue::List(l) if *l == vec!["alice".to_string(), "bob".to_string()]
    ));
    assert!(resp.events.is_empty());
}

#[test]
fn end_to_end_scenario() {
    let (mut state, mut tallies) = setup(&["alice", "bob"], 1000);
    let r1 = try_vote(&mut state, &mut tallies, "X".to_string(), "alice".to_string());
    assert!(r1.is_ok());
    let r2 = try_vote(&mut state, &mut tallies, "X".to_string(), "bob".to_string());
    assert_eq!(r2.unwrap_err(), ContractError::AlreadyVoted);
    let r3 = try_vote(&mut state, &mut tallies, "Y".to_string(), "carol".to_string());
    assert_eq!(r3.unwrap_err(), ContractError::CandidateNotFound);
    let r = query_votes(&tallies);
    assert_eq!(tally_pairs(&r), vec![("alice".to_string(), 1), ("bob".to_string(), 0)]);
}

#[test]
fn double_vote_fails_and_leaves_tallies_unchanged() {
    let (mut state, mut tallies) = setup(&["alice", "bob"], 10);
    try_vote(&mut state, &mut tallies, "X".to_string(), "alice".to_string()).unwrap();
    let before = tally_pairs(&query_votes(&tallies));
    let voted_before = state.voted.clone();
    let r = try_vote(&mut state, &mut tallies, "X".to_string(), "alice".to_string());
    assert_eq!(r.unwrap_err(), ContractError::AlreadyVoted);
    assert_eq!(tally_pairs(&query_votes(&tallies)), before);
    assert_eq!(state.voted, voted_before);
}

#[test]
fn vote_for_unknown_candidate_fails_whoever_calls() {
    let (mut state, mut tallies) = setup(&["alice"], 10);
    let r = try_vote(&mut state, &mut tallies, "fresh".to_string(), "zoe".to_string());
    assert_eq!(r.unwrap_err(), ContractError::CandidateNotFound);
    // after some history the answer is the same for a fresh caller
    try_vote(&mut state, &mut tallies, "X".to_string(), "alice".to_string()).unwrap();
    let r = try_vote(&mut state, &mut tallies, "Y".to_string(), "zoe".to_string());
    assert_eq!(r.unwrap_err(), ContractError::CandidateNotFound);
    // a caller who already voted is refused by the earlier check
    let r = try_vote(&mut state, &mut tallies, "X".to_string(), "zoe".to_string());
    assert_eq!(r.unwrap_err(), ContractError::AlreadyVoted);
}

#[test]
fn tallies_sum_to_number_of_distinct_voters() {
    let (mut state, mut tallies) = setup(&["a", "b", "c"], 10);
    for (voter, candidate) in [("u", "a"), ("v", "a"), ("w", "c"), ("u", "b")] {
        let _ = try_vote(&mut state, &mut tallies, voter.to_string(), candidate.to_string());
    }
    // "u" voted twice; only the first cast counts
    let sum: u64 = query_votes(&tallies).0.iter().map(|e| e.1).sum();
    assert_eq!(sum, 3);
    assert_eq!(state.voted, vec!["u".to_string(), "v".to_string(), "w".to_string()]);
}

#[test]
fn query_is_idempotent_and_sorted() {
    let (mut state, mut tallies) = setup(&["delta", "bravo", "echo", "alpha"], 10);
    try_vote(&mut state, &mut tallies, "X".to_string(), "echo".to_string()).unwrap();
    let r1 = query_votes(&tallies);
    let r2 = query_votes(&tallies);
    assert_eq!(tally_pairs(&r1), tally_pairs(&r2));
    assert_eq!(
        tally_pairs(&r1),
        vec![
            ("alpha".to_string(), 0),
            ("bravo".to_string(), 0),
            ("delta".to_string(), 0),
            ("echo".to_string(), 1),
        ]
    );
}

#[test]
fn duplicate_candidate_names_share_one_entry() {
    let (mut state, mut tallies) = setup(&["alice", "alice", "bob"], 10);
    let r = query_votes(&tallies);
    assert_eq!(tally_pairs(&r), vec![("alice".to_string(), 0), ("bob".to_string(), 0)]);
    try_vote(&mut state, &mut tallies, "X".to_string(), "alice".to_string()).unwrap();
    let r = query_votes(&tallies);
    assert_eq!(tally_pairs(&r), vec![("alice".to_string(), 1), ("bob".to_string(), 0)]);
}

#[test]
fn empty_candidate_list_gives_empty_table() {
    let (mut state, mut tallies) = setup(&[], 10);
    assert!(query_votes(&tallies).0.is_empty());
    let r = try_vote(&mut state, &mut tallies, "X".to_string(), "alice".to_string());
    assert_eq!(r.unwrap_err(), ContractError::CandidateNotFound);
}

#[test]
fn execute_dispatches_vote_and_emits_voted_event() {
    let (mut state, mut tallies) = setup(&["alice"], 10);
    let resp = execute(
        &mut state,
        &mut tallies,
        "X".to_string(),
        ExecuteMsg::Vote { candidate: "alice".to_string() },
    )
    .unwrap();
    assert_eq!(resp.attributes.len(), 1);
    assert_eq!(resp.attributes[0].key, "method");
    assert!(matches!(&resp.attributes[0].value, AttrValue::Text(v) if v == "try_vote"));
    assert_eq!(resp.events, vec!["voted".to_string()]);
}

#[test]
fn query_dispatches_get_votes() {
    let (_state, tallies) = setup(&["alice"], 10);
    let r = query(&tallies, QueryMsg::GetVotes {});
    assert_eq!(tally_pairs(&r), vec![("alice".to_string(), 0)]);
}

#[test]
fn predicate_helpers_match_recorded_state() {
    let (mut state, mut tallies) = setup(&["alice", "bob"], 10);
    assert!(is_candidate(&"alice".to_string(), &state));
    assert!(!is_candidate(&"carol".to_string(), &state));
    assert!(!has_voted(&"X".to_string(), &state));
    try_vote(&mut state, &mut tallies, "X".to_string(), "bob".to_string()).unwrap();
    assert!(has_voted(&"X".to_string(), &state));
    assert!(!has_voted(&"Y".to_string(), &state));
}

#[test]
fn string_order_is_bytewise_ascending() {
    assert!(str_lt(&"a".to_string(), &"b".to_string()));
    assert!(str_lt(&"a".to_string(), &"ab".to_string()));
    assert!(!str_lt(&"ab".to_string(), &"a".to_string()));
    assert!(!str_lt(&"a".to_string(), &"a".to_string()));
    assert!(str_lt(&"".to_string(), &"a".to_string()));
    assert!(str_lt(&"Zoo".to_string(), &"apple".to_string()));
}

#[test]
fn error_messages_name_each_refusal() {
    assert_eq!(ContractError::AlreadyVoted.message(), "Voter already voted");
    assert_eq!(
        ContractError::CandidateNotFound.message(),
        "Candidate not found in the candidates list"
    );
    assert_eq!(ContractError::Unauthorized.message(), "Unauthorized");
}

#[test]
fn from_pairs_accepts_exactly_ascending_keys() {
    let sorted = vec![("alice".to_string(), 2u64), ("bob".to_string(), 0u64)];
    let t = Tallies::from_pairs(sorted.clone()).expect("ascending keys are accepted");
    assert_eq!(query_votes(&t).0, sorted);
    let unsorted = vec![("bob".to_string(), 0u64), ("alice".to_string(), 2u64)];
    assert!(Tallies::from_pairs(unsorted).is_none());
    let duplicate = vec![("alice".to_string(), 1u64), ("alice".to_string(), 1u64)];
    assert!(Tallies::from_pairs(duplicate).is_none());
    assert!(Tallies::from_pairs(Vec::new()).is_some());
}
