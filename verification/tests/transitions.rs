use voting::address::{candidate_address, poll_address, receipt_address};
use voting::records::{ErrorCode, Record};
use voting::store::RecordStore;
use voting::transitions::{
    initialize_candidate, initialize_poll, vote, InitializeCandidate, InitializePoll, Vote,
};

fn bv(s: &str) -> Vec<u8> {
    s.as_bytes().to_vec()
}

fn poll_ctx(signer: &str) -> InitializePoll {
    InitializePoll { signer: bv(signer) }
}

fn cand_ctx(signer: &str) -> InitializeCandidate {
    InitializeCandidate { signer: bv(signer) }
}

fn vote_ctx(signer: &str) -> Vote {
    Vote { signer: bv(signer) }
}

fn poll_fields(store: &RecordStore, poll_id: u64) -> (u64, Vec<(Vec<u8>, u64)>) {
    match store.read(&poll_address(poll_id)) {
        Some(Record::PollRecord(p)) => (
            p.candidate_amount,
            p.candidate_list
                .iter()
                .map(|d| (d.candidate_name.clone(), d.candidate_votes))
                .collect(),
        ),
        _ => panic!("poll record missing"),
    }
}

fn candidate_votes(store: &RecordStore, poll_id: u64, name: &str) -> u64 {
    match store.read(&candidate_address(poll_id, &bv(name))) {
        Some(Record::CandidateRecord(c)) => c.candidate_votes,
        _ => panic!("candidate record missing"),
    }
}

fn receipt_cast(store: &RecordStore, poll_id: u64, signer: &str) -> Option<bool> {
    match store.read(&receipt_address(poll_id, &bv(signer))) {
        Some(Record::ReceiptRecord(r)) => Some(r.vote),
        None => None,
        _ => panic!("record at receipt address has another kind"),
    }
}

#[test]
fn end_to_end_scenario() {
    let mut store = RecordStore::new();
    let r = initialize_poll(
        &poll_ctx("alice"),
        &mut store,
        1,
        bv("Best Language"),
        1000,
        2000,
    );
    assert_eq!(r, Ok(()));
    let (amount, roster) = poll_fields(&store, 1);
    assert_eq!(amount, 0);
    assert!(roster.is_empty());

    let r = initialize_candidate(
        &cand_ctx("alice"),
        &mut store,
        bv("Go"),
        bv("http://x/go.png"),
        1,
    );
    assert_eq!(r, Ok(()));
    let (amount, roster) = poll_fields(&store, 1);
    assert_eq!(amount, 1);
    assert_eq!(roster, vec![(bv("Go"), 0)]);
    assert_eq!(candidate_votes(&store, 1, "Go"), 0);

    let r = vote(&vote_ctx("alice"), &mut store, bv("Go"), 1);
    assert_eq!(r, Ok(()));
    assert_eq!(candidate_votes(&store, 1, "Go"), 1);
    assert_eq!(receipt_cast(&store, 1, "alice"), Some(true));

    let r = vote(&vote_ctx("alice"), &mut store, bv("Go"), 1);
    assert_eq!(r, Err(ErrorCode::AlreadyVoted));
    assert_eq!(candidate_votes(&store, 1, "Go"), 1);

    let r = vote(&vote_ctx("bob"), &mut store, bv("Rust"), 1);
    assert_eq!(r, Err(ErrorCode::UnauthorisedCandidate));
    assert_eq!(receipt_cast(&store, 1, "bob"), None);
}

#[test]
fn long_description_rejected() {
    let mut store = RecordStore::new();
    let long = vec![b'x'; 201];
    let r = initialize_poll(&poll_ctx("alice"), &mut store, 7, long, 0, 0);
    assert_eq!(r, Err(ErrorCode::ExceedsWordLimit));
    assert!(store.read(&poll_address(7)).is_none());
}

#[test]
fn description_at_bound_accepted() {
    let mut store = RecordStore::new();
    let exact = vec![b'x'; 200];
    let r = initialize_poll(&poll_ctx("alice"), &mut store, 7, exact.clone(), 0, 0);
    assert_eq!(r, Ok(()));
    match store.read(&poll_address(7)) {
        Some(Record::PollRecord(p)) => {
            assert_eq!(p.description, exact);
            assert_eq!(p.poll_id, 7);
        }
        _ => panic!("poll record missing"),
    }
}

#[test]
fn oversized_candidate_name_rejected() {
    let mut store = RecordStore::new();
    initialize_poll(&poll_ctx("alice"), &mut store, 1, bv("p"), 0, 0).unwrap();
    let long_name = vec![b'n'; 33];
    let r = initialize_candidate(&cand_ctx("alice"), &mut store, long_name.clone(), bv("u"), 1);
    assert_eq!(r, Err(ErrorCode::ExceedsWordLimit));
    let (amount, roster) = poll_fields(&store, 1);
    assert_eq!(amount, 0);
    assert!(roster.is_empty());
    assert!(store.read(&candidate_address(1, &long_name)).is_none());
}

#[test]
fn oversized_image_url_rejected() {
    let mut store = RecordStore::new();
    initialize_poll(&poll_ctx("alice"), &mut store, 1, bv("p"), 0, 0).unwrap();
    let long_url = vec![b'u'; 129];
    let r = initialize_candidate(&cand_ctx("alice"), &mut store, bv("Go"), long_url, 1);
    assert_eq!(r, Err(ErrorCode::ExceedsWordLimit));
    let (amount, roster) = poll_fields(&store, 1);
    assert_eq!(amount, 0);
    assert!(roster.is_empty());
    assert!(store.read(&candidate_address(1, &bv("Go"))).is_none());
}

#[test]
fn candidate_fields_at_bounds_accepted() {
    let mut store = RecordStore::new();
    initialize_poll(&poll_ctx("alice"), &mut store, 1, bv("p"), 0, 0).unwrap();
    let name = vec![b'n'; 32];
    let url = vec![b'u'; 128];
    let r = initialize_candidate(&cand_ctx("alice"), &mut store, name.clone(), url.clone(), 1);
    assert_eq!(r, Ok(()));
    match store.read(&candidate_address(1, &name)) {
        Some(Record::CandidateRecord(c)) => {
            assert_eq!(c.candidate_name, name);
            assert_eq!(c.candidate_votes, 0);
            assert_eq!(c.image_url, url);
        }
        _ => panic!("candidate record missing"),
    }
}

#[test]
fn duplicate_candidate_rejected() {
    let mut store = RecordStore::new();
    initialize_poll(&poll_ctx("alice"), &mut store, 1, bv("p"), 0, 0).unwrap();
    let r = initialize_candidate(&cand_ctx("alice"), &mut store, bv("Go"), bv("u1"), 1);
    assert_eq!(r, Ok(()));
    let r = initialize_candidate(&cand_ctx("bob"), &mut store, bv("Go"), bv("u2"), 1);
    assert_eq!(r, Err(ErrorCode::CandidateAlreadyExists));
    let (amount, roster) = poll_fields(&store, 1);
    assert_eq!(amount, 1);
    assert_eq!(roster.len(), 1);
    // the standalone record still holds the first registration's URL
    match store.read(&candidate_address(1, &bv("Go"))) {
        Some(Record::CandidateRecord(c)) => assert_eq!(c.image_url, bv("u1")),
        _ => panic!("candidate record missing"),
    }
}

#[test]
fn unknown_candidate_rejected_for_fresh_caller() {
    let mut store = RecordStore::new();
    initialize_poll(&poll_ctx("alice"), &mut store, 1, bv("p"), 0, 0).unwrap();
    initialize_candidate(&cand_ctx("alice"), &mut store, bv("Go"), bv("u"), 1).unwrap();
    let r = vote(&vote_ctx("carol"), &mut store, bv("Rust"), 1);
    assert_eq!(r, Err(ErrorCode::UnauthorisedCandidate));
    // the rejected call created no receipt
    assert_eq!(receipt_cast(&store, 1, "carol"), None);
    // and the same caller can still vote for a valid candidate
    let r = vote(&vote_ctx("carol"), &mut store, bv("Go"), 1);
    assert_eq!(r, Ok(()));
    assert_eq!(candidate_votes(&store, 1, "Go"), 1);
}

#[test]
fn failed_calls_idempotent() {
    let mut store = RecordStore::new();
    initialize_poll(&poll_ctx("alice"), &mut store, 1, bv("p"), 0, 0).unwrap();
    initialize_candidate(&cand_ctx("alice"), &mut store, bv("Go"), bv("u"), 1).unwrap();

    let long = vec![b'x'; 201];
    for _ in 0..3 {
        let r = initialize_poll(&poll_ctx("alice"), &mut store, 9, long.clone(), 0, 0);
        assert_eq!(r, Err(ErrorCode::ExceedsWordLimit));
        assert!(store.read(&poll_address(9)).is_none());
    }
    for _ in 0..3 {
        let r = initialize_candidate(&cand_ctx("bob"), &mut store, bv("Go"), bv("u2"), 1);
        assert_eq!(r, Err(ErrorCode::CandidateAlreadyExists));
        let (amount, roster) = poll_fields(&store, 1);
        assert_eq!(amount, 1);
        assert_eq!(roster.len(), 1);
    }
    for _ in 0..3 {
        let r = vote(&vote_ctx("dan"), &mut store, bv("Rust"), 1);
        assert_eq!(r, Err(ErrorCode::UnauthorisedCandidate));
        assert_eq!(receipt_cast(&store, 1, "dan"), None);
    }
}

#[test]
fn two_candidates_count_independently() {
    let mut store = RecordStore::new();
    initialize_poll(&poll_ctx("alice"), &mut store, 1, bv("p"), 0, 0).unwrap();
    initialize_candidate(&cand_ctx("alice"), &mut store, bv("Go"), bv("u"), 1).unwrap();
    initialize_candidate(&cand_ctx("alice"), &mut store, bv("Rust"), bv("v"), 1).unwrap();
    let (amount, roster) = poll_fields(&store, 1);
    assert_eq!(amount, 2);
    assert_eq!(roster, vec![(bv("Go"), 0), (bv("Rust"), 0)]);

    vote(&vote_ctx("a"), &mut store, bv("Go"), 1).unwrap();
    vote(&vote_ctx("b"), &mut store, bv("Rust"), 1).unwrap();
    vote(&vote_ctx("c"), &mut store, bv("Rust"), 1).unwrap();
    assert_eq!(candidate_votes(&store, 1, "Go"), 1);
    assert_eq!(candidate_votes(&store, 1, "Rust"), 2);
    // the roster's embedded counts stay at their creation-time values
    let (_, roster) = poll_fields(&store, 1);
    assert_eq!(roster, vec![(bv("Go"), 0), (bv("Rust"), 0)]);
}

#[test]
fn same_caller_may_vote_in_two_polls() {
    let mut store = RecordStore::new();
    initialize_poll(&poll_ctx("alice"), &mut store, 1, bv("p1"), 0, 0).unwrap();
    initialize_poll(&poll_ctx("alice"), &mut store, 2, bv("p2"), 0, 0).unwrap();
    initialize_candidate(&cand_ctx("alice"), &mut store, bv("Go"), bv("u"), 1).unwrap();
    initialize_candidate(&cand_ctx("alice"), &mut store, bv("Go"), bv("u"), 2).unwrap();
    assert_eq!(vote(&vote_ctx("zoe"), &mut store, bv("Go"), 1), Ok(()));
    assert_eq!(vote(&vote_ctx("zoe"), &mut store, bv("Go"), 2), Ok(()));
    assert_eq!(vote(&vote_ctx("zoe"), &mut store, bv("Go"), 1), Err(ErrorCode::AlreadyVoted));
    assert_eq!(candidate_votes(&store, 1, "Go"), 1);
    assert_eq!(candidate_votes(&store, 2, "Go"), 1);
}

#[test]
fn cast_receipt_survives_other_transitions() {
    let mut store = RecordStore::new();
    initialize_poll(&poll_ctx("alice"), &mut store, 1, bv("p"), 0, 0).unwrap();
    initialize_candidate(&cand_ctx("alice"), &mut store, bv("Go"), bv("u"), 1).unwrap();
    vote(&vote_ctx("zoe"), &mut store, bv("Go"), 1).unwrap();
    assert_eq!(receipt_cast(&store, 1, "zoe"), Some(true));

    // later transitions on the same poll leave the receipt cast
    initialize_candidate(&cand_ctx("alice"), &mut store, bv("Rust"), bv("v"), 1).unwrap();
    assert_eq!(receipt_cast(&store, 1, "zoe"), Some(true));
    assert_eq!(vote(&vote_ctx("zoe"), &mut store, bv("Rust"), 1), Err(ErrorCode::AlreadyVoted));
    initialize_poll(&poll_ctx("alice"), &mut store, 1, bv("again"), 0, 0).unwrap();
    assert_eq!(receipt_cast(&store, 1, "zoe"), Some(true));
}

#[test]
fn reinitialize_poll_overwrites_roster() {
    // re-invoking creation on an existing poll identifier reuses the
    // creation call and resets the stored poll record
    let mut store = RecordStore::new();
    initialize_poll(&poll_ctx("alice"), &mut store, 1, bv("first"), 0, 0).unwrap();
    initialize_candidate(&cand_ctx("alice"), &mut store, bv("Go"), bv("u"), 1).unwrap();
    initialize_poll(&poll_ctx("alice"), &mut store, 1, bv("second"), 5, 6).unwrap();
    let (amount, roster) = poll_fields(&store, 1);
    assert_eq!(amount, 0);
    assert!(roster.is_empty());
    match store.read(&poll_address(1)) {
        Some(Record::PollRecord(p)) => assert_eq!(p.description, bv("second")),
        _ => panic!("poll record missing"),
    }
}
