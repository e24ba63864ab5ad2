//! The three externally invocable transitions of the ballot machine.
//!
//! Each transition derives the addresses of the records it needs, loads
//! them from the store, validates its invariants before any mutation, and
//! either commits its writes or returns a typed failure leaving the store
//! untouched.
//!
//! The meaning of each transition is a total spec function from the store
//! model and the inputs to the next store model and the outcome; the
//! executable function's contract says it computes exactly that function.
//! A spec result of `None` stands for a call the store collaborator cannot
//! complete (a required record is absent or of the wrong kind, a counter
//! is saturated, the roster is at its capacity of 32 entries): the
//! executable transitions require such calls away, as the surrounding
//! runtime refuses them before the transition runs.

use vstd::prelude::*;

use crate::address::candidate_address;
use crate::address::candidate_address_spec;
use crate::address::lemma_poll_pair_distinct;
use crate::address::poll_address;
use crate::address::poll_address_spec;
use crate::address::receipt_address;
use crate::address::receipt_address_spec;
use crate::bytes::copy_bytes;
use crate::records::Candidate;
use crate::records::CandidateDetail;
use crate::records::CandidateDetailModel;
use crate::records::CandidateModel;
use crate::records::ErrorCode;
use crate::records::IsCast;
use crate::records::Poll;
use crate::records::PollModel;
use crate::records::Record;
use crate::records::RecordModel;
use crate::records::roster_contains_name;
use crate::records::roster_has;
use crate::records::roster_model;
use crate::records::duplicate_roster;
use crate::store::RecordStore;
use crate::store::StoreModel;

verus! {

/// The caller context of `initialize_poll`: the authenticated identity
/// that pays for the created record.
pub struct InitializePoll {
    pub signer: Vec<u8>,
}

/// The caller context of `initialize_candidate`: the authenticated
/// identity that pays for the created record.
pub struct InitializeCandidate {
    pub signer: Vec<u8>,
}

/// The caller context of `vote`: the authenticated identity whose vote
/// receipt the transition creates or checks.
pub struct Vote {
    pub signer: Vec<u8>,
}

/// What `initialize_poll` does to the store: a description longer than
/// 200 bytes is rejected untouched; otherwise the poll record at the
/// derived address is created fresh, or overwritten if one already stood
/// there: re-initialising an existing poll identifier reuses the creation
/// call and resets the stored record, roster included.
pub open spec fn spec_initialize_poll(
    m: StoreModel,
    poll_id: u64,
    description: Seq<u8>,
    poll_start: u64,
    poll_end: u64,
) -> Option<(StoreModel, Result<(), ErrorCode>)> {
    if description.len() > 200 {
        Some((m, Err(ErrorCode::ExceedsWordLimit)))
    } else {
        let poll = PollModel {
            poll_id,
            description,
            poll_start,
            poll_end,
            candidate_amount: 0,
            candidate_list: Seq::empty(),
        };
        Some((m.insert(poll_address_spec(poll_id), RecordModel::PollRecord(poll)), Ok(())))
    }
}

/// What `initialize_candidate` does to the store: oversized fields are
/// rejected untouched, a name already in the poll's roster is rejected
/// untouched, and otherwise one roster entry is appended to the poll
/// record and a standalone candidate record with zero votes is written,
/// both together.
pub open spec fn spec_initialize_candidate(
    m: StoreModel,
    name: Seq<u8>,
    url: Seq<u8>,
    poll_id: u64,
) -> Option<(StoreModel, Result<(), ErrorCode>)> {
    if name.len() > 32 || url.len() > 128 {
        Some((m, Err(ErrorCode::ExceedsWordLimit)))
    } else {
        let pa = poll_address_spec(poll_id);
        if !m.contains_key(pa) {
            None
        } else {
            match m[pa] {
                RecordModel::PollRecord(p) => {
                    if roster_has(p.candidate_list, name) {
                        Some((m, Err(ErrorCode::CandidateAlreadyExists)))
                    } else if p.candidate_list.len() >= 32 || p.candidate_amount == u64::MAX {
                        None
                    } else {
                        let ca = candidate_address_spec(poll_id, name);
                        if m.contains_key(ca) && !(m[ca] is CandidateRecord) {
                            None
                        } else {
                            let detail = CandidateDetailModel {
                                candidate_name: name,
                                candidate_votes: 0,
                            };
                            let p2 = PollModel {
                                candidate_amount: (p.candidate_amount + 1) as u64,
                                candidate_list: p.candidate_list.push(detail),
                                ..p
                            };
                            let c = CandidateModel {
                                candidate_name: name,
                                candidate_votes: 0,
                                image_url: url,
                            };
                            Some((
                                m.insert(pa, RecordModel::PollRecord(p2)).insert(
                                    ca,
                                    RecordModel::CandidateRecord(c),
                                ),
                                Ok(()),
                            ))
                        }
                    }
                },
                _ => None,
            }
        }
    }
}

/// What `vote` does to the store: a name absent from the poll's roster is
/// rejected untouched for every caller; a caller whose receipt is already
/// cast is rejected untouched; otherwise the caller's receipt is set to
/// cast (created if absent) and the standalone candidate record's counter
/// rises by exactly one, both together. The roster's embedded vote count
/// is never touched; the standalone record is the authoritative counter.
pub open spec fn spec_vote(
    m: StoreModel,
    name: Seq<u8>,
    poll_id: u64,
    voter: Seq<u8>,
) -> Option<(StoreModel, Result<(), ErrorCode>)> {
    let pa = poll_address_spec(poll_id);
    if !m.contains_key(pa) {
        None
    } else {
        match m[pa] {
            RecordModel::PollRecord(p) => {
                if !roster_has(p.candidate_list, name) {
                    Some((m, Err(ErrorCode::UnauthorisedCandidate)))
                } else {
                    let ra = receipt_address_spec(poll_id, voter);
                    if m.contains_key(ra) && !(m[ra] is ReceiptRecord) {
                        None
                    } else if m.contains_key(ra) && m[ra] == RecordModel::ReceiptRecord(true) {
                        Some((m, Err(ErrorCode::AlreadyVoted)))
                    } else {
                        let ca = candidate_address_spec(poll_id, name);
                        if !m.contains_key(ca) {
                            None
                        } else {
                            match m[ca] {
                                RecordModel::CandidateRecord(c) => {
                                    if c.candidate_votes == u64::MAX {
                                        None
                                    } else {
                                        let c2 = CandidateModel {
                                            candidate_votes: (c.candidate_votes + 1) as u64,
                                            ..c
                                        };
                                        Some((
                                            m.insert(ra, RecordModel::ReceiptRecord(true)).insert(
                                                ca,
                                                RecordModel::CandidateRecord(c2),
                                            ),
                                            Ok(()),
                                        ))
                                    }
                                },
                                _ => None,
                            }
                        }
                    }
                }
            },
            _ => None,
        }
    }
}

/// Creates (or re-creates) the poll record for `poll_id`.
///
/// A description longer than 200 bytes fails with `ExceedsWordLimit` and
/// writes nothing. Timestamps are stored verbatim; no ordering between
/// them is enforced.
pub fn initialize_poll(
    _ctx: &InitializePoll,
    store: &mut RecordStore,
    poll_id: u64,
    description: Vec<u8>,
    poll_start: u64,
    poll_end: u64,
) -> (res: Result<(), ErrorCode>)
    requires
        old(store).wf(),
    ensures
        final(store).wf(),
        Some((final(store)@, res)) == spec_initialize_poll(
            old(store)@,
            poll_id,
            description@,
            poll_start,
            poll_end,
        ),
{
    if description.len() > 200 {
        return Err(ErrorCode::ExceedsWordLimit);
    }
    let pa = poll_address(poll_id);
    let list: Vec<CandidateDetail> = Vec::new();
    proof {
        assert(roster_model(list@) =~= Seq::<CandidateDetailModel>::empty());
    }
    store.upsert(
        pa,
        Record::PollRecord(
            Poll {
                poll_id,
                description,
                poll_start,
                poll_end,
                candidate_amount: 0,
                candidate_list: list,
            },
        ),
    );
    Ok(())
}

/// Registers a candidate in an existing poll.
///
/// A name over 32 bytes or an image URL over 128 bytes fails with
/// `ExceedsWordLimit`; a name already in the roster fails with
/// `CandidateAlreadyExists`; either failure writes nothing. On success the
/// roster gains one entry, the poll's counter rises by one, and a
/// standalone candidate record starting at zero votes is written.
pub fn initialize_candidate(
    _ctx: &InitializeCandidate,
    store: &mut RecordStore,
    candidate_name: Vec<u8>,
    image_url: Vec<u8>,
    poll_id: u64,
) -> (res: Result<(), ErrorCode>)
    requires
        old(store).wf(),
        spec_initialize_candidate(old(store)@, candidate_name@, image_url@, poll_id) is Some,
    ensures
        final(store).wf(),
        Some((final(store)@, res)) == spec_initialize_candidate(
            old(store)@,
            candidate_name@,
            image_url@,
            poll_id,
        ),
{
    if candidate_name.len() > 32 || image_url.len() > 128 {
        return Err(ErrorCode::ExceedsWordLimit);
    }
    let pa = poll_address(poll_id);
    let updated: Poll = match store.read(&pa) {
        Some(Record::PollRecord(p)) => {
            if roster_contains_name(&p.candidate_list, &candidate_name) {
                return Err(ErrorCode::CandidateAlreadyExists);
            }
            let mut list = duplicate_roster(&p.candidate_list);
            list.push(
                CandidateDetail {
                    candidate_name: copy_bytes(&candidate_name),
                    candidate_votes: 0,
                },
            );
            proof {
                assert(roster_model(list@) =~= p@.candidate_list.push(
                    CandidateDetailModel { candidate_name: candidate_name@, candidate_votes: 0 },
                ));
            }
            Poll {
                poll_id: p.poll_id,
                description: copy_bytes(&p.description),
                poll_start: p.poll_start,
                poll_end: p.poll_end,
                candidate_amount: p.candidate_amount + 1,
                candidate_list: list,
            }
        },
        _ => unreached(),
    };
    store.upsert(pa, Record::PollRecord(updated));
    let ca = candidate_address(poll_id, &candidate_name);
    store.upsert(
        ca,
        Record::CandidateRecord(Candidate { candidate_name, candidate_votes: 0, image_url }),
    );
    Ok(())
}

/// Casts the caller's vote for a candidate of an existing poll.
///
/// A name absent from the poll's roster fails with
/// `UnauthorisedCandidate`, whoever the caller is; a caller whose receipt
/// for this poll is already cast fails with `AlreadyVoted`; either failure
/// writes nothing. On success the caller's receipt is set to cast and the
/// candidate's authoritative counter rises by exactly one. A cast receipt
/// never reverts: no transition clears it.
pub fn vote(ctx: &Vote, store: &mut RecordStore, candidate_name: Vec<u8>, poll_id: u64) -> (res:
    Result<(), ErrorCode>)
    requires
        old(store).wf(),
        spec_vote(old(store)@, candidate_name@, poll_id, ctx.signer@) is Some,
    ensures
        final(store).wf(),
        Some((final(store)@, res)) == spec_vote(
            old(store)@,
            candidate_name@,
            poll_id,
            ctx.signer@,
        ),
{
    let pa = poll_address(poll_id);
    let in_roster = match store.read(&pa) {
        Some(Record::PollRecord(p)) => roster_contains_name(&p.candidate_list, &candidate_name),
        _ => unreached(),
    };
    if !in_roster {
        return Err(ErrorCode::UnauthorisedCandidate);
    }
    let ra = receipt_address(poll_id, &ctx.signer);
    let already = match store.read(&ra) {
        None => false,
        Some(Record::ReceiptRecord(c)) => c.vote,
        _ => unreached(),
    };
    if already {
        return Err(ErrorCode::AlreadyVoted);
    }
    let ca = candidate_address(poll_id, &candidate_name);
    let updated: Candidate = match store.read(&ca) {
        Some(Record::CandidateRecord(c)) => Candidate {
            candidate_name: copy_bytes(&c.candidate_name),
            candidate_votes: c.candidate_votes + 1,
            image_url: copy_bytes(&c.image_url),
        },
        _ => unreached(),
    };
    store.upsert(ra, Record::ReceiptRecord(IsCast { vote: true }));
    store.upsert(ca, Record::CandidateRecord(updated));
    Ok(())
}

/// The authoritative vote counter held by a record, zero for records of
/// another kind.
pub open spec fn candidate_votes_of(r: RecordModel) -> u64 {
    match r {
        RecordModel::CandidateRecord(c) => c.candidate_votes,
        _ => 0,
    }
}

/// Whether a record, if it is a poll, counts exactly its roster entries.
pub open spec fn poll_counter_consistent(r: RecordModel) -> bool {
    match r {
        RecordModel::PollRecord(p) => p.candidate_amount == p.candidate_list.len(),
        _ => true,
    }
}

/// A description longer than 200 bytes makes `initialize_poll` fail with
/// `ExceedsWordLimit` and create no poll record: the store is unchanged.
pub proof fn lemma_long_description_rejected(
    m: StoreModel,
    poll_id: u64,
    description: Seq<u8>,
    poll_start: u64,
    poll_end: u64,
)
    requires
        description.len() > 200,
    ensures
        spec_initialize_poll(m, poll_id, description, poll_start, poll_end) == Some(
            (m, Err::<(), ErrorCode>(ErrorCode::ExceedsWordLimit)),
        ),
{
}

/// A candidate name longer than 32 bytes, or an image URL longer than 128
/// bytes, makes `initialize_candidate` fail with `ExceedsWordLimit`,
/// mutating no roster and creating no candidate record: the store is
/// unchanged.
pub proof fn lemma_oversized_candidate_rejected(
    m: StoreModel,
    name: Seq<u8>,
    url: Seq<u8>,
    poll_id: u64,
)
    requires
        name.len() > 32 || url.len() > 128,
    ensures
        spec_initialize_candidate(m, name, url, poll_id) == Some(
            (m, Err::<(), ErrorCode>(ErrorCode::ExceedsWordLimit)),
        ),
{
}

/// Registering the same candidate name twice in a poll makes the second
/// call fail with `CandidateAlreadyExists` and leave the store — so the
/// roster length and the candidate counter — unchanged.
pub proof fn lemma_duplicate_candidate_rejected(
    m: StoreModel,
    m1: StoreModel,
    name: Seq<u8>,
    url1: Seq<u8>,
    url2: Seq<u8>,
    poll_id: u64,
)
    requires
        url2.len() <= 128,
        spec_initialize_candidate(m, name, url1, poll_id) == Some(
            (m1, Ok::<(), ErrorCode>(())),
        ),
    ensures
        spec_initialize_candidate(m1, name, url2, poll_id) == Some(
            (m1, Err::<(), ErrorCode>(ErrorCode::CandidateAlreadyExists)),
        ),
{
    let pa = poll_address_spec(poll_id);
    lemma_poll_pair_distinct(poll_id, poll_id, name);
    let p = m[pa]->PollRecord_0;
    let detail = CandidateDetailModel { candidate_name: name, candidate_votes: 0 };
    let p2 = PollModel {
        candidate_amount: (p.candidate_amount + 1) as u64,
        candidate_list: p.candidate_list.push(detail),
        ..p
    };
    assert(m1[pa] == RecordModel::PollRecord(p2));
    assert(p2.candidate_list[p.candidate_list.len() as int].candidate_name == name);
    assert(roster_has(p2.candidate_list, name));
}

/// A successful first vote sets the caller's receipt to cast and raises
/// the candidate's authoritative counter by exactly one; a second vote by
/// the same caller on the same poll fails with `AlreadyVoted` and leaves
/// the store — so the counter — unchanged.
///
/// The two length bounds only keep the ghost byte sequences within what a
/// machine-level byte vector can hold.
pub proof fn lemma_first_vote_counts_second_rejected(
    m: StoreModel,
    m1: StoreModel,
    name: Seq<u8>,
    poll_id: u64,
    voter: Seq<u8>,
)
    requires
        name.len() <= u64::MAX,
        voter.len() <= u64::MAX,
        spec_vote(m, name, poll_id, voter) == Some((m1, Ok::<(), ErrorCode>(()))),
    ensures
        m1.contains_key(receipt_address_spec(poll_id, voter)),
        m1[receipt_address_spec(poll_id, voter)] == RecordModel::ReceiptRecord(true),
        m.contains_key(candidate_address_spec(poll_id, name)),
        m1.contains_key(candidate_address_spec(poll_id, name)),
        candidate_votes_of(m1[candidate_address_spec(poll_id, name)]) == candidate_votes_of(
            m[candidate_address_spec(poll_id, name)],
        ) + 1,
        spec_vote(m1, name, poll_id, voter) == Some(
            (m1, Err::<(), ErrorCode>(ErrorCode::AlreadyVoted)),
        ),
{
    let ra = receipt_address_spec(poll_id, voter);
    let ca = candidate_address_spec(poll_id, name);
    assert(ra != ca);
    lemma_poll_pair_distinct(poll_id, poll_id, voter);
    lemma_poll_pair_distinct(poll_id, poll_id, name);
}

/// A vote naming a candidate absent from the poll's roster fails with
/// `UnauthorisedCandidate` for every caller — also one who has never
/// voted — and leaves the store unchanged.
pub proof fn lemma_unknown_candidate_rejected(
    m: StoreModel,
    name: Seq<u8>,
    poll_id: u64,
    voter: Seq<u8>,
    p: PollModel,
)
    requires
        m.contains_key(poll_address_spec(poll_id)),
        m[poll_address_spec(poll_id)] == RecordModel::PollRecord(p),
        !roster_has(p.candidate_list, name),
    ensures
        spec_vote(m, name, poll_id, voter) == Some(
            (m, Err::<(), ErrorCode>(ErrorCode::UnauthorisedCandidate)),
        ),
{
}

/// A failed `initialize_poll` call mutates nothing, and repeating it with
/// the same input yields the same error: the transition is a pure
/// function of the store and its input.
pub proof fn lemma_failed_initialize_poll_idempotent(
    m: StoreModel,
    m1: StoreModel,
    poll_id: u64,
    description: Seq<u8>,
    poll_start: u64,
    poll_end: u64,
    err: ErrorCode,
)
    requires
        spec_initialize_poll(m, poll_id, description, poll_start, poll_end) == Some(
            (m1, Err::<(), ErrorCode>(err)),
        ),
    ensures
        m1 == m,
        spec_initialize_poll(m1, poll_id, description, poll_start, poll_end) == Some(
            (m1, Err::<(), ErrorCode>(err)),
        ),
{
}

/// A failed `initialize_candidate` call mutates nothing, and repeating it
/// with the same input yields the same error.
pub proof fn lemma_failed_initialize_candidate_idempotent(
    m: StoreModel,
    m1: StoreModel,
    name: Seq<u8>,
    url: Seq<u8>,
    poll_id: u64,
    err: ErrorCode,
)
    requires
        spec_initialize_candidate(m, name, url, poll_id) == Some((m1, Err::<(), ErrorCode>(err))),
    ensures
        m1 == m,
        spec_initialize_candidate(m1, name, url, poll_id) == Some((m1, Err::<(), ErrorCode>(err))),
{
}

/// A failed `vote` call mutates nothing, and repeating it with the same
/// input yields the same error.
pub proof fn lemma_failed_vote_idempotent(
    m: StoreModel,
    m1: StoreModel,
    name: Seq<u8>,
    poll_id: u64,
    voter: Seq<u8>,
    err: ErrorCode,
)
    requires
        spec_vote(m, name, poll_id, voter) == Some((m1, Err::<(), ErrorCode>(err))),
    ensures
        m1 == m,
        spec_vote(m1, name, poll_id, voter) == Some((m1, Err::<(), ErrorCode>(err))),
{
}

/// A cast receipt is terminal: no transition reverts it or replaces the
/// record at its address, whatever the transition's inputs or outcome.
pub proof fn lemma_cast_receipt_permanent(
    m: StoreModel,
    receipt_poll: u64,
    receipt_voter: Seq<u8>,
    poll_id: u64,
    description: Seq<u8>,
    poll_start: u64,
    poll_end: u64,
    name: Seq<u8>,
    url: Seq<u8>,
    voter: Seq<u8>,
)
    requires
        receipt_voter.len() <= u64::MAX,
        m.contains_key(receipt_address_spec(receipt_poll, receipt_voter)),
        m[receipt_address_spec(receipt_poll, receipt_voter)] == RecordModel::ReceiptRecord(true),
    ensures
        ({
            let a = receipt_address_spec(receipt_poll, receipt_voter);
            let r = spec_initialize_poll(m, poll_id, description, poll_start, poll_end);
            r is Some ==> r->Some_0.0.contains_key(a) && r->Some_0.0[a]
                == RecordModel::ReceiptRecord(true)
        }),
        ({
            let a = receipt_address_spec(receipt_poll, receipt_voter);
            let r = spec_initialize_candidate(m, name, url, poll_id);
            r is Some ==> r->Some_0.0.contains_key(a) && r->Some_0.0[a]
                == RecordModel::ReceiptRecord(true)
        }),
        ({
            let a = receipt_address_spec(receipt_poll, receipt_voter);
            let r = spec_vote(m, name, poll_id, voter);
            r is Some ==> r->Some_0.0.contains_key(a) && r->Some_0.0[a]
                == RecordModel::ReceiptRecord(true)
        }),
{
    lemma_poll_pair_distinct(poll_id, receipt_poll, receipt_voter);
}

/// A poll whose counter equals its roster length keeps that equality
/// through a successful candidate registration; `initialize_poll`
/// establishes it at zero.
pub proof fn lemma_candidate_amount_matches_roster(
    m: StoreModel,
    m1: StoreModel,
    name: Seq<u8>,
    url: Seq<u8>,
    poll_id: u64,
)
    requires
        poll_counter_consistent(m[poll_address_spec(poll_id)]),
        spec_initialize_candidate(m, name, url, poll_id) == Some((m1, Ok::<(), ErrorCode>(()))),
    ensures
        m1.contains_key(poll_address_spec(poll_id)),
        poll_counter_consistent(m1[poll_address_spec(poll_id)]),
{
    lemma_poll_pair_distinct(poll_id, poll_id, name);
}

} // verus!
