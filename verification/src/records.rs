//! The three record kinds of the ballot machine and their ghost models.
//!
//! Strings carried by records (a poll description, a candidate name, an
//! image URL) are UTF-8 byte vectors; every length bound of the system is a
//! bound on bytes. Each executable record views to a model over `Seq<u8>`,
//! and all transition contracts speak of the models.

use vstd::prelude::*;

use crate::bytes::bytes_eq;
use crate::bytes::copy_bytes;

verus! {

/// The reasons a transition can fail. Every validation failure maps to
/// exactly one of these; no failure is silently swallowed.
#[derive(Clone, Copy, Debug, PartialEq, Eq, Structural)]
pub enum ErrorCode {
    /// The caller's vote receipt for this poll is already cast.
    AlreadyVoted,
    /// A string field exceeded its declared byte-length bound.
    ExceedsWordLimit,
    /// A vote named a candidate absent from the poll's roster.
    UnauthorisedCandidate,
    /// A candidate with the same name already exists in the poll's roster.
    CandidateAlreadyExists,
}

/// Ghost image of a roster entry.
pub struct CandidateDetailModel {
    pub candidate_name: Seq<u8>,
    pub candidate_votes: u64,
}

/// A summary entry embedded in a poll's roster. Its vote count is set at
/// creation and not updated afterwards; the standalone `Candidate` record
/// is the authoritative counter.
pub struct CandidateDetail {
    pub candidate_name: Vec<u8>,
    pub candidate_votes: u64,
}

impl View for CandidateDetail {
    type V = CandidateDetailModel;

    open spec fn view(&self) -> CandidateDetailModel {
        CandidateDetailModel {
            candidate_name: self.candidate_name@,
            candidate_votes: self.candidate_votes,
        }
    }
}

impl CandidateDetail {
    /// Copies a roster entry.
    pub fn duplicate(&self) -> (r: Self)
        ensures
            r@ == self@,
    {
        CandidateDetail {
            candidate_name: copy_bytes(&self.candidate_name),
            candidate_votes: self.candidate_votes,
        }
    }
}

/// The roster of a poll, as the ghost sequence of its entries.
pub open spec fn roster_model(roster: Seq<CandidateDetail>) -> Seq<CandidateDetailModel> {
    roster.map_values(|d: CandidateDetail| d@)
}

/// Whether a roster holds an entry with the given candidate name.
pub open spec fn roster_has(roster: Seq<CandidateDetailModel>, name: Seq<u8>) -> bool {
    exists|k: int| 0 <= k < roster.len() && roster[k].candidate_name == name
}

/// Decides whether a roster holds an entry with the given candidate name.
pub fn roster_contains_name(roster: &Vec<CandidateDetail>, name: &Vec<u8>) -> (r: bool)
    ensures
        r == roster_has(roster_model(roster@), name@),
{
    let mut i: usize = 0;
    while i < roster.len()
        invariant
            i <= roster@.len(),
            forall|j: int| 0 <= j < i ==> roster_model(roster@)[j].candidate_name != name@,
        decreases roster@.len() - i,
    {
        if bytes_eq(&roster[i].candidate_name, name) {
            proof {
                assert(roster_model(roster@)[i as int].candidate_name == name@);
            }
            return true;
        }
        i += 1;
    }
    false
}

/// Copies a roster.
pub fn duplicate_roster(roster: &Vec<CandidateDetail>) -> (r: Vec<CandidateDetail>)
    ensures
        roster_model(r@) == roster_model(roster@),
{
    let mut out: Vec<CandidateDetail> = Vec::new();
    let mut i: usize = 0;
    while i < roster.len()
        invariant
            i <= roster@.len(),
            out@.len() == i,
            forall|j: int| 0 <= j < i ==> out@[j]@ == roster@[j]@,
        decreases roster@.len() - i,
    {
        out.push(roster[i].duplicate());
        i += 1;
    }
    proof {
        assert(roster_model(out@) =~= roster_model(roster@));
    }
    out
}

/// Ghost image of a poll record.
pub struct PollModel {
    pub poll_id: u64,
    pub description: Seq<u8>,
    pub poll_start: u64,
    pub poll_end: u64,
    pub candidate_amount: u64,
    pub candidate_list: Seq<CandidateDetailModel>,
}

/// A poll record: its identifier, description, the stored start and end
/// timestamps (their ordering is not validated), a candidate counter and
/// the roster of candidate summaries in creation order.
pub struct Poll {
    pub poll_id: u64,
    pub description: Vec<u8>,
    pub poll_start: u64,
    pub poll_end: u64,
    pub candidate_amount: u64,
    pub candidate_list: Vec<CandidateDetail>,
}

impl View for Poll {
    type V = PollModel;

    open spec fn view(&self) -> PollModel {
        PollModel {
            poll_id: self.poll_id,
            description: self.description@,
            poll_start: self.poll_start,
            poll_end: self.poll_end,
            candidate_amount: self.candidate_amount,
            candidate_list: roster_model(self.candidate_list@),
        }
    }
}

/// Ghost image of a candidate record.
pub struct CandidateModel {
    pub candidate_name: Seq<u8>,
    pub candidate_votes: u64,
    pub image_url: Seq<u8>,
}

/// A standalone candidate record: the authoritative vote counter for one
/// (poll, name) pair.
pub struct Candidate {
    pub candidate_name: Vec<u8>,
    pub candidate_votes: u64,
    pub image_url: Vec<u8>,
}

impl View for Candidate {
    type V = CandidateModel;

    open spec fn view(&self) -> CandidateModel {
        CandidateModel {
            candidate_name: self.candidate_name@,
            candidate_votes: self.candidate_votes,
            image_url: self.image_url@,
        }
    }
}

/// A vote receipt: a one-bit "has voted" marker for one (poll, caller)
/// pair. Once cast it never reverts.
pub struct IsCast {
    pub vote: bool,
}

impl View for IsCast {
    type V = bool;

    open spec fn view(&self) -> bool {
        self.vote
    }
}

/// One record of the store.
pub enum Record {
    PollRecord(Poll),
    CandidateRecord(Candidate),
    ReceiptRecord(IsCast),
}

/// Ghost image of a record.
pub enum RecordModel {
    PollRecord(PollModel),
    CandidateRecord(CandidateModel),
    ReceiptRecord(bool),
}

impl View for Record {
    type V = RecordModel;

    open spec fn view(&self) -> RecordModel {
        match self {
            Record::PollRecord(p) => RecordModel::PollRecord(p@),
            Record::CandidateRecord(c) => RecordModel::CandidateRecord(c@),
            Record::ReceiptRecord(r) => RecordModel::ReceiptRecord(r@),
        }
    }
}

} // verus!
