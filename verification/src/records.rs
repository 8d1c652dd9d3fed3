use vstd::prelude::*;

use crate::errors::VoteError;

verus! {

/// Upper bound, in bytes of encoded text, on a poll description or a
/// candidate name.
pub const MAX_TEXT_BYTES: usize = 280;

/// Length in bytes of the encoded form of a piece of text.
pub open spec fn encoded_len(text: Seq<char>) -> nat {
    vstd::utf8::encode_utf8(text).len()
}

/// Whether a piece of text fits the 280-byte bound.
pub open spec fn text_fits(text: Seq<char>) -> bool {
    encoded_len(text) <= MAX_TEXT_BYTES
}

/// The top-level voting event record, keyed by a caller-supplied `poll_id`.
pub struct Poll {
    pub poll_id: u64,
    pub description: String,
    pub poll_start: u64,
    pub poll_end: u64,
    /// Running count of candidates registered under this poll.
    pub candidate_amount: u64,
}

/// Mathematical image of a [`Poll`] record.
pub struct PollView {
    pub poll_id: u64,
    pub description: Seq<char>,
    pub poll_start: u64,
    pub poll_end: u64,
    pub candidate_amount: u64,
}

impl View for Poll {
    type V = PollView;

    open spec fn view(&self) -> PollView {
        PollView {
            poll_id: self.poll_id,
            description: self.description@,
            poll_start: self.poll_start,
            poll_end: self.poll_end,
            candidate_amount: self.candidate_amount,
        }
    }
}

impl Poll {
    /// Builds a fresh poll record: fields set verbatim, candidate count 0.
    ///
    /// Rejects a description whose encoded form exceeds 280 bytes.
    pub fn new(poll_id: u64, description: String, poll_start: u64, poll_end: u64) -> (r: Result<
        Poll,
        VoteError,
    >)
        ensures
            text_fits(description@) ==> (r matches Ok(p) && p@ == (PollView {
                poll_id,
                description: description@,
                poll_start,
                poll_end,
                candidate_amount: 0,
            })),
            !text_fits(description@) ==> r == Err::<Poll, VoteError>(VoteError::EncodingTooLarge),
    {
        if description.as_str().as_bytes().len() > MAX_TEXT_BYTES {
            return Err(VoteError::EncodingTooLarge);
        }
        Ok(Poll { poll_id, description, poll_start, poll_end, candidate_amount: 0 })
    }

    /// Notes one more candidate under this poll: `candidate_amount` grows by
    /// exactly 1, every other field is untouched. Fails with `Overflow` and
    /// changes nothing when the count is already at `u64::MAX`.
    pub fn register_candidate(&mut self) -> (r: Result<(), VoteError>)
        ensures
            old(self).candidate_amount < u64::MAX ==> r == Ok::<(), VoteError>(()) && final(self)@
                == (PollView { candidate_amount: (old(self).candidate_amount + 1) as u64, ..old(
                self,
            )@ }),
            old(self).candidate_amount == u64::MAX ==> r == Err::<(), VoteError>(
                VoteError::Overflow,
            ) && *final(self) == *old(self),
    {
        if self.candidate_amount == u64::MAX {
            return Err(VoteError::Overflow);
        }
        self.candidate_amount = self.candidate_amount + 1;
        Ok(())
    }
}

/// A per-poll tally record, keyed by the owning poll's `poll_id` together
/// with `candidate_name`.
pub struct Candidate {
    pub candidate_name: String,
    pub candidate_votes: u64,
}

/// Mathematical image of a [`Candidate`] record.
pub struct CandidateView {
    pub candidate_name: Seq<char>,
    pub candidate_votes: u64,
}

impl View for Candidate {
    type V = CandidateView;

    open spec fn view(&self) -> CandidateView {
        CandidateView { candidate_name: self.candidate_name@, candidate_votes: self.candidate_votes }
    }
}

impl Candidate {
    /// Builds a fresh candidate record with a zero tally.
    ///
    /// Rejects a name whose encoded form exceeds 280 bytes.
    pub fn new(candidate_name: String) -> (r: Result<Candidate, VoteError>)
        ensures
            text_fits(candidate_name@) ==> (r matches Ok(c) && c@ == (CandidateView {
                candidate_name: candidate_name@,
                candidate_votes: 0,
            })),
            !text_fits(candidate_name@) ==> r == Err::<Candidate, VoteError>(
                VoteError::EncodingTooLarge,
            ),
    {
        if candidate_name.as_str().as_bytes().len() > MAX_TEXT_BYTES {
            return Err(VoteError::EncodingTooLarge);
        }
        Ok(Candidate { candidate_name, candidate_votes: 0 })
    }

    /// Accepts one vote: `candidate_votes` grows by exactly 1 and the new
    /// tally is returned. Fails with `Overflow` and changes nothing when the
    /// tally is already at `u64::MAX`.
    pub fn record_vote(&mut self) -> (r: Result<u64, VoteError>)
        ensures
            old(self).candidate_votes < u64::MAX ==> r == Ok::<u64, VoteError>(
                (old(self).candidate_votes + 1) as u64,
            ) && final(self)@ == (CandidateView {
                candidate_name: old(self).candidate_name@,
                candidate_votes: (old(self).candidate_votes + 1) as u64,
            }),
            old(self).candidate_votes == u64::MAX ==> r == Err::<u64, VoteError>(
                VoteError::Overflow,
            ) && *final(self) == *old(self),
    {
        if self.candidate_votes == u64::MAX {
            return Err(VoteError::Overflow);
        }
        self.candidate_votes = self.candidate_votes + 1;
        Ok(self.candidate_votes)
    }
}

} // verus!
