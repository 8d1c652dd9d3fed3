use vstd::prelude::*;

use crate::errors::VoteError;
use crate::records::{text_fits, Candidate, CandidateView, Poll, PollView};

verus! {

/// A candidate record together with the `poll_id` half of its key; the name
/// half lives in the record itself.
pub struct CandidateEntry {
    pub poll_id: u64,
    pub candidate: Candidate,
}

/// Mathematical image of a whole ledger: one map per record type, each
/// keyed exactly by the inputs of the record's derived address.
pub struct LedgerView {
    pub polls: Map<u64, PollView>,
    /// Keyed by `(poll_id, candidate_name)`; the value is the vote tally.
    pub candidates: Map<(u64, Seq<char>), u64>,
}

impl LedgerView {
    /// The ledger before any record has been created.
    pub open spec fn empty() -> LedgerView {
        LedgerView { polls: Map::empty(), candidates: Map::empty() }
    }

    /// The keys of the candidate records that live under `poll_id`.
    pub open spec fn candidates_of(self, poll_id: u64) -> Set<(u64, Seq<char>)> {
        self.candidates.dom().filter(|k: (u64, Seq<char>)| k.0 == poll_id)
    }

    /// The structural invariant of a ledger: a candidate exists only under
    /// an existing poll, each poll record carries its own key, each poll's
    /// `candidate_amount` counts exactly the candidates created under it,
    /// and every stored text fits the encoding bound.
    pub open spec fn inv(self) -> bool {
        &&& self.polls.dom().finite()
        &&& self.candidates.dom().finite()
        &&& forall|k: (u64, Seq<char>)|
            #[trigger] self.candidates.contains_key(k) ==> self.polls.contains_key(k.0)
        &&& forall|id: u64|
            #[trigger] self.polls.contains_key(id) ==> self.polls[id].poll_id == id
        &&& forall|id: u64|
            #[trigger] self.polls.contains_key(id) ==> self.polls[id].candidate_amount
                == self.candidates_of(id).len()
        &&& forall|id: u64|
            #[trigger] self.polls.contains_key(id) ==> text_fits(self.polls[id].description)
        &&& forall|k: (u64, Seq<char>)|
            #[trigger] self.candidates.contains_key(k) ==> text_fits(k.1)
    }
}

/// One `create_poll` request against the ledger state `s`: the state it
/// leaves behind and the outcome it reports.
///
/// The store's exclusive-create check on the derived address comes first;
/// an unoccupied address then admits the record only if the description
/// fits the encoding bound. On success the fields are set verbatim and the
/// candidate count starts at 0; on failure nothing changes.
pub open spec fn spec_create_poll(
    s: LedgerView,
    poll_id: u64,
    description: Seq<char>,
    poll_start: u64,
    poll_end: u64,
) -> (LedgerView, Result<(), VoteError>) {
    if s.polls.contains_key(poll_id) {
        (s, Err(VoteError::AlreadyExists))
    } else if !text_fits(description) {
        (s, Err(VoteError::EncodingTooLarge))
    } else {
        (
            LedgerView {
                polls: s.polls.insert(
                    poll_id,
                    PollView { poll_id, description, poll_start, poll_end, candidate_amount: 0 },
                ),
                ..s
            },
            Ok(()),
        )
    }
}

/// One `create_candidate` request against the ledger state `s`.
///
/// The parent poll is resolved first (`NotFound` when absent), then the
/// candidate's own address is checked (`AlreadyExists` when occupied), then
/// the name bound, then the parent's counter headroom. On success the
/// candidate starts with a zero tally and the parent's `candidate_amount`
/// grows by exactly 1, atomically; on failure nothing changes.
pub open spec fn spec_create_candidate(
    s: LedgerView,
    poll_id: u64,
    candidate_name: Seq<char>,
) -> (LedgerView, Result<(), VoteError>) {
    if !s.polls.contains_key(poll_id) {
        (s, Err(VoteError::NotFound))
    } else if s.candidates.contains_key((poll_id, candidate_name)) {
        (s, Err(VoteError::AlreadyExists))
    } else if !text_fits(candidate_name) {
        (s, Err(VoteError::EncodingTooLarge))
    } else if s.polls[poll_id].candidate_amount == u64::MAX {
        (s, Err(VoteError::Overflow))
    } else {
        (
            LedgerView {
                polls: s.polls.insert(
                    poll_id,
                    PollView {
                        candidate_amount: (s.polls[poll_id].candidate_amount + 1) as u64,
                        ..s.polls[poll_id]
                    },
                ),
                candidates: s.candidates.insert((poll_id, candidate_name), 0),
            },
            Ok(()),
        )
    }
}

/// One `cast_vote` request against the ledger state `s`.
///
/// Both the poll and the candidate must resolve (`NotFound` otherwise); a
/// resolved candidate's tally grows by exactly 1 and the new tally is
/// reported, unless it is already at `u64::MAX` (`Overflow`). On failure
/// nothing changes.
pub open spec fn spec_cast_vote(s: LedgerView, poll_id: u64, candidate_name: Seq<char>) -> (
    LedgerView,
    Result<u64, VoteError>,
) {
    if !s.polls.contains_key(poll_id) || !s.candidates.contains_key((poll_id, candidate_name)) {
        (s, Err(VoteError::NotFound))
    } else if s.candidates[(poll_id, candidate_name)] == u64::MAX {
        (s, Err(VoteError::Overflow))
    } else {
        (
            LedgerView {
                candidates: s.candidates.insert(
                    (poll_id, candidate_name),
                    (s.candidates[(poll_id, candidate_name)] + 1) as u64,
                ),
                ..s
            },
            Ok((s.candidates[(poll_id, candidate_name)] + 1) as u64),
        )
    }
}

/// The key of a stored candidate entry: the inputs of its derived address.
spec fn entry_key(e: CandidateEntry) -> (u64, Seq<char>) {
    (e.poll_id, e.candidate.candidate_name@)
}

/// The poll map a stored sequence of poll records denotes.
spec fn polls_map(s: Seq<Poll>) -> Map<u64, PollView>
    decreases s.len(),
{
    if s.len() == 0 {
        Map::empty()
    } else {
        polls_map(s.drop_last()).insert(s.last().poll_id, s.last()@)
    }
}

/// The candidate map a stored sequence of candidate entries denotes.
spec fn candidates_map(s: Seq<CandidateEntry>) -> Map<(u64, Seq<char>), u64>
    decreases s.len(),
{
    if s.len() == 0 {
        Map::empty()
    } else {
        candidates_map(s.drop_last()).insert(
            entry_key(s.last()),
            s.last().candidate.candidate_votes,
        )
    }
}

/// No two stored poll records share a `poll_id`.
spec fn polls_unique(s: Seq<Poll>) -> bool {
    forall|i: int, j: int|
        0 <= i < j < s.len() ==> (#[trigger] s[i]).poll_id != (#[trigger] s[j]).poll_id
}

/// No two stored candidate entries share a `(poll_id, name)` key.
spec fn candidates_unique(s: Seq<CandidateEntry>) -> bool {
    forall|i: int, j: int|
        0 <= i < j < s.len() ==> entry_key(#[trigger] s[i]) != entry_key(#[trigger] s[j])
}

proof fn lemma_polls_map_contains(s: Seq<Poll>, id: u64)
    ensures
        polls_map(s).contains_key(id) <==> exists|i: int|
            0 <= i < s.len() && (#[trigger] s[i]).poll_id == id,
    decreases s.len(),
{
    if s.len() > 0 {
        lemma_polls_map_contains(s.drop_last(), id);
        if polls_map(s).contains_key(id) {
            if s.last().poll_id == id {
                assert(s[s.len() - 1].poll_id == id);
            } else {
                let i = choose|i: int|
                    0 <= i < s.drop_last().len() && (#[trigger] s.drop_last()[i]).poll_id == id;
                assert(s[i].poll_id == id);
            }
        }
        if exists|i: int| 0 <= i < s.len() && (#[trigger] s[i]).poll_id == id {
            let i = choose|i: int| 0 <= i < s.len() && (#[trigger] s[i]).poll_id == id;
            if i < s.len() - 1 {
                assert(s.drop_last()[i].poll_id == id);
            }
        }
    }
}

proof fn lemma_candidates_map_contains(s: Seq<CandidateEntry>, k: (u64, Seq<char>))
    ensures
        candidates_map(s).contains_key(k) <==> exists|i: int|
            0 <= i < s.len() && entry_key(#[trigger] s[i]) == k,
    decreases s.len(),
{
    if s.len() > 0 {
        lemma_candidates_map_contains(s.drop_last(), k);
        if candidates_map(s).contains_key(k) {
            if entry_key(s.last()) == k {
                assert(entry_key(s[s.len() - 1]) == k);
            } else {
                let i = choose|i: int|
                    0 <= i < s.drop_last().len() && entry_key(#[trigger] s.drop_last()[i]) == k;
                assert(entry_key(s[i]) == k);
            }
        }
        if exists|i: int| 0 <= i < s.len() && entry_key(#[trigger] s[i]) == k {
            let i = choose|i: int| 0 <= i < s.len() && entry_key(#[trigger] s[i]) == k;
            if i < s.len() - 1 {
                assert(entry_key(s.drop_last()[i]) == k);
            }
        }
    }
}

proof fn lemma_polls_map_index(s: Seq<Poll>, i: int)
    requires
        polls_unique(s),
        0 <= i < s.len(),
    ensures
        polls_map(s).contains_key(s[i].poll_id),
        polls_map(s)[s[i].poll_id] == s[i]@,
    decreases s.len(),
{
    if i < s.len() - 1 {
        lemma_polls_map_index(s.drop_last(), i);
        assert(s[s.len() - 1].poll_id != s[i].poll_id);
    }
}

proof fn lemma_candidates_map_index(s: Seq<CandidateEntry>, i: int)
    requires
        candidates_unique(s),
        0 <= i < s.len(),
    ensures
        candidates_map(s).contains_key(entry_key(s[i])),
        candidates_map(s)[entry_key(s[i])] == s[i].candidate.candidate_votes,
    decreases s.len(),
{
    if i < s.len() - 1 {
        lemma_candidates_map_index(s.drop_last(), i);
        assert(entry_key(s[s.len() - 1]) != entry_key(s[i]));
    }
}

proof fn lemma_polls_map_push(s: Seq<Poll>, p: Poll)
    ensures
        polls_map(s.push(p)) == polls_map(s).insert(p.poll_id, p@),
{
    assert(s.push(p).drop_last() =~= s);
    assert(s.push(p).last() == p);
}

proof fn lemma_candidates_map_push(s: Seq<CandidateEntry>, e: CandidateEntry)
    ensures
        candidates_map(s.push(e)) == candidates_map(s).insert(
            entry_key(e),
            e.candidate.candidate_votes,
        ),
{
    assert(s.push(e).drop_last() =~= s);
    assert(s.push(e).last() == e);
}

proof fn lemma_polls_map_update(s: Seq<Poll>, i: int, p: Poll)
    requires
        polls_unique(s),
        0 <= i < s.len(),
        p.poll_id == s[i].poll_id,
    ensures
        polls_map(s.update(i, p)) == polls_map(s).insert(p.poll_id, p@),
    decreases s.len(),
{
    let t = s.update(i, p);
    if i == s.len() - 1 {
        assert(t.drop_last() =~= s.drop_last());
        assert(t.last() == p);
        assert(polls_map(s.drop_last()).insert(s.last().poll_id, s.last()@).insert(p.poll_id, p@)
            =~= polls_map(s.drop_last()).insert(p.poll_id, p@));
    } else {
        lemma_polls_map_update(s.drop_last(), i, p);
        assert(t.drop_last() =~= s.drop_last().update(i, p));
        assert(t.last() == s.last());
        assert(s.last().poll_id != p.poll_id);
        assert(polls_map(s.drop_last()).insert(p.poll_id, p@).insert(s.last().poll_id, s.last()@)
            =~= polls_map(s.drop_last()).insert(s.last().poll_id, s.last()@).insert(
            p.poll_id,
            p@,
        ));
    }
}

proof fn lemma_candidates_map_update(s: Seq<CandidateEntry>, i: int, e: CandidateEntry)
    requires
        candidates_unique(s),
        0 <= i < s.len(),
        entry_key(e) == entry_key(s[i]),
    ensures
        candidates_map(s.update(i, e)) == candidates_map(s).insert(
            entry_key(e),
            e.candidate.candidate_votes,
        ),
    decreases s.len(),
{
    let t = s.update(i, e);
    if i == s.len() - 1 {
        assert(t.drop_last() =~= s.drop_last());
        assert(t.last() == e);
        assert(candidates_map(s.drop_last()).insert(
            entry_key(s.last()),
            s.last().candidate.candidate_votes,
        ).insert(entry_key(e), e.candidate.candidate_votes) =~= candidates_map(
            s.drop_last(),
        ).insert(entry_key(e), e.candidate.candidate_votes));
    } else {
        lemma_candidates_map_update(s.drop_last(), i, e);
        assert(t.drop_last() =~= s.drop_last().update(i, e));
        assert(t.last() == s.last());
        assert(entry_key(s.last()) != entry_key(e));
        assert(candidates_map(s.drop_last()).insert(entry_key(e), e.candidate.candidate_votes)
            .insert(entry_key(s.last()), s.last().candidate.candidate_votes) =~= candidates_map(
            s.drop_last(),
        ).insert(entry_key(s.last()), s.last().candidate.candidate_votes).insert(
            entry_key(e),
            e.candidate.candidate_votes,
        ));
    }
}

/// The ledger itself: every poll and candidate record ever created, located
/// through the keys their addresses are derived from.
pub struct Ledger {
    polls: Vec<Poll>,
    candidates: Vec<CandidateEntry>,
}

impl View for Ledger {
    type V = LedgerView;

    closed spec fn view(&self) -> LedgerView {
        LedgerView { polls: polls_map(self.polls@), candidates: candidates_map(self.candidates@) }
    }
}

impl Ledger {
    /// Well-formedness of the representation: record keys are unique, so
    /// each key denotes at most one stored record.
    pub closed spec fn wf(&self) -> bool {
        polls_unique(self.polls@) && candidates_unique(self.candidates@)
    }

    /// An empty ledger.
    pub fn new() -> (r: Ledger)
        ensures
            r.wf(),
            r@ == LedgerView::empty(),
    {
        let r = Ledger { polls: Vec::new(), candidates: Vec::new() };
        proof {
            assert(r@.polls =~= Map::<u64, PollView>::empty());
            assert(r@.candidates =~= Map::<(u64, Seq<char>), u64>::empty());
        }
        r
    }

    /// Index of the poll record keyed by `poll_id`, if any.
    fn find_poll_index(&self, poll_id: u64) -> (r: Option<usize>)
        requires
            self.wf(),
        ensures
            match r {
                Some(i) => i < self.polls@.len() && self.polls@[i as int].poll_id == poll_id
                    && self@.polls.contains_key(poll_id) && self@.polls[poll_id]
                    == self.polls@[i as int]@,
                None => !self@.polls.contains_key(poll_id),
            },
    {
        let mut i: usize = 0;
        while i < self.polls.len()
            invariant
                self.wf(),
                0 <= i <= self.polls@.len(),
                forall|j: int| 0 <= j < i ==> (#[trigger] self.polls@[j]).poll_id != poll_id,
            decreases self.polls@.len() - i,
        {
            if self.polls[i].poll_id == poll_id {
                proof {
                    lemma_polls_map_index(self.polls@, i as int);
                }
                return Some(i);
            }
            i = i + 1;
        }
        proof {
            lemma_polls_map_contains(self.polls@, poll_id);
        }
        None
    }

    /// Index of the candidate entry keyed by `(poll_id, candidate_name)`,
    /// if any.
    fn find_candidate_index(&self, poll_id: u64, candidate_name: &String) -> (r: Option<usize>)
        requires
            self.wf(),
        ensures
            match r {
                Some(i) => i < self.candidates@.len() && entry_key(self.candidates@[i as int]) == (
                    poll_id,
                    candidate_name@,
                ) && self@.candidates.contains_key((poll_id, candidate_name@))
                    && self@.candidates[(poll_id, candidate_name@)]
                    == self.candidates@[i as int].candidate.candidate_votes,
                None => !self@.candidates.contains_key((poll_id, candidate_name@)),
            },
    {
        let mut i: usize = 0;
        while i < self.candidates.len()
            invariant
                self.wf(),
                0 <= i <= self.candidates@.len(),
                forall|j: int|
                    0 <= j < i ==> entry_key(#[trigger] self.candidates@[j]) != (
                        poll_id,
                        candidate_name@,
                    ),
            decreases self.candidates@.len() - i,
        {
            let entry = &self.candidates[i];
            if entry.poll_id == poll_id && entry.candidate.candidate_name == *candidate_name {
                proof {
                    lemma_candidates_map_index(self.candidates@, i as int);
                }
                return Some(i);
            }
            i = i + 1;
        }
        proof {
            lemma_candidates_map_contains(self.candidates@, (poll_id, candidate_name@));
        }
        None
    }

    /// Creates the poll record keyed by `poll_id`, exactly as
    /// [`spec_create_poll`] describes: it fails with `AlreadyExists` when
    /// the key is taken and with `EncodingTooLarge` when the description
    /// exceeds 280 encoded bytes, and otherwise installs the record verbatim
    /// with a candidate count of 0. On failure the ledger is unchanged.
    pub fn create_poll(
        &mut self,
        poll_id: u64,
        description: String,
        poll_start: u64,
        poll_end: u64,
    ) -> (r: Result<(), VoteError>)
        requires
            old(self).wf(),
        ensures
            final(self).wf(),
            final(self)@ == spec_create_poll(old(self)@, poll_id, description@, poll_start,
            poll_end).0,
            r == spec_create_poll(old(self)@, poll_id, description@, poll_start, poll_end).1,
    {
        if self.find_poll_index(poll_id).is_some() {
            return Err(VoteError::AlreadyExists);
        }
        let poll = match Poll::new(poll_id, description, poll_start, poll_end) {
            Ok(p) => p,
            Err(e) => return Err(e),
        };
        proof {
            lemma_polls_map_contains(self.polls@, poll_id);
            lemma_polls_map_push(self.polls@, poll);
        }
        self.polls.push(poll);
        Ok(())
    }

    /// Creates the candidate record keyed by `(poll_id, candidate_name)`
    /// and notes it on the parent poll, exactly as
    /// [`spec_create_candidate`] describes: `NotFound` without the parent
    /// poll, `AlreadyExists` when the key is taken, `EncodingTooLarge` when
    /// the name exceeds 280 encoded bytes, `Overflow` when the parent's
    /// count is at `u64::MAX`; otherwise the candidate starts at zero votes
    /// and the parent's `candidate_amount` grows by exactly 1. On failure
    /// the ledger is unchanged.
    pub fn create_candidate(&mut self, poll_id: u64, candidate_name: String) -> (r: Result<
        (),
        VoteError,
    >)
        requires
            old(self).wf(),
        ensures
            final(self).wf(),
            final(self)@ == spec_create_candidate(old(self)@, poll_id, candidate_name@).0,
            r == spec_create_candidate(old(self)@, poll_id, candidate_name@).1,
    {
        let pi = match self.find_poll_index(poll_id) {
            Some(i) => i,
            None => return Err(VoteError::NotFound),
        };
        if self.find_candidate_index(poll_id, &candidate_name).is_some() {
            return Err(VoteError::AlreadyExists);
        }
        let candidate = match Candidate::new(candidate_name) {
            Ok(c) => c,
            Err(e) => return Err(e),
        };
        let ghost polls0 = self.polls@;
        let poll = &mut self.polls[pi];
        let reg = poll.register_candidate();
        proof {
            if polls0[pi as int].candidate_amount == u64::MAX {
                assert(self.polls@ =~= polls0);
            }
        }
        match reg {
            Ok(()) => (),
            Err(e) => return Err(e),
        };
        proof {
            lemma_polls_map_update(polls0, pi as int, self.polls@[pi as int]);
            lemma_candidates_map_contains(self.candidates@, entry_key(
                CandidateEntry { poll_id, candidate },
            ));
            lemma_candidates_map_push(self.candidates@, CandidateEntry { poll_id, candidate });
        }
        self.candidates.push(CandidateEntry { poll_id, candidate });
        Ok(())
    }

    /// Accepts one vote for the candidate keyed by `(poll_id,
    /// candidate_name)`, exactly as [`spec_cast_vote`] describes: `NotFound`
    /// unless both the poll and the candidate resolve, `Overflow` at a tally
    /// of `u64::MAX`; otherwise the tally grows by exactly 1 and the new
    /// tally is returned. On failure the ledger is unchanged.
    pub fn cast_vote(&mut self, poll_id: u64, candidate_name: &String) -> (r: Result<
        u64,
        VoteError,
    >)
        requires
            old(self).wf(),
        ensures
            final(self).wf(),
            final(self)@ == spec_cast_vote(old(self)@, poll_id, candidate_name@).0,
            r == spec_cast_vote(old(self)@, poll_id, candidate_name@).1,
    {
        if self.find_poll_index(poll_id).is_none() {
            return Err(VoteError::NotFound);
        }
        let ci = match self.find_candidate_index(poll_id, candidate_name) {
            Some(i) => i,
            None => return Err(VoteError::NotFound),
        };
        let ghost cands0 = self.candidates@;
        let entry = &mut self.candidates[ci];
        let res = entry.candidate.record_vote();
        proof {
            match res {
                Ok(_) => {
                    lemma_candidates_map_update(cands0, ci as int, self.candidates@[ci as int]);
                },
                Err(_) => {
                    assert(self.candidates@ =~= cands0);
                },
            }
        }
        res
    }

    /// The poll record keyed by `poll_id`, if it exists.
    pub fn get_poll(&self, poll_id: u64) -> (r: Option<&Poll>)
        requires
            self.wf(),
        ensures
            match r {
                Some(p) => self@.polls.contains_key(poll_id) && p@ == self@.polls[poll_id],
                None => !self@.polls.contains_key(poll_id),
            },
    {
        match self.find_poll_index(poll_id) {
            Some(i) => Some(&self.polls[i]),
            None => None,
        }
    }

    /// The candidate record keyed by `(poll_id, candidate_name)`, if it
    /// exists.
    pub fn get_candidate(&self, poll_id: u64, candidate_name: &String) -> (r: Option<&Candidate>)
        requires
            self.wf(),
        ensures
            match r {
                Some(c) => self@.candidates.contains_key((poll_id, candidate_name@)) && c@
                    == (CandidateView {
                    candidate_name: candidate_name@,
                    candidate_votes: self@.candidates[(poll_id, candidate_name@)],
                }),
                None => !self@.candidates.contains_key((poll_id, candidate_name@)),
            },
    {
        match self.find_candidate_index(poll_id, candidate_name) {
            Some(i) => Some(&self.candidates[i].candidate),
            None => None,
        }
    }
}

} // verus!
