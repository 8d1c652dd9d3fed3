use vstd::prelude::*;

use crate::errors::VoteError;
use crate::ledger::{spec_cast_vote, spec_create_candidate, spec_create_poll, LedgerView};
use crate::records::{text_fits, PollView};

verus! {

/// The empty ledger satisfies the structural invariant.
pub proof fn lemma_empty_inv()
    ensures
        LedgerView::empty().inv(),
{
    let s = LedgerView::empty();
    assert forall|id: u64| #[trigger] s.polls.contains_key(id) implies s.polls[id].candidate_amount
        == s.candidates_of(id).len() by {
        assert(false);
    }
}

/// `create_poll` preserves the structural invariant, whatever its outcome.
pub proof fn lemma_create_poll_preserves_inv(
    s: LedgerView,
    poll_id: u64,
    description: Seq<char>,
    poll_start: u64,
    poll_end: u64,
)
    requires
        s.inv(),
    ensures
        spec_create_poll(s, poll_id, description, poll_start, poll_end).0.inv(),
{
    let t = spec_create_poll(s, poll_id, description, poll_start, poll_end).0;
    if !s.polls.contains_key(poll_id) && text_fits(description) {
        assert(t.candidates_of(poll_id) =~= Set::<(u64, Seq<char>)>::empty());
        assert forall|id: u64| #[trigger] t.polls.contains_key(id) implies
            t.polls[id].candidate_amount == t.candidates_of(id).len() by {
            if id == poll_id {
                assert(t.candidates_of(poll_id).len() == 0);
            } else {
                assert(t.candidates_of(id) =~= s.candidates_of(id));
            }
        }
    }
}

/// `create_candidate` preserves the structural invariant, whatever its
/// outcome.
pub proof fn lemma_create_candidate_preserves_inv(
    s: LedgerView,
    poll_id: u64,
    candidate_name: Seq<char>,
)
    requires
        s.inv(),
    ensures
        spec_create_candidate(s, poll_id, candidate_name).0.inv(),
{
    let t = spec_create_candidate(s, poll_id, candidate_name).0;
    let k = (poll_id, candidate_name);
    if spec_create_candidate(s, poll_id, candidate_name).1 is Ok {
        assert forall|id: u64| #[trigger] t.polls.contains_key(id) implies
            t.polls[id].candidate_amount == t.candidates_of(id).len() by {
            if id == poll_id {
                assert(t.candidates_of(poll_id) =~= s.candidates_of(poll_id).insert(k));
                s.candidates.dom().lemma_len_filter(|kk: (u64, Seq<char>)| kk.0 == poll_id);
            } else {
                assert(t.candidates_of(id) =~= s.candidates_of(id));
            }
        }
    }
}

/// `cast_vote` preserves the structural invariant, whatever its outcome.
pub proof fn lemma_cast_vote_preserves_inv(s: LedgerView, poll_id: u64, candidate_name: Seq<char>)
    requires
        s.inv(),
    ensures
        spec_cast_vote(s, poll_id, candidate_name).0.inv(),
{
    let t = spec_cast_vote(s, poll_id, candidate_name).0;
    if spec_cast_vote(s, poll_id, candidate_name).1 is Ok {
        assert(t.candidates.dom() =~= s.candidates.dom());
        assert forall|id: u64| #[trigger] t.polls.contains_key(id) implies
            t.polls[id].candidate_amount == t.candidates_of(id).len() by {
            assert(t.candidates_of(id) =~= s.candidates_of(id));
        }
    }
}

/// A poll is created exactly once: after a successful `create_poll` for
/// `poll_id`, every further `create_poll` for the same `poll_id` fails with
/// `AlreadyExists` and changes nothing, whatever its other arguments; the
/// record installed by the first call stays exactly as it was written.
pub proof fn lemma_create_poll_exactly_once(
    s: LedgerView,
    poll_id: u64,
    d1: Seq<char>,
    ps1: u64,
    pe1: u64,
    d2: Seq<char>,
    ps2: u64,
    pe2: u64,
)
    requires
        spec_create_poll(s, poll_id, d1, ps1, pe1).1 == Ok::<(), VoteError>(()),
    ensures
        spec_create_poll(s, poll_id, d1, ps1, pe1).0.polls[poll_id] == (PollView {
            poll_id,
            description: d1,
            poll_start: ps1,
            poll_end: pe1,
            candidate_amount: 0,
        }),
        spec_create_poll(spec_create_poll(s, poll_id, d1, ps1, pe1).0, poll_id, d2, ps2, pe2)
            == (spec_create_poll(s, poll_id, d1, ps1, pe1).0, Err::<(), VoteError>(
            VoteError::AlreadyExists,
        )),
{
}

/// A candidate cannot be created before its parent poll: without the poll
/// record, `create_candidate` fails with `NotFound` and creates nothing,
/// for every `(poll_id, name)` pair.
pub proof fn lemma_create_candidate_requires_poll(
    s: LedgerView,
    poll_id: u64,
    candidate_name: Seq<char>,
)
    requires
        !s.polls.contains_key(poll_id),
    ensures
        spec_create_candidate(s, poll_id, candidate_name) == (s, Err::<(), VoteError>(
            VoteError::NotFound,
        )),
{
}

/// A candidate is created exactly once: after a successful
/// `create_candidate`, repeating it fails with `AlreadyExists` and changes
/// nothing, and the parent's `candidate_amount` has grown by exactly 1, not
/// 2.
pub proof fn lemma_duplicate_candidate_rejected(
    s: LedgerView,
    poll_id: u64,
    candidate_name: Seq<char>,
)
    requires
        spec_create_candidate(s, poll_id, candidate_name).1 == Ok::<(), VoteError>(()),
    ensures
        spec_create_candidate(spec_create_candidate(s, poll_id, candidate_name).0, poll_id,
        candidate_name) == (spec_create_candidate(s, poll_id, candidate_name).0, Err::<
            (),
            VoteError,
        >(VoteError::AlreadyExists)),
        spec_create_candidate(s, poll_id, candidate_name).0.polls[poll_id].candidate_amount
            == s.polls[poll_id].candidate_amount + 1,
{
}

/// `cast_vote` touches nothing but its target: every poll record and every
/// other candidate record read the same after the call as before, whatever
/// its outcome.
pub proof fn lemma_cast_vote_affects_only_target(
    s: LedgerView,
    poll_id: u64,
    candidate_name: Seq<char>,
)
    ensures
        spec_cast_vote(s, poll_id, candidate_name).0.polls == s.polls,
        forall|k: (u64, Seq<char>)|
            k != (poll_id, candidate_name) ==> #[trigger] spec_cast_vote(
                s,
                poll_id,
                candidate_name,
            ).0.candidates.contains_key(k) == s.candidates.contains_key(k),
        forall|k: (u64, Seq<char>)|
            k != (poll_id, candidate_name) && s.candidates.contains_key(k) ==> #[trigger]
            spec_cast_vote(s, poll_id, candidate_name).0.candidates[k] == s.candidates[k],
{
}

/// Two candidates under one poll are independent: with distinct names both
/// creations succeed, the parent's count grows by exactly 2, both tallies
/// start at 0, and a vote for either leaves the other's tally untouched.
pub proof fn lemma_sibling_candidates_independent(
    s: LedgerView,
    poll_id: u64,
    name1: Seq<char>,
    name2: Seq<char>,
)
    requires
        name1 != name2,
        s.polls.contains_key(poll_id),
        !s.candidates.contains_key((poll_id, name1)),
        !s.candidates.contains_key((poll_id, name2)),
        text_fits(name1),
        text_fits(name2),
        s.polls[poll_id].candidate_amount + 2 <= u64::MAX,
    ensures
        spec_create_candidate(s, poll_id, name1).1 == Ok::<(), VoteError>(()),
        spec_create_candidate(spec_create_candidate(s, poll_id, name1).0, poll_id, name2).1
            == Ok::<(), VoteError>(()),
        spec_create_candidate(spec_create_candidate(s, poll_id, name1).0, poll_id, name2)
            .0.polls[poll_id].candidate_amount == s.polls[poll_id].candidate_amount + 2,
        spec_create_candidate(spec_create_candidate(s, poll_id, name1).0, poll_id, name2)
            .0.candidates[(poll_id, name1)] == 0,
        spec_create_candidate(spec_create_candidate(s, poll_id, name1).0, poll_id, name2)
            .0.candidates[(poll_id, name2)] == 0,
        spec_cast_vote(
            spec_create_candidate(spec_create_candidate(s, poll_id, name1).0, poll_id, name2).0,
            poll_id,
            name1,
        ).0.candidates[(poll_id, name2)] == 0,
        spec_cast_vote(
            spec_create_candidate(spec_create_candidate(s, poll_id, name1).0, poll_id, name2).0,
            poll_id,
            name2,
        ).0.candidates[(poll_id, name1)] == 0,
{
    let s2 = spec_create_candidate(spec_create_candidate(s, poll_id, name1).0, poll_id, name2).0;
    lemma_cast_vote_affects_only_target(s2, poll_id, name1);
    lemma_cast_vote_affects_only_target(s2, poll_id, name2);
}

/// The ledger reached from `s` by `n` consecutive `cast_vote` requests for
/// one candidate.
pub open spec fn spec_cast_votes(
    s: LedgerView,
    poll_id: u64,
    candidate_name: Seq<char>,
    n: nat,
) -> LedgerView
    decreases n,
{
    if n == 0 {
        s
    } else {
        spec_cast_vote(
            spec_cast_votes(s, poll_id, candidate_name, (n - 1) as nat),
            poll_id,
            candidate_name,
        ).0
    }
}

/// Votes accumulate without loss: `n` consecutive `cast_vote` requests for
/// an existing candidate raise its tally by exactly `n` (as long as the
/// tally has headroom), leave every poll record untouched, and the `n`-th
/// request reports the running tally.
pub proof fn lemma_votes_accumulate(s: LedgerView, poll_id: u64, candidate_name: Seq<char>, n: nat)
    requires
        s.polls.contains_key(poll_id),
        s.candidates.contains_key((poll_id, candidate_name)),
        s.candidates[(poll_id, candidate_name)] + n <= u64::MAX,
    ensures
        spec_cast_votes(s, poll_id, candidate_name, n).polls == s.polls,
        spec_cast_votes(s, poll_id, candidate_name, n).candidates.contains_key(
            (poll_id, candidate_name),
        ),
        spec_cast_votes(s, poll_id, candidate_name, n).candidates[(poll_id, candidate_name)]
            == s.candidates[(poll_id, candidate_name)] + n,
        n > 0 ==> spec_cast_vote(
            spec_cast_votes(s, poll_id, candidate_name, (n - 1) as nat),
            poll_id,
            candidate_name,
        ).1 == Ok::<u64, VoteError>((s.candidates[(poll_id, candidate_name)] + n) as u64),
    decreases n,
{
    if n > 0 {
        lemma_votes_accumulate(s, poll_id, candidate_name, (n - 1) as nat);
    }
}

/// Two `cast_vote` requests serialize to the same ledger, and each to its
/// own outcome, in either order. Under the store's per-address
/// serialization of writers this is why concurrent votes lose no update:
/// any order the store picks for the same requests ends in the same
/// tallies.
pub proof fn lemma_cast_vote_order_irrelevant(
    s: LedgerView,
    poll_id1: u64,
    name1: Seq<char>,
    poll_id2: u64,
    name2: Seq<char>,
)
    ensures
        spec_cast_vote(spec_cast_vote(s, poll_id1, name1).0, poll_id2, name2).0 == spec_cast_vote(
            spec_cast_vote(s, poll_id2, name2).0,
            poll_id1,
            name1,
        ).0,
        (poll_id1, name1) != (poll_id2, name2) ==> spec_cast_vote(
            spec_cast_vote(s, poll_id1, name1).0,
            poll_id2,
            name2,
        ).1 == spec_cast_vote(s, poll_id2, name2).1,
{
    let k1 = (poll_id1, name1);
    let k2 = (poll_id2, name2);
    if k1 == k2 {
        assert(spec_cast_vote(spec_cast_vote(s, poll_id1, name1).0, poll_id2, name2).0
            == spec_cast_vote(spec_cast_vote(s, poll_id2, name2).0, poll_id1, name1).0);
    } else {
        lemma_cast_vote_affects_only_target(s, poll_id1, name1);
        lemma_cast_vote_affects_only_target(s, poll_id2, name2);
        let t12 = spec_cast_vote(spec_cast_vote(s, poll_id1, name1).0, poll_id2, name2).0;
        let t21 = spec_cast_vote(spec_cast_vote(s, poll_id2, name2).0, poll_id1, name1).0;
        assert(t12.candidates =~= t21.candidates);
    }
}

/// A vote for a name with no record under an existing poll fails with
/// `NotFound` and creates nothing.
pub proof fn lemma_vote_for_absent_candidate(
    s: LedgerView,
    poll_id: u64,
    candidate_name: Seq<char>,
)
    requires
        !s.candidates.contains_key((poll_id, candidate_name)),
    ensures
        spec_cast_vote(s, poll_id, candidate_name) == (s, Err::<u64, VoteError>(
            VoteError::NotFound,
        )),
{
}

} // verus!
