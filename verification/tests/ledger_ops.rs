use voating::errors::VoteError;
use voating::ledger::Ledger;
use voating::records::{Candidate, Poll};

#[test]
fn poll_created_exactly_once() {
    let mut l = Ledger::new();
    assert_eq!(l.create_poll(7, "Best Pet".to_string(), 100, 200), Ok(()));
    assert_eq!(
        l.create_poll(7, "Something else".to_string(), 1, 2),
        Err(VoteError::AlreadyExists)
    );
    let p = l.get_poll(7).expect("first poll record must survive");
    assert_eq!(p.poll_id, 7);
    assert_eq!(p.description, "Best Pet".to_string());
    assert_eq!(p.poll_start, 100);
    assert_eq!(p.poll_end, 200);
    assert_eq!(p.candidate_amount, 0);
}

#[test]
fn distinct_polls_coexist() {
    let mut l = Ledger::new();
    assert_eq!(l.create_poll(1, "one".to_string(), 0, 10), Ok(()));
    assert_eq!(l.create_poll(2, "two".to_string(), 5, 15), Ok(()));
    assert_eq!(l.get_poll(1).unwrap().description, "one".to_string());
    assert_eq!(l.get_poll(2).unwrap().description, "two".to_string());
    assert!(l.get_poll(3).is_none());
}

#[test]
fn candidate_needs_parent_poll() {
    let mut l = Ledger::new();
    assert_eq!(
        l.create_candidate(7, "Alice".to_string()),
        Err(VoteError::NotFound)
    );
    assert!(l.get_candidate(7, &"Alice".to_string()).is_none());
}

#[test]
fn duplicate_candidate_rejected() {
    let mut l = Ledger::new();
    assert_eq!(l.create_poll(7, "poll".to_string(), 0, 1), Ok(()));
    assert_eq!(l.create_candidate(7, "Alice".to_string()), Ok(()));
    assert_eq!(
        l.create_candidate(7, "Alice".to_string()),
        Err(VoteError::AlreadyExists)
    );
    assert_eq!(l.get_poll(7).unwrap().candidate_amount, 1);
    assert_eq!(
        l.get_candidate(7, &"Alice".to_string()).unwrap().candidate_votes,
        0
    );
}

#[test]
fn sibling_candidates_are_independent() {
    let mut l = Ledger::new();
    assert_eq!(l.create_poll(7, "poll".to_string(), 0, 1), Ok(()));
    assert_eq!(l.create_candidate(7, "Alice".to_string()), Ok(()));
    assert_eq!(l.create_candidate(7, "Bob".to_string()), Ok(()));
    assert_eq!(l.get_poll(7).unwrap().candidate_amount, 2);
    assert_eq!(l.cast_vote(7, &"Alice".to_string()), Ok(1));
    assert_eq!(
        l.get_candidate(7, &"Alice".to_string()).unwrap().candidate_votes,
        1
    );
    assert_eq!(
        l.get_candidate(7, &"Bob".to_string()).unwrap().candidate_votes,
        0
    );
}

#[test]
fn same_name_allowed_across_polls() {
    let mut l = Ledger::new();
    assert_eq!(l.create_poll(1, "first".to_string(), 0, 1), Ok(()));
    assert_eq!(l.create_poll(2, "second".to_string(), 0, 1), Ok(()));
    assert_eq!(l.create_candidate(1, "Alice".to_string()), Ok(()));
    assert_eq!(l.create_candidate(2, "Alice".to_string()), Ok(()));
    assert_eq!(l.cast_vote(2, &"Alice".to_string()), Ok(1));
    assert_eq!(
        l.get_candidate(1, &"Alice".to_string()).unwrap().candidate_votes,
        0
    );
    assert_eq!(
        l.get_candidate(2, &"Alice".to_string()).unwrap().candidate_votes,
        1
    );
}

#[test]
fn votes_accumulate_one_by_one() {
    let mut l = Ledger::new();
    assert_eq!(l.create_poll(7, "poll".to_string(), 0, 1), Ok(()));
    assert_eq!(l.create_candidate(7, "Alice".to_string()), Ok(()));
    let name = "Alice".to_string();
    let mut expected: u64 = 0;
    while expected < 5 {
        expected += 1;
        assert_eq!(l.cast_vote(7, &name), Ok(expected));
    }
    assert_eq!(l.get_candidate(7, &name).unwrap().candidate_votes, 5);
}

#[test]
fn vote_for_unknown_candidate_fails() {
    let mut l = Ledger::new();
    assert_eq!(l.create_poll(7, "poll".to_string(), 0, 1), Ok(()));
    assert_eq!(l.cast_vote(7, &"Nobody".to_string()), Err(VoteError::NotFound));
    assert!(l.get_candidate(7, &"Nobody".to_string()).is_none());
}

#[test]
fn vote_under_unknown_poll_fails() {
    let mut l = Ledger::new();
    assert_eq!(l.cast_vote(9, &"Alice".to_string()), Err(VoteError::NotFound));
}

#[test]
fn example_trace() {
    let mut l = Ledger::new();
    assert_eq!(l.create_poll(1, "Best Pet".to_string(), 100, 200), Ok(()));
    assert_eq!(l.create_candidate(1, "Cat".to_string()), Ok(()));
    assert_eq!(l.create_candidate(1, "Dog".to_string()), Ok(()));
    assert_eq!(l.cast_vote(1, &"Cat".to_string()), Ok(1));
    assert_eq!(l.cast_vote(1, &"Cat".to_string()), Ok(2));
    assert_eq!(l.cast_vote(1, &"Cat".to_string()), Ok(3));
    assert_eq!(l.cast_vote(1, &"Dog".to_string()), Ok(1));
    let p = l.get_poll(1).unwrap();
    assert_eq!(p.poll_id, 1);
    assert_eq!(p.candidate_amount, 2);
    let cat = l.get_candidate(1, &"Cat".to_string()).unwrap();
    assert_eq!(cat.candidate_name, "Cat".to_string());
    assert_eq!(cat.candidate_votes, 3);
    let dog = l.get_candidate(1, &"Dog".to_string()).unwrap();
    assert_eq!(dog.candidate_name, "Dog".to_string());
    assert_eq!(dog.candidate_votes, 1);
}

#[test]
fn description_bound_is_280_encoded_bytes() {
    let mut l = Ledger::new();
    let exactly = "x".repeat(280);
    assert_eq!(l.create_poll(1, exactly, 0, 1), Ok(()));
    let too_long = "x".repeat(281);
    assert_eq!(l.create_poll(2, too_long, 0, 1), Err(VoteError::EncodingTooLarge));
    assert!(l.get_poll(2).is_none());
}

#[test]
fn description_bound_counts_bytes_not_characters() {
    // each of these characters encodes to two bytes, so 141 of them exceed
    // the bound although they are far fewer than 280 characters
    let mut l = Ledger::new();
    let wide = "\u{e9}".repeat(141);
    assert_eq!(wide.chars().count(), 141);
    assert_eq!(wide.len(), 282);
    assert_eq!(l.create_poll(1, wide, 0, 1), Err(VoteError::EncodingTooLarge));
    let fits = "\u{e9}".repeat(140);
    assert_eq!(l.create_poll(1, fits, 0, 1), Ok(()));
}

#[test]
fn candidate_name_bound_is_280_encoded_bytes() {
    let mut l = Ledger::new();
    assert_eq!(l.create_poll(1, "poll".to_string(), 0, 1), Ok(()));
    assert_eq!(l.create_candidate(1, "y".repeat(280)), Ok(()));
    assert_eq!(
        l.create_candidate(1, "z".repeat(281)),
        Err(VoteError::EncodingTooLarge)
    );
    assert_eq!(l.get_poll(1).unwrap().candidate_amount, 1);
}

#[test]
fn empty_texts_are_allowed() {
    let mut l = Ledger::new();
    assert_eq!(l.create_poll(1, String::new(), 0, 0), Ok(()));
    assert_eq!(l.create_candidate(1, String::new()), Ok(()));
    assert_eq!(l.cast_vote(1, &String::new()), Ok(1));
}

#[test]
fn vote_tally_overflow_is_reported() {
    let mut c = Candidate {
        candidate_name: "Alice".to_string(),
        candidate_votes: u64::MAX,
    };
    assert_eq!(c.record_vote(), Err(VoteError::Overflow));
    assert_eq!(c.candidate_votes, u64::MAX);
    assert_eq!(c.candidate_name, "Alice".to_string());
}

#[test]
fn vote_tally_increments_near_the_top() {
    let mut c = Candidate {
        candidate_name: "Alice".to_string(),
        candidate_votes: u64::MAX - 1,
    };
    assert_eq!(c.record_vote(), Ok(u64::MAX));
    assert_eq!(c.candidate_votes, u64::MAX);
}

#[test]
fn candidate_count_overflow_is_reported() {
    let mut p = Poll {
        poll_id: 1,
        description: "poll".to_string(),
        poll_start: 0,
        poll_end: 1,
        candidate_amount: u64::MAX,
    };
    assert_eq!(p.register_candidate(), Err(VoteError::Overflow));
    assert_eq!(p.candidate_amount, u64::MAX);
}

#[test]
fn poll_constructor_sets_fields_verbatim() {
    let p = Poll::new(42, "What for".to_string(), 3, 9).unwrap();
    assert_eq!(p.poll_id, 42);
    assert_eq!(p.description, "What for".to_string());
    assert_eq!(p.poll_start, 3);
    assert_eq!(p.poll_end, 9);
    assert_eq!(p.candidate_amount, 0);
}

#[test]
fn candidate_constructor_starts_at_zero() {
    let c = Candidate::new("Bob".to_string()).unwrap();
    assert_eq!(c.candidate_name, "Bob".to_string());
    assert_eq!(c.candidate_votes, 0);
}
