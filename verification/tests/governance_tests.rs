use voting_with_delegation::errors::ErrorCode;
use voting_with_delegation::governance::GovernanceState;
use voting_with_delegation::types::{ProposalStatus, VoteType};

const ADMIN: u64 = 1;
const ALICE: u64 = 10;
const BOB: u64 = 11;
const CAROL: u64 = 12;

fn state_with_voters() -> GovernanceState {
    let mut s = GovernanceState::initialize(ADMIN);
    assert_eq!(s.register_voter(ADMIN, ALICE, 100), Ok(()));
    assert_eq!(s.register_voter(ADMIN, BOB, 100), Ok(()));
    assert_eq!(s.register_voter(ADMIN, CAROL, 100), Ok(()));
    s
}

#[test]
fn initialize_starts_empty() {
    let s = GovernanceState::initialize(ADMIN);
    assert_eq!(s.proposal_count, 0);
    assert_eq!(s.total_base_power, 0);
    assert!(s.get_voter(ALICE).is_none());
    assert!(s.get_proposal(0).is_none());
}

#[test]
fn register_voter_creates_fresh_record() {
    let mut s = GovernanceState::initialize(ADMIN);
    assert_eq!(s.register_voter(ADMIN, ALICE, 250), Ok(()));
    assert_eq!(s.total_base_power, 250);
    let v = s.get_voter(ALICE).unwrap();
    assert_eq!(v.base_power, 250);
    assert_eq!(v.reputation, 100);
    assert_eq!(v.last_vote_time, 0);
    assert!(v.delegated_to.is_none());
}

#[test]
fn register_voter_requires_admin() {
    let mut s = GovernanceState::initialize(ADMIN);
    assert_eq!(s.register_voter(ALICE, ALICE, 100), Err(ErrorCode::NotAdmin));
    assert!(s.get_voter(ALICE).is_none());
}

#[test]
fn register_voter_rejects_duplicate() {
    let mut s = GovernanceState::initialize(ADMIN);
    assert_eq!(s.register_voter(ADMIN, ALICE, 100), Ok(()));
    assert_eq!(s.register_voter(ADMIN, ALICE, 100), Err(ErrorCode::AlreadyRegistered));
    assert_eq!(s.total_base_power, 100);
}

#[test]
fn register_voter_rejects_aggregate_overflow() {
    let mut s = GovernanceState::initialize(ADMIN);
    assert_eq!(s.register_voter(ADMIN, ALICE, u64::MAX), Ok(()));
    assert_eq!(s.register_voter(ADMIN, BOB, 1), Err(ErrorCode::NumericalOverflow));
    assert_eq!(s.total_base_power, u64::MAX);
    assert!(s.get_voter(BOB).is_none());
}

#[test]
fn create_proposal_assigns_sequential_ids() {
    let mut s = GovernanceState::initialize(ADMIN);
    let id0 = s
        .create_proposal(ALICE, "t0".to_string(), "first".to_string(), 100, 0)
        .unwrap();
    let id1 = s
        .create_proposal(BOB, "t1".to_string(), "second".to_string(), 50, 10)
        .unwrap();
    assert_eq!(id0, 0);
    assert_eq!(id1, 1);
    assert_eq!(s.proposal_count, 2);
    let p = s.get_proposal(0).unwrap();
    assert_eq!(p.id, 0);
    assert_eq!(p.title, "t0");
    assert_eq!(p.description, "first");
    assert_eq!(p.creator, ALICE);
    assert_eq!(p.yes_votes, 0);
    assert_eq!(p.no_votes, 0);
    assert_eq!(p.status, ProposalStatus::Active);
    assert_eq!(p.start_time, 0);
    assert_eq!(p.end_time, 100);
    let q = s.get_proposal(1).unwrap();
    assert_eq!(q.start_time, 10);
    assert_eq!(q.end_time, 60);
}

#[test]
fn create_proposal_rejects_empty_description() {
    let mut s = GovernanceState::initialize(ADMIN);
    assert_eq!(
        s.create_proposal(ALICE, "t".to_string(), "".to_string(), 100, 0),
        Err(ErrorCode::EmptyDescription)
    );
    assert_eq!(s.proposal_count, 0);
}

#[test]
fn create_proposal_rejects_bad_period() {
    let mut s = GovernanceState::initialize(ADMIN);
    assert_eq!(
        s.create_proposal(ALICE, "t".to_string(), "d".to_string(), 0, 0),
        Err(ErrorCode::InvalidVotingPeriod)
    );
    assert_eq!(
        s.create_proposal(ALICE, "t".to_string(), "d".to_string(), -5, 0),
        Err(ErrorCode::InvalidVotingPeriod)
    );
}

#[test]
fn create_proposal_rejects_window_past_max_time() {
    let mut s = GovernanceState::initialize(ADMIN);
    assert_eq!(
        s.create_proposal(ALICE, "t".to_string(), "d".to_string(), 10, i64::MAX - 5),
        Err(ErrorCode::TimeOverflow)
    );
}

#[test]
fn flat_vote_counts_one() {
    let mut s = state_with_voters();
    let pid = s
        .create_proposal(ALICE, "t".to_string(), "d".to_string(), 100, 0)
        .unwrap();
    let ev = s.vote(ALICE, pid, VoteType::Yes, 0).unwrap();
    assert_eq!(ev.proposal_id, pid);
    assert_eq!(ev.voter, ALICE);
    assert_eq!(ev.vote_type, VoteType::Yes);
    assert_eq!(ev.effective_power, 1);
    assert_eq!(ev.requested_power, None);
    let p = s.get_proposal(pid).unwrap();
    assert_eq!(p.yes_votes, 1);
    assert_eq!(p.no_votes, 0);
    assert!(s.has_voted(ALICE, pid));
}

#[test]
fn vote_rejects_unknown_proposal() {
    let mut s = state_with_voters();
    assert_eq!(s.vote(ALICE, 0, VoteType::Yes, 0), Err(ErrorCode::ProposalNotFound));
}

#[test]
fn vote_rejects_unknown_voter() {
    let mut s = state_with_voters();
    let pid = s
        .create_proposal(ALICE, "t".to_string(), "d".to_string(), 100, 0)
        .unwrap();
    assert_eq!(s.vote(99, pid, VoteType::Yes, 0), Err(ErrorCode::VoterNotFound));
}

#[test]
fn vote_rejects_before_window() {
    let mut s = state_with_voters();
    let pid = s
        .create_proposal(ALICE, "t".to_string(), "d".to_string(), 100, 50)
        .unwrap();
    assert_eq!(s.vote(ALICE, pid, VoteType::Yes, 49), Err(ErrorCode::VotingPeriodNotStarted));
}

#[test]
fn vote_rejects_just_after_window() {
    let mut s = state_with_voters();
    let pid = s
        .create_proposal(ALICE, "t".to_string(), "d".to_string(), 100, 0)
        .unwrap();
    assert_eq!(s.vote(ALICE, pid, VoteType::Yes, 101), Err(ErrorCode::VotingPeriodEnded));
}

#[test]
fn vote_accepted_at_window_bounds() {
    let mut s = state_with_voters();
    let pid = s
        .create_proposal(ALICE, "t".to_string(), "d".to_string(), 100, 0)
        .unwrap();
    assert!(s.vote(ALICE, pid, VoteType::Yes, 0).is_ok());
    assert!(s.vote(BOB, pid, VoteType::No, 100).is_ok());
}

#[test]
fn second_vote_always_rejected() {
    let mut s = state_with_voters();
    let pid = s
        .create_proposal(ALICE, "t".to_string(), "d".to_string(), 100, 0)
        .unwrap();
    assert!(s.vote(ALICE, pid, VoteType::Yes, 10).is_ok());
    assert_eq!(s.vote(ALICE, pid, VoteType::Yes, 11), Err(ErrorCode::AlreadyVoted));
    assert_eq!(s.vote(ALICE, pid, VoteType::No, 12), Err(ErrorCode::AlreadyVoted));
    assert_eq!(
        s.vote_quadratic(ALICE, pid, VoteType::No, 100, 13),
        Err(ErrorCode::AlreadyVoted)
    );
    let p = s.get_proposal(pid).unwrap();
    assert_eq!(p.yes_votes, 1);
    assert_eq!(p.no_votes, 0);
}

#[test]
fn vote_rejects_finalized_proposal() {
    let mut s = state_with_voters();
    let pid = s
        .create_proposal(ALICE, "t".to_string(), "d".to_string(), 100, 0)
        .unwrap();
    assert!(s.finalize_proposal(pid, 101).is_ok());
    assert_eq!(s.vote(ALICE, pid, VoteType::Yes, 50), Err(ErrorCode::ProposalNotActive));
}

#[test]
fn finalize_rejected_at_exact_end_time() {
    let mut s = state_with_voters();
    let pid = s
        .create_proposal(ALICE, "t".to_string(), "d".to_string(), 100, 0)
        .unwrap();
    assert_eq!(s.finalize_proposal(pid, 100), Err(ErrorCode::VotingPeriodNotEnded));
    assert_eq!(s.get_proposal(pid).unwrap().status, ProposalStatus::Active);
}

#[test]
fn finalize_passes_on_strict_majority() {
    let mut s = state_with_voters();
    let pid = s
        .create_proposal(ALICE, "t".to_string(), "d".to_string(), 100, 0)
        .unwrap();
    assert!(s.vote(ALICE, pid, VoteType::Yes, 1).is_ok());
    assert!(s.vote(BOB, pid, VoteType::Yes, 2).is_ok());
    assert!(s.vote(CAROL, pid, VoteType::No, 3).is_ok());
    let ev = s.finalize_proposal(pid, 101).unwrap();
    assert_eq!(ev.proposal_id, pid);
    assert_eq!(ev.status, ProposalStatus::Passed);
    assert_eq!(ev.yes_votes, 2);
    assert_eq!(ev.no_votes, 1);
    assert_eq!(s.get_proposal(pid).unwrap().status, ProposalStatus::Passed);
}

#[test]
fn finalize_rejects_on_tie() {
    let mut s = state_with_voters();
    let pid = s
        .create_proposal(ALICE, "t".to_string(), "d".to_string(), 100, 0)
        .unwrap();
    assert!(s.vote(ALICE, pid, VoteType::Yes, 1).is_ok());
    assert!(s.vote(BOB, pid, VoteType::No, 2).is_ok());
    let ev = s.finalize_proposal(pid, 101).unwrap();
    assert_eq!(ev.status, ProposalStatus::Rejected);
    assert_eq!(s.get_proposal(pid).unwrap().status, ProposalStatus::Rejected);
}

#[test]
fn finalize_twice_always_fails() {
    let mut s = state_with_voters();
    let pid = s
        .create_proposal(ALICE, "t".to_string(), "d".to_string(), 100, 0)
        .unwrap();
    assert!(s.finalize_proposal(pid, 101).is_ok());
    assert_eq!(s.finalize_proposal(pid, 102), Err(ErrorCode::ProposalAlreadyFinalized));
    assert_eq!(s.finalize_proposal(pid, i64::MAX), Err(ErrorCode::ProposalAlreadyFinalized));
    assert_eq!(s.get_proposal(pid).unwrap().status, ProposalStatus::Rejected);
}

#[test]
fn finalize_rejects_unknown_proposal() {
    let mut s = state_with_voters();
    assert_eq!(s.finalize_proposal(7, 101), Err(ErrorCode::ProposalNotFound));
}

#[test]
fn tallies_equal_sum_of_accepted_powers() {
    let mut s = state_with_voters();
    let pid = s
        .create_proposal(ALICE, "t".to_string(), "d".to_string(), 100, 0)
        .unwrap();
    let mut accepted: u64 = 0;
    accepted += s.vote_quadratic(ALICE, pid, VoteType::Yes, 100, 0).unwrap().effective_power;
    accepted += s.vote(BOB, pid, VoteType::No, 1).unwrap().effective_power;
    accepted += s.vote_quadratic(CAROL, pid, VoteType::Yes, 30, 2).unwrap().effective_power;
    assert!(s.finalize_proposal(pid, 101).is_ok());
    let p = s.get_proposal(pid).unwrap();
    assert_eq!(p.yes_votes + p.no_votes, accepted);
}

#[test]
fn reputation_grows_by_one_per_vote() {
    let mut s = state_with_voters();
    let p0 = s
        .create_proposal(ALICE, "t".to_string(), "d".to_string(), 100, 0)
        .unwrap();
    let p1 = s
        .create_proposal(ALICE, "t".to_string(), "d".to_string(), 100, 0)
        .unwrap();
    assert_eq!(s.get_voter(ALICE).unwrap().reputation, 100);
    assert!(s.vote(ALICE, p0, VoteType::Yes, 5).is_ok());
    let v = s.get_voter(ALICE).unwrap();
    assert_eq!(v.reputation, 101);
    assert_eq!(v.last_vote_time, 5);
    assert!(s.vote(ALICE, p1, VoteType::Yes, 9).is_ok());
    let v = s.get_voter(ALICE).unwrap();
    assert_eq!(v.reputation, 102);
    assert_eq!(v.last_vote_time, 9);
}

#[test]
fn reputation_saturates_at_cap() {
    let mut s = GovernanceState::initialize(ADMIN);
    assert_eq!(s.register_voter(ADMIN, ALICE, 100), Ok(()));
    let mut i: u64 = 0;
    while i < 110 {
        let pid = s
            .create_proposal(ALICE, "t".to_string(), "d".to_string(), 10, 0)
            .unwrap();
        assert!(s.vote(ALICE, pid, VoteType::Yes, 0).is_ok());
        i += 1;
    }
    assert_eq!(s.get_voter(ALICE).unwrap().reputation, 200);
}

#[test]
fn delegation_is_strict_and_reversible() {
    let mut s = state_with_voters();
    assert_eq!(s.undelegate(ALICE), Err(ErrorCode::NotDelegated));
    assert_eq!(s.delegate(ALICE, BOB), Ok(()));
    assert_eq!(s.get_voter(ALICE).unwrap().delegated_to, Some(BOB));
    assert_eq!(s.delegate(ALICE, CAROL), Err(ErrorCode::AlreadyDelegated));
    assert_eq!(s.get_voter(ALICE).unwrap().delegated_to, Some(BOB));
    assert_eq!(s.undelegate(ALICE), Ok(()));
    assert_eq!(s.get_voter(ALICE).unwrap().delegated_to, None);
    assert_eq!(s.undelegate(ALICE), Err(ErrorCode::NotDelegated));
}

#[test]
fn delegation_requires_registration() {
    let mut s = GovernanceState::initialize(ADMIN);
    assert_eq!(s.delegate(ALICE, BOB), Err(ErrorCode::VoterNotFound));
    assert_eq!(s.undelegate(ALICE), Err(ErrorCode::VoterNotFound));
}

#[test]
fn quadratic_vote_matches_formula_at_full_power() {
    // decay 1 (never voted, now = 0), reputation factor 1.0, base 100,
    // request 100: capped = effective = 100, ratio 1, so the formula is
    // floor(sqrt(100) * (1 + ln(1))) = 10.
    let mut s = state_with_voters();
    let pid = s
        .create_proposal(ALICE, "t".to_string(), "d".to_string(), 100, 0)
        .unwrap();
    let ev = s.vote_quadratic(ALICE, pid, VoteType::Yes, 100, 0).unwrap();
    assert_eq!(ev.effective_power, 10);
    assert_eq!(ev.requested_power, Some(100));
    assert_eq!(s.get_proposal(pid).unwrap().yes_votes, 10);
}

#[test]
fn quadratic_vote_applies_decay_and_reputation() {
    let mut s = state_with_voters();
    let p0 = s
        .create_proposal(ALICE, "t".to_string(), "d".to_string(), 100, 0)
        .unwrap();
    assert!(s.vote(ALICE, p0, VoteType::Yes, 0).is_ok());
    // Fifteen days later: decay 0.5, reputation 101 (factor 1.01), so the
    // effective base is floor(100 * 0.5 * 1.01) = 50, the request is capped
    // there (ratio 1), and the power is floor(sqrt(50)) = 7.
    let mid: i64 = 1296000;
    let p1 = s
        .create_proposal(ALICE, "t".to_string(), "d".to_string(), 100, mid)
        .unwrap();
    let ev = s.vote_quadratic(ALICE, p1, VoteType::Yes, 100, mid).unwrap();
    assert_eq!(ev.effective_power, 7);
}

#[test]
fn quadratic_vote_rejects_powerless_request() {
    let mut s = state_with_voters();
    let pid = s
        .create_proposal(ALICE, "t".to_string(), "d".to_string(), 100, 0)
        .unwrap();
    assert_eq!(
        s.vote_quadratic(ALICE, pid, VoteType::Yes, 0, 0),
        Err(ErrorCode::NoEffectivePower)
    );
    assert!(!s.has_voted(ALICE, pid));
    assert_eq!(s.get_proposal(pid).unwrap().yes_votes, 0);
}

#[test]
fn quadratic_vote_power_bounded_by_request() {
    let mut s = state_with_voters();
    let pid = s
        .create_proposal(ALICE, "t".to_string(), "d".to_string(), 100, 0)
        .unwrap();
    let ev = s.vote_quadratic(ALICE, pid, VoteType::Yes, 37, 0).unwrap();
    assert!(ev.effective_power >= 1);
    assert!(ev.effective_power <= 37);
}
