use vstd::prelude::*;
use crate::errors::ErrorCode;
use crate::types::{AccountId, ProposalStatus, ProposalFinalizedEvent, VoteType};

verus! {

/// One proposal: identity, text, accumulated effective tallies, lifecycle
/// status and the voting window `[start_time, end_time]`.
#[derive(Debug)]
pub struct Proposal {
    pub id: u64,
    pub title: String,
    pub description: String,
    pub creator: AccountId,
    pub yes_votes: u64,
    pub no_votes: u64,
    pub status: ProposalStatus,
    pub start_time: i64,
    pub end_time: i64,
}

impl Proposal {
    /// Well-formedness: the voting window is real and starts at a real
    /// timestamp.
    pub open spec fn wf(self) -> bool {
        0 <= self.start_time < self.end_time
    }

    /// Two proposals that agree on every field (text compared by content).
    pub open spec fn equiv(self, o: Proposal) -> bool {
        self.id == o.id && self.title@ == o.title@ && self.description@ == o.description@
            && self.creator == o.creator && self.yes_votes == o.yes_votes && self.no_votes
            == o.no_votes && self.status == o.status && self.start_time == o.start_time
            && self.end_time == o.end_time
    }

    /// The strict voting window: a vote must arrive no earlier than
    /// `start_time` and no later than `end_time`, inclusive on both ends.
    /// (The permissive alternative, which would also admit votes before
    /// `start_time`, is deliberately not offered.)
    pub open spec fn voting_open(self, now: int) -> bool {
        self.start_time <= now <= self.end_time
    }

    /// The guard a vote must pass, with its error precedence: status
    /// first, then the lower window bound, then the upper.
    pub open spec fn spec_vote_guard(self, now: int) -> Option<ErrorCode> {
        if !(self.status is Active) {
            Some(ErrorCode::ProposalNotActive)
        } else if now < self.start_time {
            Some(ErrorCode::VotingPeriodNotStarted)
        } else if now > self.end_time {
            Some(ErrorCode::VotingPeriodEnded)
        } else {
            None
        }
    }

    /// The guard a finalization must pass: the window must be strictly
    /// over (`now > end_time`), and only an active proposal can be closed.
    pub open spec fn spec_finalize_guard(self, now: int) -> Option<ErrorCode> {
        if now <= self.end_time {
            Some(ErrorCode::VotingPeriodNotEnded)
        } else if !(self.status is Active) {
            Some(ErrorCode::ProposalAlreadyFinalized)
        } else {
            None
        }
    }

    /// The terminal status a finalization assigns: passed on a strict
    /// majority of effective yes power, rejected on a tie or worse.
    pub open spec fn spec_final_status(self) -> ProposalStatus {
        if self.yes_votes > self.no_votes {
            ProposalStatus::Passed
        } else {
            ProposalStatus::Rejected
        }
    }

    /// Creates a proposal: active, zero tallies, window `[now, now + period]`.
    /// Rejects an empty description, a non-positive period, and a window
    /// end that would wrap past the largest timestamp.
    pub fn new(
        id: u64,
        title: String,
        description: String,
        creator: AccountId,
        voting_period: i64,
        now: i64,
    ) -> (r: Result<Proposal, ErrorCode>)
        requires
            now >= 0,
        ensures
            match r {
                Ok(p) => description@.len() > 0 && voting_period > 0 && now + voting_period
                    <= i64::MAX && p.id == id && p.title@ == title@ && p.description@
                    == description@ && p.creator == creator && p.yes_votes == 0 && p.no_votes == 0
                    && p.status is Active && p.start_time == now && p.end_time == now
                    + voting_period && p.wf(),
                Err(e) => (e == ErrorCode::EmptyDescription && description@.len() == 0) || (e
                    == ErrorCode::InvalidVotingPeriod && description@.len() > 0 && voting_period
                    <= 0) || (e == ErrorCode::TimeOverflow && description@.len() > 0
                    && voting_period > 0 && now + voting_period > i64::MAX),
            },
    {
        if description.as_str().is_empty() {
            return Err(ErrorCode::EmptyDescription);
        }
        if voting_period <= 0 {
            return Err(ErrorCode::InvalidVotingPeriod);
        }
        if voting_period > i64::MAX - now {
            return Err(ErrorCode::TimeOverflow);
        }
        Ok(
            Proposal {
                id,
                title,
                description,
                creator,
                yes_votes: 0,
                no_votes: 0,
                status: ProposalStatus::Active,
                start_time: now,
                end_time: now + voting_period,
            },
        )
    }

    /// Tests the vote guard at a given time, with its error precedence.
    pub fn check_vote(&self, now: i64) -> (r: Result<(), ErrorCode>)
        ensures
            match r {
                Ok(()) => self.spec_vote_guard(now as int) is None,
                Err(e) => self.spec_vote_guard(now as int) == Some(e),
            },
    {
        if self.status != ProposalStatus::Active {
            return Err(ErrorCode::ProposalNotActive);
        }
        if now < self.start_time {
            return Err(ErrorCode::VotingPeriodNotStarted);
        }
        if now > self.end_time {
            return Err(ErrorCode::VotingPeriodEnded);
        }
        Ok(())
    }

    /// Adds one cast vote's effective power to the chosen tally, with a
    /// checked addition: on overflow nothing changes. The vote guard has
    /// already been passed by the caller.
    pub fn add_vote(&mut self, vote_type: VoteType, power: u64) -> (r: Result<(), ErrorCode>)
        ensures
            match r {
                Ok(()) => ({
                    &&& vote_type is Yes ==> final(self).yes_votes == old(self).yes_votes + power
                        && final(self).no_votes == old(self).no_votes
                    &&& vote_type is No ==> final(self).no_votes == old(self).no_votes + power
                        && final(self).yes_votes == old(self).yes_votes
                }),
                Err(e) => e == ErrorCode::NumericalOverflow && final(self).equiv(*old(self)) && (
                (vote_type is Yes && old(self).yes_votes + power > u64::MAX) || (vote_type is No
                    && old(self).no_votes + power > u64::MAX)),
            },
            r is Ok <==> (vote_type is Yes && old(self).yes_votes + power <= u64::MAX) || (
            vote_type is No && old(self).no_votes + power <= u64::MAX),
            final(self).id == old(self).id,
            final(self).title@ == old(self).title@,
            final(self).description@ == old(self).description@,
            final(self).creator == old(self).creator,
            final(self).status == old(self).status,
            final(self).start_time == old(self).start_time,
            final(self).end_time == old(self).end_time,
    {
        match vote_type {
            VoteType::Yes => {
                if power > u64::MAX - self.yes_votes {
                    return Err(ErrorCode::NumericalOverflow);
                }
                self.yes_votes = self.yes_votes + power;
            },
            VoteType::No => {
                if power > u64::MAX - self.no_votes {
                    return Err(ErrorCode::NumericalOverflow);
                }
                self.no_votes = self.no_votes + power;
            },
        }
        Ok(())
    }

    /// Closes the voting: strictly after the window's end, an active
    /// proposal moves exactly once to `Passed` or `Rejected`, and the
    /// final tallies are reported. A second attempt always fails.
    pub fn finalize(&mut self, now: i64) -> (r: Result<ProposalFinalizedEvent, ErrorCode>)
        ensures
            match r {
                Ok(ev) => ({
                    &&& old(self).spec_finalize_guard(now as int) is None
                    &&& final(self).status == old(self).spec_final_status()
                    &&& (final(self).status is Passed <==> old(self).yes_votes
                        > old(self).no_votes)
                    &&& ev == (ProposalFinalizedEvent {
                        proposal_id: old(self).id,
                        status: old(self).spec_final_status(),
                        yes_votes: old(self).yes_votes,
                        no_votes: old(self).no_votes,
                    })
                }),
                Err(e) => old(self).spec_finalize_guard(now as int) == Some(e)
                    && final(self).equiv(*old(self)),
            },
            final(self).id == old(self).id,
            final(self).title@ == old(self).title@,
            final(self).description@ == old(self).description@,
            final(self).creator == old(self).creator,
            final(self).yes_votes == old(self).yes_votes,
            final(self).no_votes == old(self).no_votes,
            final(self).start_time == old(self).start_time,
            final(self).end_time == old(self).end_time,
    {
        if now <= self.end_time {
            return Err(ErrorCode::VotingPeriodNotEnded);
        }
        if !matches!(self.status, ProposalStatus::Active) {
            return Err(ErrorCode::ProposalAlreadyFinalized);
        }
        self.status = if self.yes_votes > self.no_votes {
            ProposalStatus::Passed
        } else {
            ProposalStatus::Rejected
        };
        Ok(
            ProposalFinalizedEvent {
                proposal_id: self.id,
                status: self.status,
                yes_votes: self.yes_votes,
                no_votes: self.no_votes,
            },
        )
    }
}

/// A proposal's status moves at most once, and only from `Active` to
/// `Passed` or `Rejected`: a successful finalization leaves a terminal
/// status, and with a terminal status the finalization guard can never
/// pass again, so the second of two finalizations always fails.
pub proof fn lemma_finalize_at_most_once(p: Proposal, now1: int, now2: int, q: Proposal)
    requires
        p.spec_finalize_guard(now1) is None,
        q.status == p.spec_final_status(),
    ensures
        p.spec_final_status() is Passed || p.spec_final_status() is Rejected,
        q.spec_finalize_guard(now2) is Some,
        now2 > q.end_time ==> q.spec_finalize_guard(now2) == Some(
            ErrorCode::ProposalAlreadyFinalized,
        ),
{
}

} // verus!
