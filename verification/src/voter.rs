use vstd::prelude::*;
use crate::errors::ErrorCode;
use crate::types::AccountId;

verus! {

/// One registered voter: raw influence, participation score, the time of
/// the most recent cast vote (0 if never voted), and at most one
/// delegation target. Delegation is a pure redirect flag: it marks who may
/// represent this voter but transfers no power by itself.
#[derive(Clone, Copy, Debug)]
pub struct Voter {
    pub id: AccountId,
    pub base_power: u64,
    pub reputation: u8,
    pub last_vote_time: i64,
    pub delegated_to: Option<AccountId>,
}

/// Reputation saturates at 200: one point per successful vote, never more.
pub open spec fn spec_bump_reputation(rep: int) -> int {
    if rep >= 200 {
        200
    } else {
        rep + 1
    }
}

/// A successful vote never lowers reputation and never pushes it past 200.
pub proof fn lemma_reputation_monotone(rep: int)
    requires
        0 <= rep <= 200,
    ensures
        rep <= spec_bump_reputation(rep) <= 200,
{
}

impl Voter {
    /// Well-formedness: the reputation stays in [0, 200] and the last vote
    /// time is a real (non-negative) timestamp or the never-voted marker 0.
    pub open spec fn wf(self) -> bool {
        self.reputation <= 200 && self.last_vote_time >= 0
    }

    /// Whether a `delegate` call would succeed: no delegation in place yet.
    pub open spec fn delegate_ok(self) -> bool {
        self.delegated_to is None
    }

    /// Whether an `undelegate` call would succeed: a delegation in place.
    pub open spec fn undelegate_ok(self) -> bool {
        self.delegated_to is Some
    }

    /// A fresh voter: neutral reputation 100, never voted, no delegation.
    pub fn new(id: AccountId, base_power: u64) -> (v: Voter)
        ensures
            v.wf(),
            v.id == id,
            v.base_power == base_power,
            v.reputation == 100,
            v.last_vote_time == 0,
            v.delegated_to is None,
    {
        Voter { id, base_power, reputation: 100, last_vote_time: 0, delegated_to: None }
    }

    /// Sets the delegation target, strictly: a voter who has already
    /// delegated must undelegate first. (The permissive alternative, a
    /// silent overwrite of the old target, is deliberately not offered:
    /// rejection is the canonical policy here.)
    pub fn delegate(&mut self, target: AccountId) -> (r: Result<(), ErrorCode>)
        ensures
            r is Ok <==> old(self).delegate_ok(),
            r is Ok ==> final(self).delegated_to == Some(target),
            r is Err ==> r == Err::<(), ErrorCode>(ErrorCode::AlreadyDelegated) && *final(self)
                == *old(self),
            final(self).id == old(self).id,
            final(self).base_power == old(self).base_power,
            final(self).reputation == old(self).reputation,
            final(self).last_vote_time == old(self).last_vote_time,
    {
        if self.delegated_to.is_some() {
            Err(ErrorCode::AlreadyDelegated)
        } else {
            self.delegated_to = Some(target);
            Ok(())
        }
    }

    /// Clears the delegation target; fails if none is in place.
    pub fn undelegate(&mut self) -> (r: Result<(), ErrorCode>)
        ensures
            r is Ok <==> old(self).undelegate_ok(),
            r is Ok ==> final(self).delegated_to is None,
            r is Err ==> r == Err::<(), ErrorCode>(ErrorCode::NotDelegated) && *final(self)
                == *old(self),
            final(self).id == old(self).id,
            final(self).base_power == old(self).base_power,
            final(self).reputation == old(self).reputation,
            final(self).last_vote_time == old(self).last_vote_time,
    {
        if self.delegated_to.is_some() {
            self.delegated_to = None;
            Ok(())
        } else {
            Err(ErrorCode::NotDelegated)
        }
    }

    /// Bookkeeping after a vote is accepted: the last-vote time moves to
    /// now and the reputation gains one point, saturating at 200.
    pub fn record_successful_vote(&mut self, now: i64)
        requires
            old(self).wf(),
            now >= 0,
        ensures
            final(self).wf(),
            final(self).last_vote_time == now,
            final(self).reputation as int == spec_bump_reputation(old(self).reputation as int),
            old(self).reputation <= final(self).reputation,
            final(self).id == old(self).id,
            final(self).base_power == old(self).base_power,
            final(self).delegated_to == old(self).delegated_to,
    {
        self.last_vote_time = now;
        if self.reputation < 200 {
            self.reputation = self.reputation + 1;
        }
    }
}

/// A second `delegate` immediately after a successful one must fail:
/// a successful call leaves a target in place, and `delegate` succeeds
/// only while none is in place.
pub proof fn lemma_no_double_delegation(after: Voter, t1: AccountId)
    requires
        after.delegated_to == Some(t1),
    ensures
        !after.delegate_ok(),
{
}

/// `undelegate` without a prior `delegate` must fail: it succeeds only
/// while a target is in place.
pub proof fn lemma_undelegate_needs_delegation(v: Voter)
    requires
        v.delegated_to is None,
    ensures
        !v.undelegate_ok(),
{
}

} // verus!
