use vstd::prelude::*;
use crate::errors::ErrorCode;
use crate::types::{AccountId, VoteType, VoteEvent, ProposalFinalizedEvent};
use crate::voter::Voter;
use crate::proposal::Proposal;
use crate::power::{compute_voting_power, spec_capped_power, spec_effective_base, spec_quadratic_power};

verus! {

/// One entry of the vote ledger: the record that a given voter cast a
/// given vote on a given proposal. Records are created on the first
/// (successful) vote and never removed, so holding a record is exactly
/// what "has voted" means.
#[derive(Clone, Copy, Debug)]
pub struct VoteRecord {
    pub voter: AccountId,
    pub proposal_id: u64,
    pub has_voted: bool,
    pub vote_type: Option<VoteType>,
    pub effective_power: u64,
}

impl VoteRecord {
    /// A ledger entry always describes a completed vote that carried
    /// at least one unit of effective power.
    pub open spec fn wf(self) -> bool {
        self.has_voted && self.vote_type is Some && self.effective_power >= 1
    }
}

/// The sum of the effective powers of the recorded votes on proposal
/// `pid` cast in direction `vt`.
pub open spec fn spec_tally(votes: Seq<VoteRecord>, pid: u64, vt: VoteType) -> int
    decreases votes.len(),
{
    if votes.len() == 0 {
        0
    } else {
        spec_tally(votes.drop_last(), pid, vt) + if votes.last().proposal_id == pid
            && votes.last().vote_type == Some(vt) {
            votes.last().effective_power as int
        } else {
            0
        }
    }
}

/// Appending one record raises exactly the tally it belongs to, by its
/// effective power, and no other.
pub proof fn lemma_tally_push(votes: Seq<VoteRecord>, r: VoteRecord, pid: u64, vt: VoteType)
    ensures
        spec_tally(votes.push(r), pid, vt) == spec_tally(votes, pid, vt) + if r.proposal_id == pid
            && r.vote_type == Some(vt) {
            r.effective_power as int
        } else {
            0
        },
{
    assert(votes.push(r).drop_last() =~= votes);
    assert(votes.push(r).last() == r);
}

/// A proposal nobody has voted on has zero tallies.
pub proof fn lemma_tally_absent(votes: Seq<VoteRecord>, pid: u64, vt: VoteType)
    requires
        forall|k: int| 0 <= k < votes.len() ==> (#[trigger] votes[k]).proposal_id != pid,
    ensures
        spec_tally(votes, pid, vt) == 0,
    decreases votes.len(),
{
    if votes.len() > 0 {
        lemma_tally_absent(votes.drop_last(), pid, vt);
    }
}

/// The whole governance instance: the admin identity, the proposal
/// counter (the source of proposal ids), the aggregate registered base
/// power, and the three record stores. Proposals are dense (the id is
/// the position), voters and vote records are sparse, keyed by identity
/// and by (identity, proposal id).
pub struct GovernanceState {
    pub admin: AccountId,
    pub proposal_count: u64,
    pub total_base_power: u64,
    pub voters: Vec<Voter>,
    pub proposals: Vec<Proposal>,
    pub votes: Vec<VoteRecord>,
}

impl GovernanceState {
    /// Proposal ids are exactly the positions below the counter, and
    /// every proposal has a real voting window.
    pub open spec fn proposals_wf(self) -> bool {
        &&& self.proposal_count == self.proposals@.len()
        &&& forall|i: int|
            0 <= i < self.proposals@.len() ==> (#[trigger] self.proposals@[i]).id == i
        &&& forall|i: int| 0 <= i < self.proposals@.len() ==> (#[trigger] self.proposals@[i]).wf()
    }

    /// Voter identities are unique and every record is well-formed.
    pub open spec fn voters_wf(self) -> bool {
        &&& forall|i: int, j: int|
            #![trigger self.voters@[i], self.voters@[j]]
            0 <= i < j < self.voters@.len() ==> self.voters@[i].id != self.voters@[j].id
        &&& forall|i: int| 0 <= i < self.voters@.len() ==> (#[trigger] self.voters@[i]).wf()
    }

    /// Ledger entries are well-formed, point at issued proposals, and no
    /// (voter, proposal) pair appears twice: at most one vote each.
    pub open spec fn votes_wf(self) -> bool {
        &&& forall|k: int| 0 <= k < self.votes@.len() ==> (#[trigger] self.votes@[k]).wf()
        &&& forall|k: int|
            0 <= k < self.votes@.len() ==> (#[trigger] self.votes@[k]).proposal_id
                < self.proposal_count
        &&& forall|k: int, l: int|
            #![trigger self.votes@[k], self.votes@[l]]
            0 <= k < l < self.votes@.len() ==> !(self.votes@[k].voter == self.votes@[l].voter
                && self.votes@[k].proposal_id == self.votes@[l].proposal_id)
    }

    /// Tally conservation: each proposal's recorded tallies are exactly
    /// the sums of the effective powers of the accepted votes on it.
    pub open spec fn tallies_wf(self) -> bool {
        forall|p: int|
            0 <= p < self.proposals@.len() ==> (#[trigger] self.proposals@[p]).yes_votes
                == spec_tally(self.votes@, p as u64, VoteType::Yes) && self.proposals@[p].no_votes
                == spec_tally(self.votes@, p as u64, VoteType::No)
    }

    /// The state invariant every operation preserves.
    pub open spec fn wf(self) -> bool {
        self.proposals_wf() && self.voters_wf() && self.votes_wf() && self.tallies_wf()
    }

    /// Two states that agree on everything (proposal text by content).
    pub open spec fn equiv(self, o: GovernanceState) -> bool {
        &&& self.admin == o.admin
        &&& self.proposal_count == o.proposal_count
        &&& self.total_base_power == o.total_base_power
        &&& self.voters@ == o.voters@
        &&& self.votes@ == o.votes@
        &&& self.proposals@.len() == o.proposals@.len()
        &&& forall|i: int|
            0 <= i < self.proposals@.len() ==> (#[trigger] self.proposals@[i]).equiv(
                o.proposals@[i],
            )
    }

    /// Whether an identity is registered.
    pub open spec fn spec_has_voter(self, id: AccountId) -> bool {
        exists|i: int| 0 <= i < self.voters@.len() && (#[trigger] self.voters@[i]).id == id
    }

    /// The position of a registered identity's record.
    pub open spec fn spec_voter_index_of(self, id: AccountId) -> int {
        choose|i: int| 0 <= i < self.voters@.len() && (#[trigger] self.voters@[i]).id == id
    }

    /// The record of a registered identity.
    pub open spec fn spec_voter_at(self, id: AccountId) -> Voter {
        self.voters@[self.spec_voter_index_of(id)]
    }

    /// Whether the id was issued, that is, names a proposal.
    pub open spec fn spec_has_proposal(self, pid: u64) -> bool {
        pid < self.proposals@.len()
    }

    /// The proposal a (valid) id names.
    pub open spec fn spec_proposal_at(self, pid: u64) -> Proposal {
        self.proposals@[pid as int]
    }

    /// Whether the ledger holds a record for this (voter, proposal) pair.
    pub open spec fn spec_has_voted(self, voter_id: AccountId, pid: u64) -> bool {
        exists|k: int|
            0 <= k < self.votes@.len() && (#[trigger] self.votes@[k]).voter == voter_id
                && self.votes@[k].proposal_id == pid
    }

    /// Under the uniqueness invariant, any position holding an identity
    /// is the position the spec lookup names.
    pub proof fn lemma_voter_index_is(self, i: int, id: AccountId)
        requires
            self.voters_wf(),
            0 <= i < self.voters@.len(),
            self.voters@[i].id == id,
        ensures
            self.spec_has_voter(id),
            self.spec_voter_index_of(id) == i,
            self.spec_voter_at(id) == self.voters@[i],
    {
        assert(self.spec_has_voter(id));
        let c: int = self.spec_voter_index_of(id);
        if c < i {
            assert(self.voters@[c].id != self.voters@[i].id);
        } else if i < c {
            assert(self.voters@[i].id != self.voters@[c].id);
        }
    }

    /// A fresh governance instance for an admin: no proposals, no voters,
    /// no votes, zero aggregate power.
    pub fn initialize(admin: AccountId) -> (s: GovernanceState)
        ensures
            s.wf(),
            s.admin == admin,
            s.proposal_count == 0,
            s.total_base_power == 0,
            s.voters@.len() == 0,
            s.proposals@.len() == 0,
            s.votes@.len() == 0,
    {
        GovernanceState {
            admin,
            proposal_count: 0,
            total_base_power: 0,
            voters: Vec::new(),
            proposals: Vec::new(),
            votes: Vec::new(),
        }
    }

    /// Finds a voter's position in the registry.
    fn find_voter_index(&self, id: AccountId) -> (r: Option<usize>)
        ensures
            match r {
                Some(i) => i < self.voters@.len() && self.voters@[i as int].id == id,
                None => !self.spec_has_voter(id),
            },
    {
        let mut i: usize = 0;
        while i < self.voters.len()
            invariant
                i <= self.voters@.len(),
                forall|j: int| 0 <= j < i ==> (#[trigger] self.voters@[j]).id != id,
            decreases self.voters@.len() - i,
        {
            if self.voters[i].id == id {
                return Some(i);
            }
            i = i + 1;
        }
        None
    }

    /// Finds the ledger record of a (voter, proposal) pair.
    fn find_vote_index(&self, voter_id: AccountId, pid: u64) -> (r: Option<usize>)
        ensures
            match r {
                Some(k) => k < self.votes@.len() && self.votes@[k as int].voter == voter_id
                    && self.votes@[k as int].proposal_id == pid,
                None => !self.spec_has_voted(voter_id, pid),
            },
    {
        let mut k: usize = 0;
        while k < self.votes.len()
            invariant
                k <= self.votes@.len(),
                forall|j: int|
                    0 <= j < k ==> !((#[trigger] self.votes@[j]).voter == voter_id
                        && self.votes@[j].proposal_id == pid),
            decreases self.votes@.len() - k,
        {
            if self.votes[k].voter == voter_id && self.votes[k].proposal_id == pid {
                return Some(k);
            }
            k = k + 1;
        }
        None
    }

    /// Registers a voter with a given base power. Only the admin may do
    /// this; the identity must be new; and the aggregate base power is
    /// raised with a checked addition, so it never wraps.
    pub fn register_voter(&mut self, caller: AccountId, voter_id: AccountId, base_power: u64) -> (r:
        Result<(), ErrorCode>)
        requires
            old(self).wf(),
        ensures
            final(self).wf(),
            final(self).admin == old(self).admin,
            final(self).proposal_count == old(self).proposal_count,
            final(self).proposals@ == old(self).proposals@,
            final(self).votes@ == old(self).votes@,
            match r {
                Ok(()) => ({
                    &&& caller == old(self).admin
                    &&& !old(self).spec_has_voter(voter_id)
                    &&& old(self).total_base_power + base_power <= u64::MAX
                    &&& final(self).total_base_power == old(self).total_base_power + base_power
                    &&& final(self).voters@ == old(self).voters@.push(
                        (Voter {
                            id: voter_id,
                            base_power,
                            reputation: 100,
                            last_vote_time: 0,
                            delegated_to: None,
                        }),
                    )
                }),
                Err(e) => ({
                    &&& final(self).equiv(*old(self))
                    &&& (e == ErrorCode::NotAdmin && caller != old(self).admin) || (e
                        == ErrorCode::AlreadyRegistered && caller == old(self).admin && old(self).spec_has_voter(voter_id)) || (e == ErrorCode::NumericalOverflow && caller
                        == old(self).admin && !old(self).spec_has_voter(voter_id) && old(self).total_base_power + base_power > u64::MAX)
                }),
            },
    {
        if caller != self.admin {
            return Err(ErrorCode::NotAdmin);
        }
        if self.find_voter_index(voter_id).is_some() {
            return Err(ErrorCode::AlreadyRegistered);
        }
        if base_power > u64::MAX - self.total_base_power {
            return Err(ErrorCode::NumericalOverflow);
        }
        self.total_base_power = self.total_base_power + base_power;
        let v = Voter::new(voter_id, base_power);
        self.voters.push(v);
        Ok(())
    }

    /// Marks `voter_id` as represented by `target`, strictly: an existing
    /// delegation must be cleared first. Delegation only redirects who may
    /// cast a future vote; it transfers no power by itself.
    pub fn delegate(&mut self, voter_id: AccountId, target: AccountId) -> (r: Result<
        (),
        ErrorCode,
    >)
        requires
            old(self).wf(),
        ensures
            final(self).wf(),
            final(self).admin == old(self).admin,
            final(self).proposal_count == old(self).proposal_count,
            final(self).total_base_power == old(self).total_base_power,
            final(self).proposals@ == old(self).proposals@,
            final(self).votes@ == old(self).votes@,
            match r {
                Ok(()) => ({
                    &&& old(self).spec_has_voter(voter_id)
                    &&& old(self).spec_voter_at(voter_id).delegate_ok()
                    &&& final(self).voters@ == old(self).voters@.update(
                        old(self).spec_voter_index_of(voter_id),
                        (Voter {
                            delegated_to: Some(target),
                            ..old(self).spec_voter_at(voter_id)
                        }),
                    )
                }),
                Err(e) => ({
                    &&& final(self).voters@ == old(self).voters@
                    &&& (e == ErrorCode::VoterNotFound && !old(self).spec_has_voter(voter_id)) || (
                    e == ErrorCode::AlreadyDelegated && old(self).spec_has_voter(voter_id) && !old(self).spec_voter_at(voter_id).delegate_ok())
                }),
            },
    {
        let vi: usize = match self.find_voter_index(voter_id) {
            Some(i) => i,
            None => {
                return Err(ErrorCode::VoterNotFound);
            },
        };
        proof {
            old(self).lemma_voter_index_is(vi as int, voter_id);
        }
        let v = &mut self.voters[vi];
        let res = v.delegate(target);
        proof {
            if res is Err {
                assert(final(self).voters@ =~= old(self).voters@);
            }
            assert forall|k: int| 0 <= k < final(self).voters@.len() implies (
            #[trigger] final(self).voters@[k]).id == old(self).voters@[k].id && final(self).voters@[k].wf() by {
                assert(old(self).voters@[k].wf());
            }
        }
        res
    }

    /// Clears `voter_id`'s delegation; fails if none is in place.
    pub fn undelegate(&mut self, voter_id: AccountId) -> (r: Result<(), ErrorCode>)
        requires
            old(self).wf(),
        ensures
            final(self).wf(),
            final(self).admin == old(self).admin,
            final(self).proposal_count == old(self).proposal_count,
            final(self).total_base_power == old(self).total_base_power,
            final(self).proposals@ == old(self).proposals@,
            final(self).votes@ == old(self).votes@,
            match r {
                Ok(()) => ({
                    &&& old(self).spec_has_voter(voter_id)
                    &&& old(self).spec_voter_at(voter_id).undelegate_ok()
                    &&& final(self).voters@ == old(self).voters@.update(
                        old(self).spec_voter_index_of(voter_id),
                        (Voter { delegated_to: None, ..old(self).spec_voter_at(voter_id) }),
                    )
                }),
                Err(e) => ({
                    &&& final(self).voters@ == old(self).voters@
                    &&& (e == ErrorCode::VoterNotFound && !old(self).spec_has_voter(voter_id)) || (
                    e == ErrorCode::NotDelegated && old(self).spec_has_voter(voter_id) && !old(self).spec_voter_at(voter_id).undelegate_ok())
                }),
            },
    {
        let vi: usize = match self.find_voter_index(voter_id) {
            Some(i) => i,
            None => {
                return Err(ErrorCode::VoterNotFound);
            },
        };
        proof {
            old(self).lemma_voter_index_is(vi as int, voter_id);
        }
        let v = &mut self.voters[vi];
        let res = v.undelegate();
        proof {
            if res is Err {
                assert(final(self).voters@ =~= old(self).voters@);
            }
            assert forall|k: int| 0 <= k < final(self).voters@.len() implies (
            #[trigger] final(self).voters@[k]).id == old(self).voters@[k].id && final(self).voters@[k].wf() by {
                assert(old(self).voters@[k].wf());
            }
        }
        res
    }

    /// Creates a proposal: its id is the current counter value, its
    /// window opens now. Ids are issued in increasing order and never
    /// reused.
    pub fn create_proposal(
        &mut self,
        creator: AccountId,
        title: String,
        description: String,
        voting_period: i64,
        now: i64,
    ) -> (r: Result<u64, ErrorCode>)
        requires
            old(self).wf(),
            now >= 0,
        ensures
            final(self).wf(),
            final(self).admin == old(self).admin,
            final(self).total_base_power == old(self).total_base_power,
            final(self).voters@ == old(self).voters@,
            final(self).votes@ == old(self).votes@,
            match r {
                Ok(id) => ({
                    &&& id == old(self).proposal_count
                    &&& description@.len() > 0
                    &&& voting_period > 0
                    &&& now + voting_period <= i64::MAX
                    &&& old(self).proposal_count < u64::MAX
                    &&& final(self).proposal_count == old(self).proposal_count + 1
                    &&& final(self).proposals@.len() == old(self).proposals@.len() + 1
                    &&& forall|i: int|
                        0 <= i < old(self).proposals@.len() ==> (
                        #[trigger] final(self).proposals@[i]) == old(self).proposals@[i]
                    &&& ({
                        let p = final(self).spec_proposal_at(id);
                        p.id == id && p.title@ == title@ && p.description@ == description@
                            && p.creator == creator && p.yes_votes == 0 && p.no_votes == 0
                            && p.status is Active && p.start_time == now && p.end_time == now
                            + voting_period
                    })
                }),
                Err(e) => ({
                    &&& final(self).equiv(*old(self))
                    &&& (e == ErrorCode::EmptyDescription && description@.len() == 0) || (e
                        == ErrorCode::InvalidVotingPeriod && description@.len() > 0
                        && voting_period <= 0) || (e == ErrorCode::TimeOverflow
                        && description@.len() > 0 && voting_period > 0 && now + voting_period
                        > i64::MAX) || (e == ErrorCode::NumericalOverflow && description@.len() > 0
                        && voting_period > 0 && now + voting_period <= i64::MAX && old(self).proposal_count == u64::MAX)
                }),
            },
    {
        let id: u64 = self.proposal_count;
        let p: Proposal = match Proposal::new(id, title, description, creator, voting_period, now) {
            Ok(p) => p,
            Err(e) => {
                return Err(e);
            },
        };
        if self.proposal_count == u64::MAX {
            return Err(ErrorCode::NumericalOverflow);
        }
        proof {
            assert(forall|k: int|
                0 <= k < self.votes@.len() ==> (#[trigger] self.votes@[k]).proposal_id != id);
            lemma_tally_absent(self.votes@, id, VoteType::Yes);
            lemma_tally_absent(self.votes@, id, VoteType::No);
        }
        self.proposals.push(p);
        self.proposal_count = self.proposal_count + 1;
        Ok(id)
    }

    /// Finalizes a proposal: strictly after its window's end, exactly
    /// once, moving it from `Active` to `Passed` (strict yes majority)
    /// or `Rejected` (tie or worse). The reported tallies are final.
    pub fn finalize_proposal(&mut self, proposal_id: u64, now: i64) -> (r: Result<
        ProposalFinalizedEvent,
        ErrorCode,
    >)
        requires
            old(self).wf(),
        ensures
            final(self).wf(),
            final(self).admin == old(self).admin,
            final(self).proposal_count == old(self).proposal_count,
            final(self).total_base_power == old(self).total_base_power,
            final(self).voters@ == old(self).voters@,
            final(self).votes@ == old(self).votes@,
            final(self).proposals@.len() == old(self).proposals@.len(),
            match r {
                Ok(ev) => ({
                    let p0 = old(self).spec_proposal_at(proposal_id);
                    &&& old(self).spec_has_proposal(proposal_id)
                    &&& p0.spec_finalize_guard(now as int) is None
                    &&& final(self).spec_proposal_at(proposal_id).status == p0.spec_final_status()
                    &&& (final(self).spec_proposal_at(proposal_id).status is Passed <==> p0.yes_votes
                        > p0.no_votes)
                    &&& final(self).spec_proposal_at(proposal_id).yes_votes == p0.yes_votes
                    &&& final(self).spec_proposal_at(proposal_id).no_votes == p0.no_votes
                    &&& forall|i: int|
                        0 <= i < old(self).proposals@.len() && i != proposal_id ==> (
                        #[trigger] final(self).proposals@[i]) == old(self).proposals@[i]
                    &&& ev == (ProposalFinalizedEvent {
                        proposal_id,
                        status: p0.spec_final_status(),
                        yes_votes: p0.yes_votes,
                        no_votes: p0.no_votes,
                    })
                }),
                Err(e) => ({
                    &&& final(self).equiv(*old(self))
                    &&& (e == ErrorCode::ProposalNotFound && !old(self).spec_has_proposal(
                        proposal_id,
                    )) || (old(self).spec_has_proposal(proposal_id) && old(self).spec_proposal_at(
                        proposal_id,
                    ).spec_finalize_guard(now as int) == Some(e))
                }),
            },
    {
        if proposal_id >= (self.proposals.len() as u64) {
            return Err(ErrorCode::ProposalNotFound);
        }
        let pi: usize = proposal_id as usize;
        let p = &mut self.proposals[pi];
        let res = p.finalize(now);
        proof {
            assert forall|i: int| 0 <= i < final(self).proposals@.len() implies (
            #[trigger] final(self).proposals@[i]).id == i && final(self).proposals@[i].wf() by {
                assert(old(self).proposals@[i].id == i && old(self).proposals@[i].wf());
            }
            assert forall|q: int| 0 <= q < final(self).proposals@.len() implies (
            #[trigger] final(self).proposals@[q]).yes_votes == spec_tally(
                final(self).votes@,
                q as u64,
                VoteType::Yes,
            ) && final(self).proposals@[q].no_votes == spec_tally(
                final(self).votes@,
                q as u64,
                VoteType::No,
            ) by {
                assert(old(self).proposals@[q].yes_votes == spec_tally(
                    old(self).votes@,
                    q as u64,
                    VoteType::Yes,
                ) && old(self).proposals@[q].no_votes == spec_tally(
                    old(self).votes@,
                    q as u64,
                    VoteType::No,
                ));
            }
        }
        res
    }
    /// The guard a vote attempt must pass, with its precedence: the
    /// proposal and the voter must exist (validation), then the
    /// proposal's own guard (status, then each window bound), then the
    /// one-vote-per-pair rule.
    pub open spec fn spec_vote_check(
        self,
        voter_id: AccountId,
        proposal_id: u64,
        now: int,
    ) -> Option<ErrorCode> {
        if !self.spec_has_proposal(proposal_id) {
            Some(ErrorCode::ProposalNotFound)
        } else if !self.spec_has_voter(voter_id) {
            Some(ErrorCode::VoterNotFound)
        } else if self.spec_proposal_at(proposal_id).spec_vote_guard(now) is Some {
            self.spec_proposal_at(proposal_id).spec_vote_guard(now)
        } else if self.spec_has_voted(voter_id, proposal_id) {
            Some(ErrorCode::AlreadyVoted)
        } else {
            None
        }
    }

    /// Applies an admitted vote: raises the chosen tally (checked),
    /// stamps the voter's bookkeeping, and appends the ledger record.
    /// All guards have been passed by the caller; the only failure left
    /// is tally overflow, which changes nothing.
    fn apply_vote(
        &mut self,
        vi: usize,
        pi: usize,
        vote_type: VoteType,
        power: u64,
        requested: Option<u64>,
        now: i64,
    ) -> (r: Result<VoteEvent, ErrorCode>)
        requires
            old(self).wf(),
            now >= 0,
            vi < old(self).voters@.len(),
            pi < old(self).proposals@.len(),
            power >= 1,
            !old(self).spec_has_voted(old(self).voters@[vi as int].id, pi as u64),
        ensures
            final(self).wf(),
            final(self).admin == old(self).admin,
            final(self).proposal_count == old(self).proposal_count,
            final(self).total_base_power == old(self).total_base_power,
            final(self).proposals@.len() == old(self).proposals@.len(),
            final(self).voters@.len() == old(self).voters@.len(),
            match r {
                Ok(ev) => ({
                    let vid = old(self).voters@[vi as int].id;
                    let v0 = old(self).voters@[vi as int];
                    let p0 = old(self).proposals@[pi as int];
                    &&& (vote_type is Yes ==> p0.yes_votes + power <= u64::MAX && final(self).proposals@[pi as int].yes_votes == p0.yes_votes + power && final(self).proposals@[pi as int].no_votes == p0.no_votes)
                    &&& (vote_type is No ==> p0.no_votes + power <= u64::MAX && final(self).proposals@[pi as int].no_votes == p0.no_votes + power && final(self).proposals@[pi as int].yes_votes == p0.yes_votes)
                    &&& final(self).proposals@[pi as int].status == p0.status
                    &&& forall|i: int|
                        0 <= i < old(self).proposals@.len() && i != pi ==> (
                        #[trigger] final(self).proposals@[i]) == old(self).proposals@[i]
                    &&& final(self).votes@ == old(self).votes@.push(
                        (VoteRecord {
                            voter: vid,
                            proposal_id: pi as u64,
                            has_voted: true,
                            vote_type: Some(vote_type),
                            effective_power: power,
                        }),
                    )
                    &&& final(self).voters@ == old(self).voters@.update(
                        vi as int,
                        (Voter {
                            reputation: crate::voter::spec_bump_reputation(
                                v0.reputation as int,
                            ) as u8,
                            last_vote_time: now,
                            ..v0
                        }),
                    )
                    &&& ev == (VoteEvent {
                        proposal_id: pi as u64,
                        voter: vid,
                        vote_type,
                        effective_power: power,
                        requested_power: requested,
                    })
                }),
                Err(e) => ({
                    let p0 = old(self).proposals@[pi as int];
                    &&& e == ErrorCode::NumericalOverflow
                    &&& final(self).equiv(*old(self))
                    &&& (vote_type is Yes && p0.yes_votes + power > u64::MAX) || (vote_type is No
                        && p0.no_votes + power > u64::MAX)
                }),
            },
    {
        let voter_id: AccountId = self.voters[vi].id;
        let p = &mut self.proposals[pi];
        let res = p.add_vote(vote_type, power);
        match res {
            Err(e) => {
                proof {
                    assert forall|i: int| 0 <= i < self.proposals@.len() implies (
                    #[trigger] self.proposals@[i]).equiv(old(self).proposals@[i]) by {
                        if i != pi {
                            assert(self.proposals@[i] == old(self).proposals@[i]);
                        }
                    }
                    assert(old(self).equiv(*self));
                    lemma_equiv_wf(*old(self), *self);
                }
                Err(e)
            },
            Ok(()) => {
                let vr = &mut self.voters[vi];
                vr.record_successful_vote(now);
                let rec = VoteRecord {
                    voter: voter_id,
                    proposal_id: pi as u64,
                    has_voted: true,
                    vote_type: Some(vote_type),
                    effective_power: power,
                };
                self.votes.push(rec);
                proof {
                    let gs = *self;
                    // proposal ids and windows are untouched
                    assert forall|i: int| 0 <= i < gs.proposals@.len() implies (
                    #[trigger] gs.proposals@[i]).id == i && gs.proposals@[i].wf() by {
                        if i != pi {
                            assert(gs.proposals@[i] == old(self).proposals@[i]);
                        }
                        assert(old(self).proposals@[i].id == i && old(self).proposals@[i].wf());
                    }
                    // voter identities and well-formedness are untouched
                    assert forall|k: int| 0 <= k < gs.voters@.len() implies (
                    #[trigger] gs.voters@[k]).id == old(self).voters@[k].id
                        && gs.voters@[k].wf() by {
                        assert(old(self).voters@[k].wf());
                    }
                    assert forall|i: int, j: int|
                        #![trigger gs.voters@[i], gs.voters@[j]]
                        0 <= i < j < gs.voters@.len() implies gs.voters@[i].id
                        != gs.voters@[j].id by {
                        assert(old(self).voters@[i].id != old(self).voters@[j].id);
                    }
                    // the new ledger entry is sound and the pair is new
                    assert forall|k: int, l: int|
                        #![trigger gs.votes@[k], gs.votes@[l]]
                        0 <= k < l < gs.votes@.len() implies !(gs.votes@[k].voter
                        == gs.votes@[l].voter && gs.votes@[k].proposal_id
                        == gs.votes@[l].proposal_id) by {
                        if l < old(self).votes@.len() {
                            assert(!(old(self).votes@[k].voter == old(self).votes@[l].voter && old(self).votes@[k].proposal_id == old(self).votes@[l].proposal_id));
                        } else {
                            assert(gs.votes@[l] == rec);
                            assert(gs.votes@[k] == old(self).votes@[k]);
                            assert(!(old(self).votes@[k].voter == voter_id && old(self).votes@[k].proposal_id == pi as u64));
                        }
                    }
                    assert forall|k: int| 0 <= k < gs.votes@.len() implies (
                    #[trigger] gs.votes@[k]).wf() && gs.votes@[k].proposal_id
                        < gs.proposal_count by {
                        if k < old(self).votes@.len() {
                            assert(old(self).votes@[k].wf() && old(self).votes@[k].proposal_id
                                < old(self).proposal_count);
                        }
                    }
                    // tally conservation
                    assert forall|q: int| 0 <= q < gs.proposals@.len() implies (
                    #[trigger] gs.proposals@[q]).yes_votes == spec_tally(
                        gs.votes@,
                        q as u64,
                        VoteType::Yes,
                    ) && gs.proposals@[q].no_votes == spec_tally(
                        gs.votes@,
                        q as u64,
                        VoteType::No,
                    ) by {
                        lemma_tally_push(old(self).votes@, rec, q as u64, VoteType::Yes);
                        lemma_tally_push(old(self).votes@, rec, q as u64, VoteType::No);
                        assert(old(self).proposals@[q].yes_votes == spec_tally(
                            old(self).votes@,
                            q as u64,
                            VoteType::Yes,
                        ) && old(self).proposals@[q].no_votes == spec_tally(
                            old(self).votes@,
                            q as u64,
                            VoteType::No,
                        ));
                        if q != pi {
                            assert(gs.proposals@[q] == old(self).proposals@[q]);
                            assert(q as u64 != pi as u64);
                        }
                    }
                }
                Ok(
                    VoteEvent {
                        proposal_id: pi as u64,
                        voter: voter_id,
                        vote_type,
                        effective_power: power,
                        requested_power: requested,
                    },
                )
            },
        }
    }
    /// Casts a vote under the simple rule: every accepted vote carries a
    /// flat effective power of 1, whoever casts it. The voter must be
    /// registered; the proposal must be active and inside its window;
    /// one vote per (voter, proposal); the tally add is checked.
    pub fn vote(
        &mut self,
        voter_id: AccountId,
        proposal_id: u64,
        vote_type: VoteType,
        now: i64,
    ) -> (r: Result<VoteEvent, ErrorCode>)
        requires
            old(self).wf(),
            now >= 0,
        ensures
            final(self).wf(),
            final(self).admin == old(self).admin,
            final(self).proposal_count == old(self).proposal_count,
            final(self).total_base_power == old(self).total_base_power,
            final(self).proposals@.len() == old(self).proposals@.len(),
            final(self).voters@.len() == old(self).voters@.len(),
            match r {
                Ok(ev) => ({
                    let v0 = old(self).spec_voter_at(voter_id);
                    let p0 = old(self).spec_proposal_at(proposal_id);
                    &&& old(self).spec_vote_check(voter_id, proposal_id, now as int) is None
                    &&& ev == (VoteEvent {
                        proposal_id,
                        voter: voter_id,
                        vote_type,
                        effective_power: 1,
                        requested_power: None,
                    })
                    &&& final(self).votes@ == old(self).votes@.push(
                        (VoteRecord {
                            voter: voter_id,
                            proposal_id,
                            has_voted: true,
                            vote_type: Some(vote_type),
                            effective_power: 1,
                        }),
                    )
                    &&& final(self).spec_has_voted(voter_id, proposal_id)
                    &&& (vote_type is Yes ==> p0.yes_votes + 1 <= u64::MAX && final(self).spec_proposal_at(proposal_id).yes_votes == p0.yes_votes + 1 && final(self).spec_proposal_at(proposal_id).no_votes == p0.no_votes)
                    &&& (vote_type is No ==> p0.no_votes + 1 <= u64::MAX && final(self).spec_proposal_at(proposal_id).no_votes == p0.no_votes + 1 && final(self).spec_proposal_at(proposal_id).yes_votes == p0.yes_votes)
                    &&& final(self).spec_proposal_at(proposal_id).status == p0.status
                    &&& forall|i: int|
                        0 <= i < old(self).proposals@.len() && i != proposal_id ==> (
                        #[trigger] final(self).proposals@[i]) == old(self).proposals@[i]
                    &&& final(self).voters@ == old(self).voters@.update(
                        old(self).spec_voter_index_of(voter_id),
                        (Voter {
                            reputation: crate::voter::spec_bump_reputation(
                                v0.reputation as int,
                            ) as u8,
                            last_vote_time: now,
                            ..v0
                        }),
                    )
                }),
                Err(e) => ({
                    let p0 = old(self).spec_proposal_at(proposal_id);
                    &&& final(self).equiv(*old(self))
                    &&& (old(self).spec_vote_check(voter_id, proposal_id, now as int) == Some(e))
                        || (old(self).spec_vote_check(voter_id, proposal_id, now as int) is None
                        && e == ErrorCode::NumericalOverflow && ((vote_type is Yes && p0.yes_votes
                        + 1 > u64::MAX) || (vote_type is No && p0.no_votes + 1 > u64::MAX)))
                }),
            },
    {
        if proposal_id >= (self.proposals.len() as u64) {
            proof {
                lemma_equiv_refl(*self);
            }
            return Err(ErrorCode::ProposalNotFound);
        }
        let pi: usize = proposal_id as usize;
        let vi: usize = match self.find_voter_index(voter_id) {
            Some(i) => i,
            None => {
                proof {
                    lemma_equiv_refl(*self);
                }
                return Err(ErrorCode::VoterNotFound);
            },
        };
        proof {
            self.lemma_voter_index_is(vi as int, voter_id);
        }
        match self.proposals[pi].check_vote(now) {
            Err(e) => {
                proof {
                    lemma_equiv_refl(*self);
                }
                return Err(e);
            },
            Ok(()) => {},
        }
        if self.find_vote_index(voter_id, proposal_id).is_some() {
            proof {
                lemma_equiv_refl(*self);
            }
            return Err(ErrorCode::AlreadyVoted);
        }
        let r = self.apply_vote(vi, pi, vote_type, 1, None, now);
        proof {
            if r is Ok {
                let k: int = old(self).votes@.len() as int;
                assert(self.votes@[k].voter == voter_id && self.votes@[k].proposal_id
                    == proposal_id);
                assert(self.spec_has_voted(voter_id, proposal_id));
            }
        }
        r
    }

    /// Casts a vote under the quadratic rule: the requested power is
    /// scaled by time decay and reputation, capped, and put through the
    /// quadratic transform of the calculator; a request whose capped
    /// power is zero is rejected. Guards and bookkeeping are as in the
    /// simple rule.
    pub fn vote_quadratic(
        &mut self,
        voter_id: AccountId,
        proposal_id: u64,
        vote_type: VoteType,
        requested_power: u64,
        now: i64,
    ) -> (r: Result<VoteEvent, ErrorCode>)
        requires
            old(self).wf(),
            now >= 0,
        ensures
            final(self).wf(),
            final(self).admin == old(self).admin,
            final(self).proposal_count == old(self).proposal_count,
            final(self).total_base_power == old(self).total_base_power,
            final(self).proposals@.len() == old(self).proposals@.len(),
            final(self).voters@.len() == old(self).voters@.len(),
            match r {
                Ok(ev) => ({
                    let v0 = old(self).spec_voter_at(voter_id);
                    let p0 = old(self).spec_proposal_at(proposal_id);
                    let e0 = spec_effective_base(
                        v0.base_power as int,
                        v0.reputation as int,
                        v0.last_vote_time as int,
                        now as int,
                    );
                    let c0 = spec_capped_power(
                        v0.base_power as int,
                        v0.reputation as int,
                        v0.last_vote_time as int,
                        now as int,
                        requested_power as int,
                    );
                    let pw = spec_quadratic_power(c0, e0);
                    &&& old(self).spec_vote_check(voter_id, proposal_id, now as int) is None
                    &&& c0 >= 1
                    &&& ev == (VoteEvent {
                        proposal_id,
                        voter: voter_id,
                        vote_type,
                        effective_power: pw as u64,
                        requested_power: Some(requested_power),
                    })
                    &&& 1 <= pw <= requested_power
                    &&& final(self).votes@ == old(self).votes@.push(
                        (VoteRecord {
                            voter: voter_id,
                            proposal_id,
                            has_voted: true,
                            vote_type: Some(vote_type),
                            effective_power: pw as u64,
                        }),
                    )
                    &&& final(self).spec_has_voted(voter_id, proposal_id)
                    &&& (vote_type is Yes ==> p0.yes_votes + pw <= u64::MAX && final(self).spec_proposal_at(proposal_id).yes_votes == p0.yes_votes + pw && final(self).spec_proposal_at(proposal_id).no_votes == p0.no_votes)
                    &&& (vote_type is No ==> p0.no_votes + pw <= u64::MAX && final(self).spec_proposal_at(proposal_id).no_votes == p0.no_votes + pw && final(self).spec_proposal_at(proposal_id).yes_votes == p0.yes_votes)
                    &&& final(self).spec_proposal_at(proposal_id).status == p0.status
                    &&& forall|i: int|
                        0 <= i < old(self).proposals@.len() && i != proposal_id ==> (
                        #[trigger] final(self).proposals@[i]) == old(self).proposals@[i]
                    &&& final(self).voters@ == old(self).voters@.update(
                        old(self).spec_voter_index_of(voter_id),
                        (Voter {
                            reputation: crate::voter::spec_bump_reputation(
                                v0.reputation as int,
                            ) as u8,
                            last_vote_time: now,
                            ..v0
                        }),
                    )
                }),
                Err(e) => ({
                    let v0 = old(self).spec_voter_at(voter_id);
                    let p0 = old(self).spec_proposal_at(proposal_id);
                    let e0 = spec_effective_base(
                        v0.base_power as int,
                        v0.reputation as int,
                        v0.last_vote_time as int,
                        now as int,
                    );
                    let c0 = spec_capped_power(
                        v0.base_power as int,
                        v0.reputation as int,
                        v0.last_vote_time as int,
                        now as int,
                        requested_power as int,
                    );
                    &&& final(self).equiv(*old(self))
                    &&& (old(self).spec_vote_check(voter_id, proposal_id, now as int) == Some(e))
                        || (old(self).spec_vote_check(voter_id, proposal_id, now as int) is None
                        && ((e == ErrorCode::NoEffectivePower && c0 == 0) || (e
                        == ErrorCode::NumericalOverflow && c0 >= 1 && ((vote_type is Yes
                        && p0.yes_votes + spec_quadratic_power(c0, e0) > u64::MAX) || (
                    vote_type is No && p0.no_votes + spec_quadratic_power(c0, e0) > u64::MAX)))))
                }),
            },
    {
        if proposal_id >= (self.proposals.len() as u64) {
            proof {
                lemma_equiv_refl(*self);
            }
            return Err(ErrorCode::ProposalNotFound);
        }
        let pi: usize = proposal_id as usize;
        let vi: usize = match self.find_voter_index(voter_id) {
            Some(i) => i,
            None => {
                proof {
                    lemma_equiv_refl(*self);
                }
                return Err(ErrorCode::VoterNotFound);
            },
        };
        proof {
            self.lemma_voter_index_is(vi as int, voter_id);
        }
        match self.proposals[pi].check_vote(now) {
            Err(e) => {
                proof {
                    lemma_equiv_refl(*self);
                }
                return Err(e);
            },
            Ok(()) => {},
        }
        if self.find_vote_index(voter_id, proposal_id).is_some() {
            proof {
                lemma_equiv_refl(*self);
            }
            return Err(ErrorCode::AlreadyVoted);
        }
        let v: Voter = self.voters[vi];
        proof {
            assert(self.voters@[vi as int].wf());
        }
        let power: u64 = match compute_voting_power(
            v.base_power,
            v.reputation,
            v.last_vote_time,
            requested_power,
            now,
        ) {
            Ok(p) => p,
            Err(e) => {
                proof {
                    lemma_equiv_refl(*self);
                }
                return Err(e);
            },
        };
        let r = self.apply_vote(vi, pi, vote_type, power, Some(requested_power), now);
        proof {
            if r is Ok {
                let k: int = old(self).votes@.len() as int;
                assert(self.votes@[k].voter == voter_id && self.votes@[k].proposal_id
                    == proposal_id);
                assert(self.spec_has_voted(voter_id, proposal_id));
            }
        }
        r
    }

    /// Looks a proposal up by id.
    pub fn get_proposal(&self, proposal_id: u64) -> (r: Option<&Proposal>)
        ensures
            match r {
                Some(p) => self.spec_has_proposal(proposal_id) && *p == self.spec_proposal_at(
                    proposal_id,
                ),
                None => !self.spec_has_proposal(proposal_id),
            },
    {
        if proposal_id >= (self.proposals.len() as u64) {
            return None;
        }
        Some(&self.proposals[proposal_id as usize])
    }

    /// Looks a voter up by identity.
    pub fn get_voter(&self, voter_id: AccountId) -> (r: Option<Voter>)
        requires
            self.wf(),
        ensures
            match r {
                Some(v) => self.spec_has_voter(voter_id) && v == self.spec_voter_at(voter_id),
                None => !self.spec_has_voter(voter_id),
            },
    {
        match self.find_voter_index(voter_id) {
            Some(i) => {
                proof {
                    self.lemma_voter_index_is(i as int, voter_id);
                }
                Some(self.voters[i])
            },
            None => None,
        }
    }

    /// Whether a voter has already voted on a proposal.
    pub fn has_voted(&self, voter_id: AccountId, proposal_id: u64) -> (b: bool)
        ensures
            b == self.spec_has_voted(voter_id, proposal_id),
    {
        match self.find_vote_index(voter_id, proposal_id) {
            Some(k) => {
                proof {
                    assert(self.votes@[k as int].voter == voter_id && self.votes@[
                        k as int].proposal_id == proposal_id);
                }
                true
            },
            None => false,
        }
    }
}

/// A state always agrees with itself.
pub proof fn lemma_equiv_refl(s: GovernanceState)
    ensures
        s.equiv(s),
{
    assert forall|i: int| 0 <= i < s.proposals@.len() implies (#[trigger] s.proposals@[i]).equiv(
        s.proposals@[i],
    ) by {}
}

/// Tally conservation: in every well-formed state — in particular right
/// after a finalization, whose reported tallies are the proposal's — the
/// yes and no tallies of a proposal add up to exactly the sum of the
/// effective powers of the accepted votes on it: nothing is dropped,
/// nothing is counted twice.
pub proof fn lemma_tally_conservation(s: GovernanceState, pid: u64)
    requires
        s.wf(),
        s.spec_has_proposal(pid),
    ensures
        s.spec_proposal_at(pid).yes_votes + s.spec_proposal_at(pid).no_votes == spec_tally(
            s.votes@,
            pid,
            VoteType::Yes,
        ) + spec_tally(s.votes@, pid, VoteType::No),
{
    assert(s.proposals@[pid as int].yes_votes == spec_tally(s.votes@, pid, VoteType::Yes)
        && s.proposals@[pid as int].no_votes == spec_tally(s.votes@, pid, VoteType::No));
}

/// One vote per (voter, proposal): once the ledger holds the pair, a
/// further vote attempt that gets past the existence and window guards
/// always stops at `AlreadyVoted` — whatever its vote type, which the
/// check does not even look at.
pub proof fn lemma_no_double_vote(s: GovernanceState, voter_id: AccountId, pid: u64, now: int)
    requires
        s.spec_has_proposal(pid),
        s.spec_has_voter(voter_id),
        s.spec_proposal_at(pid).spec_vote_guard(now) is None,
        s.spec_has_voted(voter_id, pid),
    ensures
        s.spec_vote_check(voter_id, pid, now) == Some(ErrorCode::AlreadyVoted),
{
}

/// A ledger record never goes away: appending another record keeps
/// every recorded (voter, proposal) pair recorded, so `has_voted`
/// flips from false to true at most once and never back.
pub proof fn lemma_has_voted_persists(
    s: GovernanceState,
    t: GovernanceState,
    voter_id: AccountId,
    pid: u64,
    r: VoteRecord,
)
    requires
        s.spec_has_voted(voter_id, pid),
        t.votes@ == s.votes@.push(r),
    ensures
        t.spec_has_voted(voter_id, pid),
{
    let k: int = choose|k: int|
        0 <= k < s.votes@.len() && (#[trigger] s.votes@[k]).voter == voter_id
            && s.votes@[k].proposal_id == pid;
    assert(t.votes@[k].voter == voter_id && t.votes@[k].proposal_id == pid);
}

/// Everything the invariant speaks of is preserved between two states
/// that agree on all fields (proposal text compared by content).
pub proof fn lemma_equiv_wf(a: GovernanceState, b: GovernanceState)
    requires
        a.wf(),
        a.equiv(b),
    ensures
        b.wf(),
{
    assert forall|i: int| 0 <= i < b.proposals@.len() implies (#[trigger] b.proposals@[i]).id == i
        && b.proposals@[i].wf() by {
        assert(a.proposals@[i].equiv(b.proposals@[i]));
        assert(a.proposals@[i].id == i && a.proposals@[i].wf());
    }
    assert forall|p: int| 0 <= p < b.proposals@.len() implies (#[trigger] b.proposals@[p]).yes_votes
        == spec_tally(b.votes@, p as u64, VoteType::Yes) && b.proposals@[p].no_votes == spec_tally(
        b.votes@,
        p as u64,
        VoteType::No,
    ) by {
        assert(a.proposals@[p].equiv(b.proposals@[p]));
        assert(a.proposals@[p].yes_votes == spec_tally(a.votes@, p as u64, VoteType::Yes)
            && a.proposals@[p].no_votes == spec_tally(a.votes@, p as u64, VoteType::No));
    }
}

} // verus!
