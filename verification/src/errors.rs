use vstd::prelude::*;

verus! {

/// Every way an operation can be rejected. A rejected operation leaves all
/// state unchanged; there is no fatal error.
#[derive(Clone, Copy, Debug, PartialEq, Eq, Structural)]
pub enum ErrorCode {
    /// The proposal's status is no longer `Active`.
    ProposalNotActive,
    /// A vote arrived before the proposal's `start_time`.
    VotingPeriodNotStarted,
    /// A vote arrived after the proposal's `end_time`.
    VotingPeriodEnded,
    /// A finalization arrived at or before the proposal's `end_time`.
    VotingPeriodNotEnded,
    /// The proposal was already moved out of `Active` by a finalization.
    ProposalAlreadyFinalized,
    /// This voter already cast a vote on this proposal.
    AlreadyVoted,
    /// `undelegate` was called while no delegation was in place.
    NotDelegated,
    /// `delegate` was called while a delegation was already in place.
    AlreadyDelegated,
    /// A checked addition on a tally or on the aggregate base power would wrap.
    NumericalOverflow,
    /// `start_time + voting_period` would wrap.
    TimeOverflow,
    /// The caller of an admin-only operation is not the admin.
    NotAdmin,
    /// A proposal was submitted with an empty description.
    EmptyDescription,
    /// A proposal was submitted with a non-positive voting period.
    InvalidVotingPeriod,
    /// A quadratic vote whose capped effective power is zero carries no
    /// influence and is rejected rather than recorded.
    NoEffectivePower,
    /// The named voter is not in the registry.
    VoterNotFound,
    /// The named proposal id was never issued.
    ProposalNotFound,
    /// `register_voter` was called for an identity already registered.
    AlreadyRegistered,
}

} // verus!
