use vstd::prelude::*;

verus! {

/// A registered identity on the hosting ledger, already authenticated by the
/// platform before it reaches the core. The core never inspects it beyond
/// equality, so a plain integer key stands for it.
pub type AccountId = u64;

/// The direction of a single cast vote.
#[derive(Clone, Copy, Debug, PartialEq, Eq, Structural)]
pub enum VoteType {
    Yes,
    No,
}

/// The lifecycle of a proposal. The only transition ever taken is
/// `Active` to `Passed` or `Active` to `Rejected`, exactly once, by a
/// successful finalization; the two terminal states have no way out.
#[derive(Clone, Copy, Debug, PartialEq, Eq, Structural)]
pub enum ProposalStatus {
    Active,
    Passed,
    Rejected,
}

/// The observable outcome of a successful vote.
#[derive(Clone, Copy, Debug, PartialEq, Eq, Structural)]
pub struct VoteEvent {
    pub proposal_id: u64,
    pub voter: AccountId,
    pub vote_type: VoteType,
    /// The power actually added to the tally: a flat 1 for the simple
    /// variant, the calculator's result for the quadratic one.
    pub effective_power: u64,
    /// The raw power the voter asked to cast; absent for the simple variant.
    pub requested_power: Option<u64>,
}

/// The observable outcome of a successful finalization.
#[derive(Clone, Copy, Debug, PartialEq, Eq, Structural)]
pub struct ProposalFinalizedEvent {
    pub proposal_id: u64,
    pub status: ProposalStatus,
    pub yes_votes: u64,
    pub no_votes: u64,
}

} // verus!
