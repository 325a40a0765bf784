//! An on-ledger governance engine: proposal lifecycle, voter registration,
//! single-hop vote delegation, and deterministic, overflow-safe tallying.
//!
//! Timestamps and caller identities are passed in explicitly; all state
//! mutation is single-shot and atomic, and every failure is a specific
//! error kind with no partial state change.

pub mod errors;
pub mod types;
pub mod power;
pub mod voter;
pub mod proposal;
pub mod governance;

pub use errors::ErrorCode;
pub use types::{AccountId, ProposalFinalizedEvent, ProposalStatus, VoteEvent, VoteType};
pub use voter::Voter;
pub use proposal::Proposal;
pub use governance::{GovernanceState, VoteRecord};
