//! The block production rule of Doomslug.
//!
//! A participant ([`Doomslug`]) approves each block that becomes the tip of its chain, endorsing it
//! if that contradicts nothing it said before, and promises to skip a height when no block shows
//! up in time. It collects the approvals of others, weighed by their stake, and produces a block
//! once enough of them have come in.

pub mod approval;
pub mod assoc;
pub mod doomslug;
pub mod laws;
pub mod rules;
pub mod signer;
pub mod stake;
pub mod time;
pub mod timer;
pub mod tracker;
pub mod types;

pub use approval::{Approval, ApprovalView};
pub use doomslug::Doomslug;
pub use signer::Signer;
pub use stake::StakeMap;
pub use time::{Duration, Instant};
pub use timer::DoomslugTimer;
pub use tracker::{
    DoomslugApprovalsTracker, DoomslugBlockProductionReadiness, DoomslugThresholdMode,
};
pub use types::{
    AccountId, Balance, BlockHeight, BlockHeightDelta, CryptoHash, Gas, IteratorIndex,
    PromiseIndex, PromiseResult, PublicKey, ReceiptIndex, ReturnData, Signature, StorageUsage,
    ValidatorStake,
};
