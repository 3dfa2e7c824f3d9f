use crate::decimal::Decimal;
use crate::params::{Coin, NodeId};
use vstd::prelude::*;

verus! {

/// Reasons for which a ledger operation or a queued event is refused.
///
/// `InconsistentState` and a failed decimal subtraction inside a queued event are fatal:
/// they abort the whole transition that the event belongs to.
#[derive(Clone, Debug, PartialEq)]
pub enum MixnetContractError {
    InvalidPercent,
    OverflowDecimalSubtraction { minuend: Decimal, subtrahend: Decimal },
    OverflowSubtraction { minuend: u64, subtrahend: u64 },
    InsufficientPledge { received: Coin, minimum: Coin },
    InsufficientDelegation { received: Coin, minimum: Coin },
    MixNodeBondNotFound { id: NodeId },
    NoAssociatedMixNodeBond { owner: String },
    NoAssociatedGatewayBond { owner: String },
    AlreadyOwnsMixnode,
    AlreadyOwnsGateway,
    DuplicateGateway { owner: String },
    Unauthorized,
    NoBondFound,
    EmptyDelegation,
    WrongDenom { received: String, expected: String },
    MultipleDenoms,
    ProxyMismatch { existing: String, incoming: String },
    MalformedEd25519IdentityKey(String),
    MalformedEd25519Signature(String),
    InvalidEd25519Signature,
    EpochInProgress { current_block_time: u64, epoch_start: i64, epoch_end: i64 },
    MixnodeAlreadyRewarded { node_id: NodeId, absolute_epoch_id: u32 },
    MixnodeNotInRewardedSet { node_id: NodeId, absolute_epoch_id: u32 },
    MixnodeIsUnbonding { node_id: NodeId },
    MixnodeHasUnbonded { node_id: NodeId },
    InconsistentState { comment: String },
    NoMixnodeDelegationFound { mix_id: NodeId, address: String, proxy: Option<String> },
    EmptyParamsChangeMsg,
    InvalidActiveSetSize,
    InvalidRewardedSetSize,
    ZeroActiveSet,
    ZeroRewardedSet,
    UnexpectedActiveSetSize { received: u32, expected: u32 },
    UnexpectedRewardedSetSize { received: u32, expected: u32 },
    DuplicateRewardedSetNode { node_id: NodeId },
}

} // verus!
