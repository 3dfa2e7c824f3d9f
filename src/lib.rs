//! Accounting core of a stake-weighted reward engine for mix nodes.
//!
//! Each bonded node has a rewarding ledger ([`mixnode::MixNodeRewarding`]) holding its
//! operator's and its delegates' stake and a reward index, through which every delegator's
//! reward is computed in constant time. Delegations, undelegations, unbondings and cost
//! changes are queued and executed at epoch or interval boundaries ([`events`]).
//! Monetary values are fixed-point decimals with 18 fractional digits ([`decimal`]).

pub mod decimal;
pub mod delegation;
pub mod error;
pub mod events;
pub mod mixnode;
pub mod models;
pub mod params;
pub mod vesting;
