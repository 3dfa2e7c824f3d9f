use crate::decimal::Decimal;
use crate::mixnode::{MixNode, MixNodeDetails, MixNodeRewarding, RewardedSetNodeStatus};
use crate::params::{NodeId, Percent};
use crate::decimal::DECIMAL_FRACTIONAL;
use vstd::prelude::*;

verus! {

/// Where a node stands with respect to the rewarded and active sets.
#[derive(Clone, Copy, Debug, PartialEq, Eq, Structural)]
pub enum MixnodeStatus {
    /// In both the active set and the rewarded set.
    Active,
    /// Only in the rewarded set.
    Standby,
    /// Bonded, but in neither set.
    Inactive,
    /// Not bonded at all.
    NotFound,
}

impl MixnodeStatus {
    pub fn is_active(&self) -> (r: bool)
        ensures
            r == (*self == MixnodeStatus::Active),
    {
        *self == MixnodeStatus::Active
    }

    /// The node's place in the rewarded set, if it has one.
    pub fn rewarded_set_status(&self) -> (r: Option<RewardedSetNodeStatus>)
        ensures
            r == match *self {
                MixnodeStatus::Active => Some(RewardedSetNodeStatus::Active),
                MixnodeStatus::Standby => Some(RewardedSetNodeStatus::Standby),
                _ => None::<RewardedSetNodeStatus>,
            },
    {
        match self {
            MixnodeStatus::Active => Some(RewardedSetNodeStatus::Active),
            MixnodeStatus::Standby => Some(RewardedSetNodeStatus::Standby),
            MixnodeStatus::Inactive => None,
            MixnodeStatus::NotFound => None,
        }
    }
}

#[derive(Clone, Debug, PartialEq)]
pub struct MixnodeCoreStatusResponse {
    pub mix_id: NodeId,
    pub count: i32,
}

#[derive(Clone, Debug, PartialEq)]
pub struct GatewayCoreStatusResponse {
    pub identity: String,
    pub count: i32,
}

#[derive(Clone, Copy, Debug, PartialEq, Eq, Structural)]
pub struct MixnodeStatusResponse {
    pub status: MixnodeStatus,
}

#[derive(Clone, Copy, Debug, PartialEq, Eq, Structural)]
pub struct UptimeResponse {
    pub mix_id: NodeId,
    pub avg_uptime: u8,
}

/// A coarse reading of a probability of being selected.
#[derive(Clone, Copy, Debug, PartialEq, Eq, Structural)]
pub enum SelectionChance {
    High,
    Good,
    Low,
}

/// Probabilities from seven tenths up read as high.
pub const HIGH_CHANCE_ATOMICS: u128 = 700_000_000_000_000_000;

/// Probabilities from three tenths up (and below seven tenths) read as good.
pub const GOOD_CHANCE_ATOMICS: u128 = 300_000_000_000_000_000;

impl SelectionChance {
    /// The chance a probability `p` reads as.
    pub fn from_decimal(p: Decimal) -> (r: SelectionChance)
        ensures
            r == if p@ >= HIGH_CHANCE_ATOMICS {
                SelectionChance::High
            } else if p@ >= GOOD_CHANCE_ATOMICS {
                SelectionChance::Good
            } else {
                SelectionChance::Low
            },
    {
        if p.atomics >= HIGH_CHANCE_ATOMICS {
            SelectionChance::High
        } else if p.atomics >= GOOD_CHANCE_ATOMICS {
            SelectionChance::Good
        } else {
            SelectionChance::Low
        }
    }

    /// The chance's name.
    pub fn to_string(&self) -> (r: String)
        ensures
            r@ == match *self {
                SelectionChance::High => "High"@,
                SelectionChance::Good => "Good"@,
                SelectionChance::Low => "Low"@,
            },
    {
        match self {
            SelectionChance::High => "High".to_owned(),
            SelectionChance::Good => "Good".to_owned(),
            SelectionChance::Low => "Low".to_owned(),
        }
    }
}

#[derive(Clone, Copy, Debug, PartialEq, Eq, Structural)]
pub struct InclusionProbabilityResponse {
    pub in_active: SelectionChance,
    pub in_reserve: SelectionChance,
}

/// A bonded node as the status service presents it.
#[derive(Clone, Debug, PartialEq)]
pub struct MixNodeBondAnnotated {
    pub mixnode_details: MixNodeDetails,
    pub stake_saturation: Decimal,
    pub uncapped_stake_saturation: Decimal,
    pub performance: Percent,
    pub estimated_operator_apy: Decimal,
    pub estimated_delegators_apy: Decimal,
}

impl MixNodeBondAnnotated {
    pub fn mix_node(&self) -> (r: &MixNode)
        ensures
            *r == self.mixnode_details.bond_information.mix_node,
    {
        &self.mixnode_details.bond_information.mix_node
    }

    pub fn mix_id(&self) -> (r: NodeId)
        ensures
            r == self.mixnode_details.bond_information.id,
    {
        self.mixnode_details.mix_id()
    }
}

#[derive(Clone, Copy, Debug, PartialEq, Eq, Structural)]
pub struct StakeSaturationResponse {
    pub saturation: Decimal,
    pub uncapped_saturation: Decimal,
    pub as_at: i64,
}

/// What a caller may put in place of a node's own figures when asking for a reward estimate.
#[derive(Clone, Copy, Debug, PartialEq, Eq, Structural)]
pub struct ComputeRewardEstParam {
    pub performance: Option<Percent>,
    pub active_in_rewarded_set: Option<bool>,
    pub pledge_amount: Option<u64>,
    pub total_delegation: Option<u64>,
}

/// Why a reward estimate cannot be made.
#[derive(Clone, Copy, Debug, PartialEq, Eq, Structural)]
pub enum RewardEstimationError {
    /// The pledge plus the delegation exceed the staking supply.
    PledgePlusDelegationTooLarge,
}

/// The inputs of a reward estimate: each figure the caller gave replaces the node's own.
pub struct EstimationInputs {
    pub rewarding: MixNodeRewarding,
    pub performance: Percent,
    pub status: Option<RewardedSetNodeStatus>,
}

/// Applies a caller's figures to a node's ledger, performance and status. A given pledge or
/// delegation (whole tokens) replaces the ledger's balance; a given set membership replaces
/// the node's status. Refused when the resulting stake exceeds the staking supply.
pub fn estimation_inputs(
    param: &ComputeRewardEstParam,
    rewarding: MixNodeRewarding,
    performance: Percent,
    status: MixnodeStatus,
    staking_supply: Decimal,
) -> (r: Result<EstimationInputs, RewardEstimationError>)
    ensures
        ({
            let operator = match param.pledge_amount {
                Some(p) => p * DECIMAL_FRACTIONAL,
                None => rewarding.operator@,
            };
            let delegates = match param.total_delegation {
                Some(d) => d * DECIMAL_FRACTIONAL,
                None => rewarding.delegates@,
            };
            &&& r is Ok <==> operator + delegates <= staking_supply@
            &&& r matches Ok(inputs) ==> {
                &&& inputs.rewarding == rewarding.with_balances(operator, delegates)
                &&& inputs.performance == match param.performance {
                    Some(p) => p,
                    None => performance,
                }
                &&& inputs.status == match param.active_in_rewarded_set {
                    Some(true) => Some(RewardedSetNodeStatus::Active),
                    Some(false) => Some(RewardedSetNodeStatus::Standby),
                    None => match status {
                        MixnodeStatus::Active => Some(RewardedSetNodeStatus::Active),
                        MixnodeStatus::Standby => Some(RewardedSetNodeStatus::Standby),
                        _ => None::<RewardedSetNodeStatus>,
                    },
                }
            }
            &&& r matches Err(e) ==> e == RewardEstimationError::PledgePlusDelegationTooLarge
        }),
{
    let performance = match param.performance {
        Some(p) => p,
        None => performance,
    };
    let status = match param.active_in_rewarded_set {
        Some(true) => Some(RewardedSetNodeStatus::Active),
        Some(false) => Some(RewardedSetNodeStatus::Standby),
        None => status.rewarded_set_status(),
    };
    let mut rewarding = rewarding;
    match param.pledge_amount {
        Some(p) => {
            rewarding.operator = Decimal::from_whole(p as u128);
        },
        None => {},
    }
    match param.total_delegation {
        Some(d) => {
            rewarding.delegates = Decimal::from_whole(d as u128);
        },
        None => {},
    }
    if rewarding.operator.atomics > staking_supply.atomics || rewarding.delegates.atomics
        > staking_supply.atomics - rewarding.operator.atomics {
        return Err(RewardEstimationError::PledgePlusDelegationTooLarge);
    }
    Ok(EstimationInputs { rewarding, performance, status })
}

} // verus!
