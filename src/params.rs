use crate::decimal::{Decimal, DECIMAL_FRACTIONAL};
use crate::error::MixnetContractError;
use vstd::prelude::*;

verus! {

/// Identifier of a bonded node.
pub type NodeId = u32;

/// Identifier of an epoch, counted from the start of the network.
pub type FullEpochId = u32;

/// An amount of whole tokens of one denomination.
#[derive(Clone, Debug, PartialEq, Eq)]
pub struct Coin {
    pub denom: String,
    pub amount: u128,
}

impl Coin {
    pub fn new(amount: u128, denom: String) -> (r: Coin)
        ensures
            r.amount == amount,
            r.denom == denom,
    {
        Coin { denom, amount }
    }
}

/// A fraction between zero and one inclusive.
#[derive(Clone, Copy, Debug, PartialEq, Eq, Structural)]
pub struct Percent {
    value: Decimal,
}

impl View for Percent {
    type V = int;

    closed spec fn view(&self) -> int {
        self.value@
    }
}

impl Percent {
    #[verifier::type_invariant]
    spec fn at_most_one(&self) -> bool {
        self.value@ <= DECIMAL_FRACTIONAL
    }

    /// The fraction `value`, refused when it exceeds one.
    pub fn new(value: Decimal) -> (r: Result<Percent, MixnetContractError>)
        ensures
            value@ <= DECIMAL_FRACTIONAL <==> r is Ok,
            r matches Ok(p) ==> p@ == value@,
            r matches Err(e) ==> e == MixnetContractError::InvalidPercent,
    {
        if value.atomics > DECIMAL_FRACTIONAL {
            Err(MixnetContractError::InvalidPercent)
        } else {
            Ok(Percent { value })
        }
    }

    /// `value` hundredths, refused when `value` exceeds a hundred.
    pub fn from_percentage_value(value: u64) -> (r: Result<Percent, MixnetContractError>)
        ensures
            value <= 100 <==> r is Ok,
            r matches Ok(p) ==> p@ == value * (DECIMAL_FRACTIONAL / 100),
            r matches Err(e) ==> e == MixnetContractError::InvalidPercent,
    {
        Percent::new(Decimal::raw(value as u128 * 10_000_000_000_000_000))
    }

    pub fn zero() -> (r: Percent)
        ensures
            r@ == 0,
    {
        Percent { value: Decimal::zero() }
    }

    pub fn hundred() -> (r: Percent)
        ensures
            r@ == DECIMAL_FRACTIONAL,
    {
        Percent { value: Decimal::one() }
    }

    pub fn is_zero(&self) -> (r: bool)
        ensures
            r == (self@ == 0),
    {
        self.value.is_zero()
    }

    pub fn value(&self) -> (r: Decimal)
        ensures
            r@ == self@,
            0 <= r@ <= DECIMAL_FRACTIONAL,
    {
        proof {
            use_type_invariant(self);
        }
        self.value
    }
}

/// Global economics of one interval, replaced wholesale by governance.
#[derive(Clone, Copy, Debug, PartialEq, Eq, Structural)]
pub struct RewardingParams {
    /// Stake beyond which a node earns no further reward credit.
    pub stake_saturation_point: Decimal,
    /// Weight given to the operator's own pledge over delegated stake.
    pub sybil_resistance: Percent,
    /// Tokens distributable in one epoch.
    pub epoch_reward_budget: Decimal,
    /// Total stakeable supply.
    pub staking_supply: Decimal,
    /// Share of the work credited to a node of the active set.
    pub active_node_work: Decimal,
    /// Share of the work credited to a node on standby.
    pub standby_node_work: Decimal,
    pub rewarded_set_size: u32,
    pub active_set_size: u32,
}

impl RewardingParams {
    /// Well-formed parameters: a positive saturation point, a non-empty rewarded set that
    /// contains the active set, work shares of at most one, and a budget whose double fits.
    pub open spec fn wf(&self) -> bool {
        &&& self.stake_saturation_point@ > 0
        &&& 0 < self.rewarded_set_size
        &&& self.active_set_size <= self.rewarded_set_size
        &&& self.active_node_work@ <= DECIMAL_FRACTIONAL
        &&& self.standby_node_work@ <= DECIMAL_FRACTIONAL
        &&& 2 * self.epoch_reward_budget@ <= u128::MAX
    }

    /// Replaces both set sizes, refused unless the rewarded set is non-empty, the active set
    /// is non-empty and the active set fits in the rewarded set.
    pub fn try_change_set_sizes(&mut self, rewarded_set_size: u32, active_set_size: u32) -> (r: Result<(), MixnetContractError>)
        ensures
            r is Ok <==> 0 < active_set_size <= rewarded_set_size,
            r is Ok ==> *final(self) == (RewardingParams {
                rewarded_set_size,
                active_set_size,
                ..*old(self)
            }),
            r is Err ==> *final(self) == *old(self),
            old(self).wf() ==> final(self).wf(),
            rewarded_set_size == 0 ==> r == Err::<(), MixnetContractError>(
                MixnetContractError::ZeroRewardedSet,
            ),
            rewarded_set_size != 0 && active_set_size == 0 ==> r == Err::<(), MixnetContractError>(
                MixnetContractError::ZeroActiveSet,
            ),
            0 < rewarded_set_size < active_set_size ==> r == Err::<(), MixnetContractError>(
                MixnetContractError::InvalidActiveSetSize,
            ),
    {
        if rewarded_set_size == 0 {
            return Err(MixnetContractError::ZeroRewardedSet);
        }
        if active_set_size == 0 {
            return Err(MixnetContractError::ZeroActiveSet);
        }
        if active_set_size > rewarded_set_size {
            return Err(MixnetContractError::InvalidActiveSetSize);
        }
        self.rewarded_set_size = rewarded_set_size;
        self.active_set_size = active_set_size;
        Ok(())
    }

    /// The rewarded set size as a decimal.
    pub fn dec_rewarded_set_size(&self) -> (r: Decimal)
        ensures
            r@ == self.rewarded_set_size * DECIMAL_FRACTIONAL,
    {
        Decimal::from_whole(self.rewarded_set_size as u128)
    }
}

/// What the network measured of one node in one epoch.
#[derive(Clone, Copy, Debug, PartialEq, Eq, Structural)]
pub struct NodeRewardParams {
    pub performance: Percent,
    pub in_active_set: bool,
}

impl NodeRewardParams {
    pub fn new(performance: Percent, in_active_set: bool) -> (r: NodeRewardParams)
        ensures
            r.performance == performance,
            r.in_active_set == in_active_set,
    {
        NodeRewardParams { performance, in_active_set }
    }
}

/// One epoch's reward of a node, split between its operator and its delegates.
#[derive(Clone, Copy, Debug, PartialEq, Eq, Structural)]
pub struct RewardDistribution {
    /// Credited to the operator, operating cost included.
    pub operator: Decimal,
    /// Credited to the pool of delegates.
    pub delegates: Decimal,
}

} // verus!
