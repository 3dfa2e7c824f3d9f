use crate::decimal::{
    checked_div, checked_mul, div_floor, lemma_div_floor_le, lemma_div_floor_le_one, lemma_mul_floor_le,
    lemma_mul_floor_le_double, lemma_mul_floor_zero, mul_floor, Decimal, DECIMAL_FRACTIONAL,
};
use crate::delegation::Delegation;
use crate::error::MixnetContractError;
use crate::params::{
    Coin, FullEpochId, NodeId, NodeRewardParams, Percent, RewardDistribution, RewardingParams,
};
use vstd::arithmetic::div_mod::{lemma_div_is_ordered, lemma_div_multiples_vanish};
use vstd::prelude::*;

verus! {

/// Atomics of the theoretical baseline delegation that every node's reward index is
/// expressed against (one billion whole tokens).
pub const UNIT_DELEGATION_BASE: u128 = 1_000_000_000_000_000_000_000_000_000;

/// Whether a node was placed in the active set or only in the rewarded set.
#[derive(Clone, Copy, Debug, PartialEq, Eq, Structural)]
pub enum RewardedSetNodeStatus {
    Active,
    Standby,
}

impl RewardedSetNodeStatus {
    pub fn is_active(&self) -> (r: bool)
        ensures
            r == (*self == RewardedSetNodeStatus::Active),
    {
        match self {
            RewardedSetNodeStatus::Active => true,
            RewardedSetNodeStatus::Standby => false,
        }
    }
}

/// The operator's declared costs.
#[derive(Clone, Debug, PartialEq)]
pub struct MixNodeCostParams {
    /// The operator's cut of the profit above cost.
    pub profit_margin_percent: Percent,
    /// Operating cost claimed for a whole interval.
    pub interval_operating_cost: Coin,
}

impl MixNodeCostParams {
    /// Operating cost of one epoch, the interval's cost spread over its epochs.
    pub open spec fn epoch_cost(&self, epochs_in_interval: u32) -> int {
        div_floor(self.interval_operating_cost.amount as int, epochs_in_interval as int)
    }

    pub fn epoch_operating_cost(&self, epochs_in_interval: u32) -> (r: Decimal)
        requires
            epochs_in_interval > 0,
            self.epoch_cost(epochs_in_interval) <= u128::MAX,
        ensures
            r@ == self.epoch_cost(epochs_in_interval),
    {
        Decimal::from_ratio(self.interval_operating_cost.amount, epochs_in_interval as u128)
    }
}

/// The rewarding ledger of one bonded node.
#[derive(Clone, Debug, PartialEq)]
pub struct MixNodeRewarding {
    pub cost_params: MixNodeCostParams,
    /// Pledge and compounded reward of the operator; zero once the node has unbonded.
    pub operator: Decimal,
    /// Principal and compounded reward of all delegations on this node.
    pub delegates: Decimal,
    /// Cumulative reward earned by the baseline delegation since the start: the reward index.
    pub total_unit_reward: Decimal,
    /// Value of the baseline delegation, fixed when the ledger is created.
    pub unit_delegation: Decimal,
    /// The last epoch in which the node was rewarded.
    pub last_rewarded_epoch: FullEpochId,
    /// Number of live delegation records on this node.
    pub unique_delegations: u32,
}

impl MixNodeRewarding {
    /// The node's total stake and the baseline's current value both fit a decimal.
    pub open spec fn wf(&self) -> bool {
        &&& self.operator@ + self.delegates@ <= u128::MAX
        &&& self.unit_delegation@ + self.total_unit_reward@ <= u128::MAX
    }

    /// This ledger with its two balances replaced.
    pub open spec fn with_balances(self, operator: int, delegates: int) -> MixNodeRewarding {
        MixNodeRewarding {
            operator: Decimal { atomics: operator as u128 },
            delegates: Decimal { atomics: delegates as u128 },
            ..self
        }
    }

    pub fn initialise_new(
        cost_params: MixNodeCostParams,
        initial_pledge: &Coin,
        current_epoch: FullEpochId,
    ) -> (r: MixNodeRewarding)
        requires
            initial_pledge.amount * DECIMAL_FRACTIONAL <= u128::MAX,
        ensures
            r.wf(),
            r.cost_params == cost_params,
            r.operator@ == initial_pledge.amount * DECIMAL_FRACTIONAL,
            r.delegates@ == 0,
            r.total_unit_reward@ == 0,
            r.unit_delegation@ == UNIT_DELEGATION_BASE,
            r.last_rewarded_epoch == current_epoch,
            r.unique_delegations == 0,
    {
        MixNodeRewarding {
            cost_params,
            operator: Decimal::from_whole(initial_pledge.amount),
            delegates: Decimal::zero(),
            total_unit_reward: Decimal::zero(),
            unit_delegation: Decimal::raw(UNIT_DELEGATION_BASE),
            last_rewarded_epoch: current_epoch,
            unique_delegations: 0,
        }
    }

    /// A node whose operator holds nothing has unbonded; its ledger only lives on so that
    /// delegators can withdraw.
    pub fn still_bonded(&self) -> (r: bool)
        ensures
            r == (self.operator@ != 0),
    {
        !self.operator.is_zero()
    }

    pub fn node_bond(&self) -> (r: Decimal)
        requires
            self.wf(),
        ensures
            r@ == self.operator@ + self.delegates@,
    {
        self.operator.add(self.delegates)
    }

    pub open spec fn pledge_saturation_spec(&self, params: RewardingParams) -> int {
        if self.operator@ > params.stake_saturation_point@ {
            DECIMAL_FRACTIONAL as int
        } else {
            div_floor(self.operator@, params.stake_saturation_point@)
        }
    }

    pub open spec fn bond_saturation_spec(&self, params: RewardingParams) -> int {
        if self.operator@ + self.delegates@ > params.stake_saturation_point@ {
            DECIMAL_FRACTIONAL as int
        } else {
            div_floor(self.operator@ + self.delegates@, params.stake_saturation_point@)
        }
    }

    /// Saturation over the operator's own tokens, capped at one.
    pub fn pledge_saturation(&self, reward_params: &RewardingParams) -> (r: Decimal)
        requires
            reward_params.wf(),
        ensures
            r@ == self.pledge_saturation_spec(*reward_params),
            0 <= r@ <= DECIMAL_FRACTIONAL,
    {
        let ssp = reward_params.stake_saturation_point;
        if self.operator.gt(&ssp) {
            Decimal::one()
        } else {
            proof {
                lemma_div_floor_le_one(self.operator@, ssp@);
            }
            self.operator.div(ssp)
        }
    }

    /// Saturation over all the tokens staked on this node, capped at one.
    pub fn bond_saturation(&self, reward_params: &RewardingParams) -> (r: Decimal)
        requires
            self.wf(),
            reward_params.wf(),
        ensures
            r@ == self.bond_saturation_spec(*reward_params),
            0 <= r@ <= DECIMAL_FRACTIONAL,
    {
        let ssp = reward_params.stake_saturation_point;
        let bond = self.node_bond();
        if bond.gt(&ssp) {
            Decimal::one()
        } else {
            proof {
                lemma_div_floor_le_one(bond@, ssp@);
            }
            bond.div(ssp)
        }
    }

    /// Saturation over all the tokens staked on this node, without the cap; for display only.
    pub fn uncapped_bond_saturation(&self, reward_params: &RewardingParams) -> (r: Decimal)
        requires
            self.wf(),
            reward_params.wf(),
            div_floor(self.operator@ + self.delegates@, reward_params.stake_saturation_point@)
                <= u128::MAX,
        ensures
            r@ == div_floor(
                self.operator@ + self.delegates@,
                reward_params.stake_saturation_point@,
            ),
    {
        self.node_bond().div(reward_params.stake_saturation_point)
    }

    /// The reward a node earns in one epoch, before it is split.
    pub open spec fn node_reward_spec(&self, params: RewardingParams, node: NodeRewardParams) -> int {
        let work = if node.in_active_set {
            params.active_node_work@
        } else {
            params.standby_node_work@
        };
        let alpha = params.sybil_resistance@;
        let scaled = mul_floor(
            mul_floor(params.epoch_reward_budget@, node.performance@),
            self.bond_saturation_spec(params),
        );
        let pledge_term = div_floor(
            mul_floor(alpha, self.pledge_saturation_spec(params)),
            params.rewarded_set_size * DECIMAL_FRACTIONAL,
        );
        div_floor(mul_floor(scaled, work + pledge_term), DECIMAL_FRACTIONAL + alpha)
    }

    pub fn node_reward(&self, reward_params: &RewardingParams, node_params: NodeRewardParams) -> (r: Decimal)
        requires
            self.wf(),
            reward_params.wf(),
        ensures
            r@ == self.node_reward_spec(*reward_params, node_params),
            self.operator@ + self.delegates@ == 0 ==> r@ == 0,
            node_params.performance@ == 0 ==> r@ == 0,
    {
        let work = if node_params.in_active_set {
            reward_params.active_node_work
        } else {
            reward_params.standby_node_work
        };
        let alpha = reward_params.sybil_resistance.value();
        let budget = reward_params.epoch_reward_budget;
        let perf = node_params.performance.value();
        let bond_sat = self.bond_saturation(reward_params);
        let pledge_sat = self.pledge_saturation(reward_params);
        proof {
            lemma_mul_floor_le(budget@, perf@);
        }
        let t1 = budget.mul(perf);
        proof {
            lemma_mul_floor_le(t1@, bond_sat@);
            lemma_mul_floor_le(alpha@, pledge_sat@);
        }
        let scaled = t1.mul(bond_sat);
        let ap = alpha.mul(pledge_sat);
        let k = reward_params.dec_rewarded_set_size();
        proof {
            lemma_div_floor_le(ap@, k@);
        }
        let pledge_term = ap.div(k);
        let sum = work.add(pledge_term);
        proof {
            lemma_mul_floor_le_double(scaled@, sum@);
        }
        let t3 = scaled.mul(sum);
        let denom = Decimal::one().add(alpha);
        proof {
            lemma_div_floor_le(t3@, denom@);
            if self.operator@ + self.delegates@ == 0 || perf@ == 0 {
                lemma_mul_floor_zero(budget@);
                lemma_mul_floor_zero(t1@);
                lemma_mul_floor_zero(sum@);
                assert(div_floor(0, reward_params.stake_saturation_point@) == 0);
                assert(div_floor(0, denom@) == 0);
            }
        }
        t3.div(denom)
    }

    /// How one epoch's reward is split: operator share and delegate share.
    pub open spec fn reward_split_spec(&self, node_reward: int, performance: int, epochs_in_interval: u32) -> (int, int) {
        let cost = mul_floor(self.cost_params.epoch_cost(epochs_in_interval), performance);
        if node_reward > cost {
            let profit = node_reward - cost;
            let margin = self.cost_params.profit_margin_percent@;
            let share = div_floor(self.operator@, self.operator@ + self.delegates@);
            let operator = mul_floor(
                profit,
                margin + mul_floor(DECIMAL_FRACTIONAL - margin, share),
            );
            (operator + cost, profit - operator)
        } else {
            (node_reward, 0)
        }
    }

    /// Splits `node_reward` between the operator and the delegates. The operator first
    /// recovers the epoch's operating cost (scaled by performance); of the profit it takes its
    /// margin plus its stake share of the rest. A reward that does not cover the cost goes
    /// wholly to the operator. Nothing is lost: the two shares add up to the reward.
    pub fn determine_reward_split(
        &self,
        node_reward: Decimal,
        node_performance: Percent,
        epochs_in_interval: u32,
    ) -> (r: RewardDistribution)
        requires
            self.wf(),
            epochs_in_interval > 0,
            self.cost_params.epoch_cost(epochs_in_interval) <= u128::MAX,
            node_reward@ > mul_floor(self.cost_params.epoch_cost(epochs_in_interval), node_performance@)
                ==> self.operator@ + self.delegates@ > 0,
        ensures
            (r.operator@, r.delegates@) == self.reward_split_spec(
                node_reward@,
                node_performance@,
                epochs_in_interval,
            ),
            r.operator@ + r.delegates@ == node_reward@,
            node_reward@ <= mul_floor(self.cost_params.epoch_cost(epochs_in_interval), node_performance@)
                ==> r.operator@ == node_reward@ && r.delegates@ == 0,
    {
        let perf = node_performance.value();
        let epoch_cost = self.cost_params.epoch_operating_cost(epochs_in_interval);
        proof {
            lemma_mul_floor_le(epoch_cost@, perf@);
        }
        let node_cost = epoch_cost.mul(perf);
        if node_reward.gt(&node_cost) {
            let profit = node_reward.sub(node_cost);
            let margin = self.cost_params.profit_margin_percent.value();
            let one = Decimal::one();
            let bond = self.node_bond();
            proof {
                lemma_div_floor_le_one(self.operator@, bond@);
            }
            let operator_share = self.operator.div(bond);
            let rest = one.sub(margin);
            proof {
                lemma_mul_floor_le(rest@, operator_share@);
            }
            let factor = margin.add(rest.mul(operator_share));
            proof {
                lemma_mul_floor_le(profit@, factor@);
            }
            let operator = profit.mul(factor);
            let delegates = profit.sub(operator);
            RewardDistribution { operator: operator.add(node_cost), delegates }
        } else {
            RewardDistribution { operator: node_reward, delegates: Decimal::zero() }
        }
    }

    /// The reward and its split for one epoch.
    pub open spec fn epoch_reward_spec(
        &self,
        params: RewardingParams,
        node: NodeRewardParams,
        epochs_in_interval: u32,
    ) -> (int, int) {
        self.reward_split_spec(
            self.node_reward_spec(params, node),
            node.performance@,
            epochs_in_interval,
        )
    }

    pub fn calculate_epoch_reward(
        &self,
        reward_params: &RewardingParams,
        node_params: NodeRewardParams,
        epochs_in_interval: u32,
    ) -> (r: RewardDistribution)
        requires
            self.wf(),
            reward_params.wf(),
            epochs_in_interval > 0,
            self.cost_params.epoch_cost(epochs_in_interval) <= u128::MAX,
        ensures
            (r.operator@, r.delegates@) == self.epoch_reward_spec(
                *reward_params,
                node_params,
                epochs_in_interval,
            ),
            r.operator@ + r.delegates@ == self.node_reward_spec(*reward_params, node_params),
    {
        let node_reward = self.node_reward(reward_params, node_params);
        let perf = node_params.performance.value();
        proof {
            lemma_mul_floor_le(self.cost_params.epoch_cost(epochs_in_interval), perf@);
        }
        self.determine_reward_split(node_reward, node_params.performance, epochs_in_interval)
    }

    /// What one baseline unit of delegation earns when `delegates_reward` is credited to the
    /// pool: its share of the reward, valued at the baseline plus the index so far, over the
    /// pool before the credit. An empty pool gives nothing.
    pub open spec fn unit_reward_spec(&self, delegates_reward: int) -> int {
        if self.delegates@ == 0 {
            0
        } else {
            mul_floor(
                delegates_reward,
                div_floor(self.unit_delegation@ + self.total_unit_reward@, self.delegates@),
            )
        }
    }

    /// Crediting a distribution of these amounts keeps every value within a decimal.
    pub open spec fn can_distribute_spec(&self, operator_reward: int, delegates_reward: int) -> bool {
        &&& self.delegates@ != 0 ==> div_floor(
            self.unit_delegation@ + self.total_unit_reward@,
            self.delegates@,
        ) <= u128::MAX
        &&& self.operator@ + operator_reward + self.delegates@ + delegates_reward <= u128::MAX
        &&& self.unit_delegation@ + self.total_unit_reward@ + self.unit_reward_spec(delegates_reward)
            <= u128::MAX
    }

    fn try_unit_reward(&self, delegates_reward: Decimal) -> (r: Option<Decimal>)
        requires
            self.wf(),
        ensures
            r is Some <==> (self.delegates@ != 0 ==> div_floor(
                self.unit_delegation@ + self.total_unit_reward@,
                self.delegates@,
            ) <= u128::MAX && self.unit_reward_spec(delegates_reward@) <= u128::MAX),
            r matches Some(v) ==> v@ == self.unit_reward_spec(delegates_reward@),
    {
        if self.delegates.is_zero() {
            return Some(Decimal::zero());
        }
        let value = self.unit_delegation.add(self.total_unit_reward);
        match checked_div(value, self.delegates) {
            Some(share) => checked_mul(delegates_reward, share),
            None => None,
        }
    }

    /// Whether `distribution` can be credited to this ledger (see `distribute_rewards`).
    pub fn can_distribute(&self, distribution: &RewardDistribution) -> (r: bool)
        requires
            self.wf(),
        ensures
            r == self.can_distribute_spec(distribution.operator@, distribution.delegates@),
    {
        match self.try_unit_reward(distribution.delegates) {
            Some(unit) => {
                let stake = self.operator.add(self.delegates);
                let index = self.unit_delegation.add(self.total_unit_reward);
                stake.atomics <= u128::MAX - distribution.operator.atomics
                    && stake.atomics + distribution.operator.atomics <= u128::MAX
                    - distribution.delegates.atomics && index.atomics <= u128::MAX - unit.atomics
            },
            None => false,
        }
    }

    /// Credits one epoch's distribution: the index grows by what one baseline unit earns,
    /// then both balances grow by their shares, and the epoch is recorded.
    pub fn distribute_rewards(&mut self, distribution: RewardDistribution, full_epoch_id: FullEpochId)
        requires
            old(self).wf(),
            old(self).can_distribute_spec(distribution.operator@, distribution.delegates@),
        ensures
            final(self).wf(),
            final(self).operator@ == old(self).operator@ + distribution.operator@,
            final(self).delegates@ == old(self).delegates@ + distribution.delegates@,
            final(self).total_unit_reward@ == old(self).total_unit_reward@ + old(self).unit_reward_spec(
                distribution.delegates@,
            ),
            final(self).last_rewarded_epoch == full_epoch_id,
            final(self).cost_params == old(self).cost_params,
            final(self).unit_delegation == old(self).unit_delegation,
            final(self).unique_delegations == old(self).unique_delegations,
    {
        let unit_delegation_reward = self.try_unit_reward(distribution.delegates).unwrap();
        self.operator = self.operator.add(distribution.operator);
        self.delegates = self.delegates.add(distribution.delegates);
        self.total_unit_reward = self.total_unit_reward.add(unit_delegation_reward);
        self.last_rewarded_epoch = full_epoch_id;
    }

    /// Computes this epoch's reward and credits it.
    pub fn epoch_rewarding(
        &mut self,
        reward_params: &RewardingParams,
        node_params: NodeRewardParams,
        epochs_in_interval: u32,
        full_epoch_id: FullEpochId,
    )
        requires
            old(self).wf(),
            reward_params.wf(),
            epochs_in_interval > 0,
            old(self).cost_params.epoch_cost(epochs_in_interval) <= u128::MAX,
            old(self).can_distribute_spec(
                old(self).epoch_reward_spec(*reward_params, node_params, epochs_in_interval).0,
                old(self).epoch_reward_spec(*reward_params, node_params, epochs_in_interval).1,
            ),
        ensures
            final(self).wf(),
            ({
                let (op, del) = old(self).epoch_reward_spec(
                    *reward_params,
                    node_params,
                    epochs_in_interval,
                );
                &&& final(self).operator@ == old(self).operator@ + op
                &&& final(self).delegates@ == old(self).delegates@ + del
                &&& final(self).total_unit_reward@ == old(self).total_unit_reward@
                    + old(self).unit_reward_spec(del)
            }),
            final(self).operator@ + final(self).delegates@ == old(self).operator@ + old(
                self,
            ).delegates@ + old(self).node_reward_spec(*reward_params, node_params),
            final(self).last_rewarded_epoch == full_epoch_id,
            final(self).cost_params == old(self).cost_params,
            final(self).unit_delegation == old(self).unit_delegation,
            final(self).unique_delegations == old(self).unique_delegations,
    {
        let reward_distribution = self.calculate_epoch_reward(
            reward_params,
            node_params,
            epochs_in_interval,
        );
        self.distribute_rewards(reward_distribution, full_epoch_id)
    }

    /// The reward index now.
    pub fn full_reward_ratio(&self) -> (r: Decimal)
        ensures
            r == self.total_unit_reward,
    {
        self.total_unit_reward
    }

    /// `amount` over the delegate pool, or zero for an empty pool.
    pub fn delegator_share(&self, amount: Decimal) -> (r: Decimal)
        requires
            self.delegates@ != 0 ==> div_floor(amount@, self.delegates@) <= u128::MAX,
        ensures
            r@ == if self.delegates@ == 0 {
                0
            } else {
                div_floor(amount@, self.delegates@)
            },
    {
        if self.delegates.is_zero() {
            Decimal::zero()
        } else {
            amount.div(self.delegates)
        }
    }

    /// The reward a delegation has earned since its snapshot of the index: the index's growth
    /// times the principal, over the index at the snapshot plus the baseline. It reads only
    /// this ledger and the one record, whatever other delegations exist.
    pub open spec fn delegation_reward_spec(&self, delegation: Delegation) -> int {
        div_floor(
            mul_floor(
                self.total_unit_reward@ - delegation.cumulative_reward_ratio@,
                delegation.amount.amount * DECIMAL_FRACTIONAL,
            ),
            delegation.cumulative_reward_ratio@ + UNIT_DELEGATION_BASE,
        )
    }

    /// The delegation's reward can be computed: its snapshot is not ahead of the index and
    /// every step fits a decimal.
    pub open spec fn delegation_reward_defined(&self, delegation: Delegation) -> bool {
        &&& delegation.cumulative_reward_ratio@ <= self.total_unit_reward@
        &&& delegation.amount.amount * DECIMAL_FRACTIONAL <= u128::MAX
        &&& delegation.cumulative_reward_ratio@ + UNIT_DELEGATION_BASE <= u128::MAX
        &&& mul_floor(
            self.total_unit_reward@ - delegation.cumulative_reward_ratio@,
            delegation.amount.amount * DECIMAL_FRACTIONAL,
        ) <= u128::MAX
        &&& self.delegation_reward_spec(delegation) <= u128::MAX
    }

    pub(crate) fn try_delegation_reward(&self, delegation: &Delegation) -> (r: Option<Decimal>)
        ensures
            r is Some <==> self.delegation_reward_defined(*delegation),
            r matches Some(v) ==> v@ == self.delegation_reward_spec(*delegation),
    {
        let starting_ratio = delegation.cumulative_reward_ratio;
        let ending_ratio = self.full_reward_ratio();
        if starting_ratio.gt(&ending_ratio) || delegation.amount.amount > u128::MAX / DECIMAL_FRACTIONAL
            || starting_ratio.atomics > u128::MAX - UNIT_DELEGATION_BASE {
            return None;
        }
        let adjust = starting_ratio.add(Decimal::raw(UNIT_DELEGATION_BASE));
        match checked_mul(ending_ratio.sub(starting_ratio), delegation.dec_amount()) {
            Some(grown) => checked_div(grown, adjust),
            None => None,
        }
    }

    pub fn determine_delegation_reward(&self, delegation: &Delegation) -> (r: Decimal)
        requires
            self.delegation_reward_defined(*delegation),
        ensures
            r@ == self.delegation_reward_spec(*delegation),
    {
        self.try_delegation_reward(delegation).unwrap()
    }

    /// Credits `amount` whole tokens of new principal to the delegate pool.
    pub fn add_base_delegation(&mut self, amount: u128)
        requires
            old(self).operator@ + old(self).delegates@ + amount * DECIMAL_FRACTIONAL <= u128::MAX,
        ensures
            *final(self) == old(self).with_balances(
                old(self).operator@,
                old(self).delegates@ + amount * DECIMAL_FRACTIONAL,
            ),
    {
        self.delegates = self.delegates.add(Decimal::from_whole(amount))
    }

    /// Takes `amount` out of the delegate pool, refused when the pool holds less.
    pub fn decrease_delegates(&mut self, amount: Decimal) -> (r: Result<(), MixnetContractError>)
        ensures
            r is Ok <==> amount@ <= old(self).delegates@,
            r is Ok ==> *final(self) == old(self).with_balances(
                old(self).operator@,
                old(self).delegates@ - amount@,
            ),
            r matches Err(e) ==> *final(self) == *old(self) && e
                == (MixnetContractError::OverflowDecimalSubtraction {
                minuend: old(self).delegates,
                subtrahend: amount,
            }),
    {
        if self.delegates.atomics < amount.atomics {
            return Err(
                MixnetContractError::OverflowDecimalSubtraction {
                    minuend: self.delegates,
                    subtrahend: amount,
                },
            );
        }
        self.delegates = self.delegates.sub(amount);
        Ok(())
    }

    /// Takes `amount` out of the operator's balance, refused when it holds less.
    pub fn decrease_operator(&mut self, amount: Decimal) -> (r: Result<(), MixnetContractError>)
        ensures
            r is Ok <==> amount@ <= old(self).operator@,
            r is Ok ==> *final(self) == old(self).with_balances(
                old(self).operator@ - amount@,
                old(self).delegates@,
            ),
            r matches Err(e) ==> *final(self) == *old(self) && e
                == (MixnetContractError::OverflowDecimalSubtraction {
                minuend: old(self).operator,
                subtrahend: amount,
            }),
    {
        if self.operator.atomics < amount.atomics {
            return Err(
                MixnetContractError::OverflowDecimalSubtraction {
                    minuend: self.operator,
                    subtrahend: amount,
                },
            );
        }
        self.operator = self.operator.sub(amount);
        Ok(())
    }

    /// Pays out a delegation's reward: the pool loses the reward, the record's snapshot moves
    /// to the current index, and the reward leaves truncated to whole tokens.
    pub fn withdraw_delegator_reward(&mut self, delegation: &mut Delegation) -> (r: Result<Coin, MixnetContractError>)
        requires
            old(self).delegation_reward_defined(*old(delegation)),
        ensures
            ({
                let reward = old(self).delegation_reward_spec(*old(delegation));
                &&& r is Ok <==> reward <= old(self).delegates@
                &&& r matches Ok(c) ==> {
                    &&& c.amount == reward / (DECIMAL_FRACTIONAL as int)
                    &&& c.denom == old(delegation).amount.denom
                    &&& *final(self) == old(self).with_balances(
                        old(self).operator@,
                        old(self).delegates@ - reward,
                    )
                    &&& *final(delegation) == (Delegation {
                        cumulative_reward_ratio: old(self).total_unit_reward,
                        ..*old(delegation)
                    })
                }
                &&& r matches Err(e) ==> {
                    &&& *final(self) == *old(self)
                    &&& *final(delegation) == *old(delegation)
                    &&& e is OverflowDecimalSubtraction
                }
            }),
    {
        let reward = self.determine_delegation_reward(delegation);
        match self.decrease_delegates(reward) {
            Ok(()) => {},
            Err(e) => return Err(e),
        }
        delegation.cumulative_reward_ratio = self.full_reward_ratio();
        Ok(truncate_reward(reward, delegation.amount.denom.clone()))
    }

    /// Pays out everything the operator holds above `original_pledge`. A balance below the
    /// pledge would mean an unmodelled loss, and is refused as an inconsistent state.
    pub fn withdraw_operator_reward(&mut self, original_pledge: &Coin) -> (r: Result<Coin, MixnetContractError>)
        requires
            original_pledge.amount * DECIMAL_FRACTIONAL <= u128::MAX,
        ensures
            ({
                let pledge = original_pledge.amount * DECIMAL_FRACTIONAL;
                &&& r is Ok <==> pledge <= old(self).operator@
                &&& r matches Ok(c) ==> {
                    &&& c.amount == (old(self).operator@ - pledge) / (DECIMAL_FRACTIONAL as int)
                    &&& c.denom == original_pledge.denom
                    &&& *final(self) == old(self).with_balances(pledge, old(self).delegates@)
                }
                &&& r matches Err(e) ==> *final(self) == *old(self) && e is InconsistentState
            }),
    {
        let initial_dec = Decimal::from_whole(original_pledge.amount);
        if initial_dec.gt(&self.operator) {
            return Err(
                MixnetContractError::InconsistentState {
                    comment: "operator balance is below the original pledge".to_owned(),
                },
            );
        }
        let diff = self.operator.sub(initial_dec);
        self.operator = initial_dec;
        Ok(truncate_reward(diff, original_pledge.denom.clone()))
    }

    /// The operator's reward on top of `original_pledge`, in whole tokens.
    pub fn pending_operator_reward(&self, original_pledge: &Coin) -> (r: Coin)
        requires
            original_pledge.amount <= self.operator@ / (DECIMAL_FRACTIONAL as int),
        ensures
            r.amount == self.operator@ / (DECIMAL_FRACTIONAL as int) - original_pledge.amount,
            r.denom == original_pledge.denom,
    {
        let reward_with_pledge = truncate_reward(self.operator, original_pledge.denom.clone());
        Coin {
            denom: reward_with_pledge.denom,
            amount: reward_with_pledge.amount - original_pledge.amount,
        }
    }

    /// The operator's pledge and reward, in whole tokens of `denom`.
    pub fn operator_pledge_with_reward(&self, denom: String) -> (r: Coin)
        ensures
            r.amount == self.operator@ / (DECIMAL_FRACTIONAL as int),
            r.denom == denom,
    {
        truncate_reward(self.operator, denom)
    }

    /// A delegation's reward so far, in whole tokens.
    pub fn pending_delegator_reward(&self, delegation: &Delegation) -> (r: Coin)
        requires
            self.delegation_reward_defined(*delegation),
        ensures
            r.amount == self.delegation_reward_spec(*delegation) / (DECIMAL_FRACTIONAL as int),
            r.denom == delegation.amount.denom,
    {
        let delegator_reward = self.determine_delegation_reward(delegation);
        truncate_reward(delegator_reward, delegation.amount.denom.clone())
    }
}

/// Layer of the mix network a node is placed in.
#[derive(Clone, Copy, Debug, PartialEq, Eq, Structural)]
pub enum Layer {
    One,
    Two,
    Three,
}

impl Layer {
    /// The layer's number, from one to three.
    pub fn as_u8(&self) -> (r: u8)
        ensures
            1 <= r <= 3,
            r == 1 <==> *self == Layer::One,
            r == 2 <==> *self == Layer::Two,
    {
        match self {
            Layer::One => 1,
            Layer::Two => 2,
            Layer::Three => 3,
        }
    }
}

/// What an operator declares about its node.
#[derive(Clone, Debug, PartialEq)]
pub struct MixNode {
    /// Network address, for example `1.1.1.1:1234` or `foo.mixnode.com`.
    pub host: String,
    pub mix_port: u16,
    pub verloc_port: u16,
    pub http_api_port: u16,
    /// Base58-encoded x25519 public key used for sphinx key derivation.
    pub sphinx_key: String,
    /// Base58-encoded ed25519 public key.
    pub identity_key: String,
    pub version: String,
}

/// The settable part of a node's declaration.
#[derive(Clone, Debug, PartialEq)]
pub struct MixNodeConfigUpdate {
    pub host: String,
    pub mix_port: u16,
    pub verloc_port: u16,
    pub http_api_port: u16,
    pub version: String,
}

/// A node's bond: who owns it, what was pledged, and whether it is leaving.
#[derive(Clone, Debug, PartialEq)]
pub struct MixNodeBond {
    pub id: NodeId,
    pub owner: String,
    pub original_pledge: Coin,
    pub layer: Layer,
    pub mix_node: MixNode,
    /// Who bonded the node on the owner's behalf, if anyone.
    pub proxy: Option<String>,
    pub bonding_height: u64,
    /// Set when the owner asked to unbond; the bond goes at the end of the epoch.
    pub is_unbonding: bool,
}

impl MixNodeBond {
    pub fn new(
        id: NodeId,
        owner: String,
        original_pledge: Coin,
        layer: Layer,
        mix_node: MixNode,
        proxy: Option<String>,
        bonding_height: u64,
    ) -> (r: MixNodeBond)
        ensures
            r == (MixNodeBond {
                id,
                owner,
                original_pledge,
                layer,
                mix_node,
                proxy,
                bonding_height,
                is_unbonding: false,
            }),
    {
        MixNodeBond {
            id,
            owner,
            original_pledge,
            layer,
            mix_node,
            proxy,
            bonding_height,
            is_unbonding: false,
        }
    }

    pub fn identity(&self) -> (r: &String)
        ensures
            *r == self.mix_node.identity_key,
    {
        &self.mix_node.identity_key
    }

    pub fn original_pledge(&self) -> (r: &Coin)
        ensures
            *r == self.original_pledge,
    {
        &self.original_pledge
    }

    pub fn owner(&self) -> (r: &String)
        ensures
            *r == self.owner,
    {
        &self.owner
    }

    pub fn mix_node(&self) -> (r: &MixNode)
        ensures
            *r == self.mix_node,
    {
        &self.mix_node
    }
}

/// A node's bond together with its rewarding ledger.
#[derive(Clone, Debug, PartialEq)]
pub struct MixNodeDetails {
    pub bond_information: MixNodeBond,
    pub rewarding_details: MixNodeRewarding,
}

impl MixNodeDetails {
    pub fn new(bond_information: MixNodeBond, rewarding_details: MixNodeRewarding) -> (r: MixNodeDetails)
        ensures
            r == (MixNodeDetails { bond_information, rewarding_details }),
    {
        MixNodeDetails { bond_information, rewarding_details }
    }

    pub fn mix_id(&self) -> (r: NodeId)
        ensures
            r == self.bond_information.id,
    {
        self.bond_information.id
    }

    pub fn is_unbonding(&self) -> (r: bool)
        ensures
            r == self.bond_information.is_unbonding,
    {
        self.bond_information.is_unbonding
    }

    pub fn original_pledge(&self) -> (r: &Coin)
        ensures
            *r == self.bond_information.original_pledge,
    {
        &self.bond_information.original_pledge
    }

    /// The operator's reward on top of the original pledge, in whole tokens.
    pub fn pending_operator_reward(&self) -> (r: Coin)
        requires
            self.bond_information.original_pledge.amount <= self.rewarding_details.operator@ / (
            DECIMAL_FRACTIONAL as int),
        ensures
            r.amount == self.rewarding_details.operator@ / (DECIMAL_FRACTIONAL as int)
                - self.bond_information.original_pledge.amount,
            r.denom == self.bond_information.original_pledge.denom,
    {
        let pledge = self.original_pledge();
        self.rewarding_details.pending_operator_reward(pledge)
    }
}

/// A node that has left, as remembered afterwards.
#[derive(Clone, Debug, PartialEq)]
pub struct UnbondedMixnode {
    pub identity: String,
    pub owner: String,
    pub unbonding_height: u64,
}

/// One page of node bonds, and where the next page starts.
#[derive(Clone, Debug, PartialEq)]
pub struct PagedMixnodeBondsResponse {
    pub nodes: Vec<MixNodeBond>,
    pub per_page: usize,
    pub start_next_after: Option<NodeId>,
}

impl PagedMixnodeBondsResponse {
    pub fn new(nodes: Vec<MixNodeBond>, per_page: usize, start_next_after: Option<NodeId>) -> (r: Self)
        ensures
            r.nodes == nodes,
            r.per_page == per_page,
            r.start_next_after == start_next_after,
    {
        PagedMixnodeBondsResponse { nodes, per_page, start_next_after }
    }
}

/// One page of node details, and where the next page starts.
#[derive(Clone, Debug, PartialEq)]
pub struct PagedMixnodesDetailsResponse {
    pub nodes: Vec<MixNodeDetails>,
    pub per_page: usize,
    pub start_next_after: Option<NodeId>,
}

impl PagedMixnodesDetailsResponse {
    pub fn new(nodes: Vec<MixNodeDetails>, per_page: usize, start_next_after: Option<NodeId>) -> (r: Self)
        ensures
            r.nodes == nodes,
            r.per_page == per_page,
            r.start_next_after == start_next_after,
    {
        PagedMixnodesDetailsResponse { nodes, per_page, start_next_after }
    }
}

/// One page of unbonded nodes, and where the next page starts.
#[derive(Clone, Debug, PartialEq)]
pub struct PagedUnbondedMixnodesResponse {
    pub nodes: Vec<(NodeId, UnbondedMixnode)>,
    pub per_page: usize,
    pub start_next_after: Option<NodeId>,
}

impl PagedUnbondedMixnodesResponse {
    pub fn new(nodes: Vec<(NodeId, UnbondedMixnode)>, per_page: usize, start_next_after: Option<NodeId>) -> (r: Self)
        ensures
            r.nodes == nodes,
            r.per_page == per_page,
            r.start_next_after == start_next_after,
    {
        PagedUnbondedMixnodesResponse { nodes, per_page, start_next_after }
    }
}

#[derive(Clone, Debug, PartialEq)]
pub struct MixOwnershipResponse {
    pub address: String,
    pub mixnode_details: Option<MixNodeDetails>,
}

#[derive(Clone, Debug, PartialEq)]
pub struct MixnodeDetailsResponse {
    pub mix_id: NodeId,
    pub mixnode_details: Option<MixNodeDetails>,
}

#[derive(Clone, Debug, PartialEq)]
pub struct MixnodeRewardingDetailsResponse {
    pub mix_id: NodeId,
    pub rewarding_details: Option<MixNodeRewarding>,
}

#[derive(Clone, Debug, PartialEq)]
pub struct UnbondedMixnodeResponse {
    pub mix_id: NodeId,
    pub unbonded_info: Option<UnbondedMixnode>,
}

#[derive(Clone, Copy, Debug, PartialEq, Eq, Structural)]
pub struct StakeSaturationResponse {
    pub mix_id: NodeId,
    pub current_saturation: Option<Decimal>,
    pub uncapped_saturation: Option<Decimal>,
}

/// Saturation is capped: with an operator holding twice the saturation point, the pledge
/// saturation is exactly one, while the uncapped bond saturation exceeds one.
pub proof fn lemma_saturation_cap(l: MixNodeRewarding, params: RewardingParams)
    requires
        params.wf(),
        l.operator@ == 2 * params.stake_saturation_point@,
    ensures
        l.pledge_saturation_spec(params) == DECIMAL_FRACTIONAL,
        l.bond_saturation_spec(params) == DECIMAL_FRACTIONAL,
        div_floor(l.operator@ + l.delegates@, params.stake_saturation_point@) > DECIMAL_FRACTIONAL,
{
    let s = params.stake_saturation_point@;
    let f = DECIMAL_FRACTIONAL as int;
    let b = l.operator@ + l.delegates@;
    assert(b * f >= s * (2 * f)) by (nonlinear_arith)
        requires
            b >= 2 * s,
            s > 0,
            f > 0,
    ;
    lemma_div_is_ordered(s * (2 * f), b * f, s);
    lemma_div_multiples_vanish(2 * f, s);
}

/// `reward` truncated to whole tokens of `denom`; the fraction stays behind.
pub fn truncate_reward(reward: Decimal, denom: String) -> (r: Coin)
    ensures
        r.amount == reward@ / (DECIMAL_FRACTIONAL as int),
        r.denom == denom,
{
    Coin { denom, amount: reward.to_uint_floor() }
}

} // verus!
