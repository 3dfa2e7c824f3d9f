use mixnet_rewarding::decimal::{checked_div, checked_mul, Decimal, DECIMAL_FRACTIONAL};
use mixnet_rewarding::delegation::Delegation;
use mixnet_rewarding::error::MixnetContractError;
use mixnet_rewarding::mixnode::{
    truncate_reward, MixNodeCostParams, MixNodeRewarding, UNIT_DELEGATION_BASE,
};
use mixnet_rewarding::params::{Coin, NodeRewardParams, Percent, RewardingParams};

const ONE: u128 = DECIMAL_FRACTIONAL;

fn tokens(n: u128) -> Decimal {
    Decimal::raw(n * ONE)
}

fn cost_params(margin_percent: u64, interval_cost: u128) -> MixNodeCostParams {
    MixNodeCostParams {
        profit_margin_percent: Percent::from_percentage_value(margin_percent).unwrap(),
        interval_operating_cost: Coin::new(interval_cost, "unym".to_string()),
    }
}

fn params(alpha_percent: u64) -> RewardingParams {
    RewardingParams {
        stake_saturation_point: tokens(1000),
        sybil_resistance: Percent::from_percentage_value(alpha_percent).unwrap(),
        epoch_reward_budget: tokens(100),
        staking_supply: tokens(1_000_000),
        active_node_work: Decimal::raw(ONE / 100),
        standby_node_work: Decimal::raw(ONE / 200),
        rewarded_set_size: 100,
        active_set_size: 50,
    }
}

fn ledger(operator: u128, delegates: u128) -> MixNodeRewarding {
    let mut l = MixNodeRewarding::initialise_new(
        cost_params(10, 720),
        &Coin::new(operator, "unym".to_string()),
        1,
    );
    l.delegates = tokens(delegates);
    l
}

fn full_performance() -> NodeRewardParams {
    NodeRewardParams::new(Percent::hundred(), true)
}

#[test]
fn decimal_mul_and_div_use_fixed_point() {
    let a = Decimal::raw(ONE + ONE / 2);
    assert_eq!(a.mul(tokens(2)), tokens(3));
    assert_eq!(tokens(3).div(tokens(2)), a);
    assert_eq!(Decimal::from_ratio(1, 3), Decimal::raw(333_333_333_333_333_333));
    assert_eq!(checked_mul(Decimal::raw(u128::MAX), tokens(2)), None);
    assert_eq!(checked_div(tokens(1), Decimal::zero()), None);
    assert_eq!(checked_div(tokens(1), tokens(4)), Some(Decimal::raw(ONE / 4)));
}

#[test]
fn percent_rejects_values_above_one() {
    assert_eq!(Percent::from_percentage_value(101), Err(MixnetContractError::InvalidPercent));
    assert_eq!(Percent::new(Decimal::raw(ONE + 1)), Err(MixnetContractError::InvalidPercent));
    assert_eq!(Percent::from_percentage_value(50).unwrap().value(), Decimal::raw(ONE / 2));
    assert!(Percent::zero().is_zero());
}

#[test]
fn initialise_new_sets_pledge_and_baseline() {
    let l = ledger(1000, 0);
    assert_eq!(l.operator, tokens(1000));
    assert_eq!(l.delegates, Decimal::zero());
    assert_eq!(l.total_unit_reward, Decimal::zero());
    assert_eq!(l.unit_delegation, Decimal::raw(UNIT_DELEGATION_BASE));
    assert_eq!(l.last_rewarded_epoch, 1);
    assert_eq!(l.unique_delegations, 0);
    assert!(l.still_bonded());
}

#[test]
fn saturation_is_capped_at_one() {
    let p = params(30);
    let l = ledger(2000, 0);
    assert_eq!(l.pledge_saturation(&p), Decimal::one());
    assert_eq!(l.bond_saturation(&p), Decimal::one());
    assert_eq!(l.uncapped_bond_saturation(&p), tokens(2));
    assert!(l.uncapped_bond_saturation(&p).gt(&Decimal::one()));
    let half = ledger(250, 250);
    assert_eq!(half.pledge_saturation(&p), Decimal::raw(ONE / 4));
    assert_eq!(half.bond_saturation(&p), Decimal::raw(ONE / 2));
}

#[test]
fn node_reward_follows_the_formula() {
    // 100 * 1 * 1 * (0.01 + 0.3 * 1 / 100) / 1.3 = 1
    let l = ledger(1000, 0);
    assert_eq!(l.node_reward(&params(30), full_performance()), tokens(1));
    // without sybil resistance: 100 * 0.01 = 1; on standby 100 * 0.005 = 0.5
    assert_eq!(l.node_reward(&params(0), full_performance()), tokens(1));
    let standby = NodeRewardParams::new(Percent::hundred(), false);
    assert_eq!(l.node_reward(&params(0), standby), Decimal::raw(ONE / 2));
}

#[test]
fn node_reward_is_zero_without_performance_or_stake() {
    let l = ledger(1000, 0);
    let idle = NodeRewardParams::new(Percent::zero(), true);
    assert_eq!(l.node_reward(&params(30), idle), Decimal::zero());
    let empty = ledger(0, 0);
    assert_eq!(empty.node_reward(&params(30), full_performance()), Decimal::zero());
}

#[test]
fn reward_split_conserves_the_reward() {
    // cost 720 / 720 = 1 token; profit 10; share 0.5; operator 10 * (0.1 + 0.9 * 0.5) = 5.5
    let l = ledger(1000, 1000);
    let split = l.determine_reward_split(tokens(11), Percent::hundred(), 720);
    assert_eq!(split.operator, Decimal::raw(6 * ONE + ONE / 2));
    assert_eq!(split.delegates, Decimal::raw(4 * ONE + ONE / 2));
    assert_eq!(split.operator.add(split.delegates), tokens(11));
}

#[test]
fn reward_below_cost_goes_to_the_operator() {
    let l = ledger(1000, 1000);
    let split = l.determine_reward_split(Decimal::raw(ONE / 2), Percent::hundred(), 720);
    assert_eq!(split.operator, Decimal::raw(ONE / 2));
    assert_eq!(split.delegates, Decimal::zero());
}

#[test]
fn epoch_operating_cost_spreads_the_interval_cost() {
    let c = cost_params(10, 720);
    assert_eq!(c.epoch_operating_cost(720), tokens(1));
    assert_eq!(c.epoch_operating_cost(7), Decimal::from_ratio(720, 7));
}

#[test]
fn distribute_rewards_moves_the_index() {
    let mut l = ledger(1000, 1000);
    let split = l.determine_reward_split(tokens(11), Percent::hundred(), 720);
    l.distribute_rewards(split, 5);
    assert_eq!(l.operator, Decimal::raw(1006 * ONE + ONE / 2));
    assert_eq!(l.delegates, Decimal::raw(1004 * ONE + ONE / 2));
    // 4.5 * (1e9 / 1000) = 4.5e6
    assert_eq!(l.total_unit_reward, tokens(4_500_000));
    assert_eq!(l.last_rewarded_epoch, 5);
}

#[test]
fn epoch_rewarding_credits_the_whole_reward() {
    let mut l = ledger(1000, 0);
    let before = l.node_bond();
    l.epoch_rewarding(&params(30), full_performance(), 720, 2);
    assert_eq!(l.node_bond(), before.add(tokens(1)));
    assert_eq!(l.last_rewarded_epoch, 2);
    assert_eq!(l.total_unit_reward, Decimal::zero());
}

#[test]
fn delegation_reward_is_index_growth_over_baseline() {
    let mut l = ledger(1000, 100);
    l.total_unit_reward = tokens(1_000_000);
    let d = Delegation::new(
        "alice".to_string(),
        1,
        Decimal::zero(),
        Coin::new(100, "unym".to_string()),
        10,
        None,
    );
    // 1e6 * 100 / 1e9 = 0.1
    assert_eq!(l.determine_delegation_reward(&d), Decimal::raw(ONE / 10));
    assert_eq!(l.pending_delegator_reward(&d), Coin::new(0, "unym".to_string()));
}

#[test]
fn withdraw_delegator_reward_resets_the_snapshot() {
    let mut l = ledger(1000, 100);
    l.total_unit_reward = tokens(100_000_000);
    let mut d = Delegation::new(
        "alice".to_string(),
        1,
        Decimal::zero(),
        Coin::new(100, "unym".to_string()),
        10,
        None,
    );
    // 1e8 * 100 / 1e9 = 10
    let paid = l.withdraw_delegator_reward(&mut d).unwrap();
    assert_eq!(paid, Coin::new(10, "unym".to_string()));
    assert_eq!(l.delegates, tokens(90));
    assert_eq!(d.cumulative_reward_ratio, tokens(100_000_000));
    assert_eq!(l.pending_delegator_reward(&d), Coin::new(0, "unym".to_string()));
}

#[test]
fn withdraw_delegator_reward_fails_when_pool_is_short() {
    let mut l = ledger(1000, 5);
    l.total_unit_reward = tokens(100_000_000);
    let mut d = Delegation::new(
        "alice".to_string(),
        1,
        Decimal::zero(),
        Coin::new(100, "unym".to_string()),
        10,
        None,
    );
    let r = l.withdraw_delegator_reward(&mut d);
    assert_eq!(
        r,
        Err(MixnetContractError::OverflowDecimalSubtraction {
            minuend: tokens(5),
            subtrahend: tokens(10),
        })
    );
    assert_eq!(l.delegates, tokens(5));
    assert_eq!(d.cumulative_reward_ratio, Decimal::zero());
}

#[test]
fn withdraw_operator_reward_keeps_the_pledge() {
    let mut l = ledger(1000, 0);
    l.operator = Decimal::raw(1012 * ONE + ONE / 3);
    let pledge = Coin::new(1000, "unym".to_string());
    assert_eq!(l.pending_operator_reward(&pledge), Coin::new(12, "unym".to_string()));
    let paid = l.withdraw_operator_reward(&pledge).unwrap();
    assert_eq!(paid, Coin::new(12, "unym".to_string()));
    assert_eq!(l.operator, tokens(1000));
}

#[test]
fn withdraw_operator_reward_below_pledge_is_inconsistent() {
    let mut l = ledger(900, 0);
    let r = l.withdraw_operator_reward(&Coin::new(1000, "unym".to_string()));
    assert!(matches!(r, Err(MixnetContractError::InconsistentState { .. })));
    assert_eq!(l.operator, tokens(900));
}

#[test]
fn decrease_balances_are_checked() {
    let mut l = ledger(10, 10);
    assert_eq!(
        l.decrease_operator(tokens(11)),
        Err(MixnetContractError::OverflowDecimalSubtraction {
            minuend: tokens(10),
            subtrahend: tokens(11),
        })
    );
    assert_eq!(l.decrease_delegates(tokens(4)), Ok(()));
    assert_eq!(l.delegates, tokens(6));
    assert_eq!(l.decrease_operator(tokens(10)), Ok(()));
    assert!(!l.still_bonded());
}

#[test]
fn add_base_delegation_and_share() {
    let mut l = ledger(10, 0);
    assert_eq!(l.delegator_share(tokens(5)), Decimal::zero());
    l.add_base_delegation(20);
    assert_eq!(l.delegates, tokens(20));
    assert_eq!(l.delegator_share(tokens(5)), Decimal::raw(ONE / 4));
}

#[test]
fn truncate_reward_drops_the_fraction() {
    let c = truncate_reward(Decimal::raw(7 * ONE + ONE - 1), "unym".to_string());
    assert_eq!(c, Coin::new(7, "unym".to_string()));
    assert_eq!(l_pledge_with_reward(), Coin::new(3, "nym".to_string()));
}

fn l_pledge_with_reward() -> Coin {
    let mut l = ledger(1, 0);
    l.operator = Decimal::raw(3 * ONE + 5);
    l.operator_pledge_with_reward("nym".to_string())
}

#[test]
fn set_sizes_are_validated() {
    let mut p = params(30);
    assert_eq!(p.try_change_set_sizes(0, 0), Err(MixnetContractError::ZeroRewardedSet));
    assert_eq!(p.try_change_set_sizes(10, 0), Err(MixnetContractError::ZeroActiveSet));
    assert_eq!(p.try_change_set_sizes(10, 11), Err(MixnetContractError::InvalidActiveSetSize));
    assert_eq!(p.rewarded_set_size, 100);
    assert_eq!(p.try_change_set_sizes(240, 120), Ok(()));
    assert_eq!(p.rewarded_set_size, 240);
    assert_eq!(p.active_set_size, 120);
}
