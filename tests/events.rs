use mixnet_rewarding::decimal::{Decimal, DECIMAL_FRACTIONAL};
use mixnet_rewarding::error::MixnetContractError;
use mixnet_rewarding::events::{
    execute_epoch_events, execute_interval_events, MixnetStorage, Payout, PendingEpochEvent,
    PendingIntervalEvent,
};
use mixnet_rewarding::mixnode::{
    Layer, MixNode, MixNodeBond, MixNodeCostParams, MixNodeRewarding, UNIT_DELEGATION_BASE,
};
use mixnet_rewarding::params::{Coin, NodeRewardParams, Percent, RewardingParams};

const ONE: u128 = DECIMAL_FRACTIONAL;
const NODE: u32 = 7;

fn tokens(n: u128) -> Decimal {
    Decimal::raw(n * ONE)
}

fn unym(n: u128) -> Coin {
    Coin::new(n, "unym".to_string())
}

fn params() -> RewardingParams {
    RewardingParams {
        stake_saturation_point: tokens(10_000),
        sybil_resistance: Percent::from_percentage_value(30).unwrap(),
        epoch_reward_budget: tokens(1000),
        staking_supply: tokens(1_000_000),
        active_node_work: Decimal::raw(ONE / 100),
        standby_node_work: Decimal::raw(ONE / 200),
        rewarded_set_size: 100,
        active_set_size: 50,
    }
}

fn performance() -> NodeRewardParams {
    NodeRewardParams::new(Percent::hundred(), true)
}

fn mix_node() -> MixNode {
    MixNode {
        host: "1.1.1.1".to_string(),
        mix_port: 1789,
        verloc_port: 1790,
        http_api_port: 8000,
        sphinx_key: "sphinxkey".to_string(),
        identity_key: "identitykey".to_string(),
        version: "1.0.0".to_string(),
    }
}

fn storage_with_node(pledge: u128) -> MixnetStorage {
    let mut s = MixnetStorage::new();
    let bond = MixNodeBond::new(
        NODE,
        "operator".to_string(),
        unym(pledge),
        Layer::One,
        mix_node(),
        None,
        1,
    );
    s.bonds.push(bond);
    let costs = MixNodeCostParams {
        profit_margin_percent: Percent::from_percentage_value(10).unwrap(),
        interval_operating_cost: unym(72),
    };
    s.rewarding.push((NODE, MixNodeRewarding::initialise_new(costs, &unym(pledge), 0)));
    s
}

fn ledger(s: &MixnetStorage) -> &MixNodeRewarding {
    &s.rewarding[0].1
}

fn delegate(s: &mut MixnetStorage, owner: &str, amount: u128) {
    let event = PendingEpochEvent::Delegate {
        owner: owner.to_string(),
        mix_id: NODE,
        amount: unym(amount),
        proxy: None,
    };
    assert_eq!(event.execute(s, 10), Ok(None));
}

fn undelegate(s: &mut MixnetStorage, owner: &str) -> Result<Option<Payout>, MixnetContractError> {
    let event = PendingEpochEvent::Undelegate { owner: owner.to_string(), mix_id: NODE, proxy: None };
    event.execute(s, 20)
}

#[test]
fn delegate_creates_a_record_at_the_current_index() {
    let mut s = storage_with_node(1000);
    delegate(&mut s, "alice", 100);
    assert_eq!(ledger(&s).delegates, tokens(100));
    assert_eq!(ledger(&s).unique_delegations, 1);
    assert_eq!(s.delegations.len(), 1);
    assert_eq!(s.delegations[0].amount, unym(100));
    assert_eq!(s.delegations[0].cumulative_reward_ratio, Decimal::zero());
    assert_eq!(s.delegations[0].height, 10);
}

#[test]
fn repeated_delegation_folds_the_reward_in() {
    let mut s = storage_with_node(1000);
    delegate(&mut s, "alice", 4000);
    delegate(&mut s, "bob", 4000);
    assert_eq!(s.reward_mixnode(NODE, &params(), performance(), 720, 1).is_ok(), true);
    let index = ledger(&s).total_unit_reward;
    let reward = ledger(&s).determine_delegation_reward(&s.delegations[0]);
    delegate(&mut s, "alice", 50);
    assert_eq!(s.delegations.len(), 2);
    assert_eq!(s.delegations[0].amount, unym(4000 + 50 + reward.to_uint_floor()));
    assert!(reward.to_uint_floor() > 0);
    assert_eq!(s.delegations[0].cumulative_reward_ratio, index);
    assert_eq!(ledger(&s).unique_delegations, 2);
}

#[test]
fn delegation_to_an_unbonded_node_is_a_no_op() {
    let mut s = storage_with_node(1000);
    s.rewarding[0].1.operator = Decimal::zero();
    let event = PendingEpochEvent::Delegate {
        owner: "alice".to_string(),
        mix_id: NODE,
        amount: unym(100),
        proxy: None,
    };
    assert_eq!(event.execute(&mut s, 10), Ok(None));
    assert_eq!(s.delegations.len(), 0);
    assert_eq!(ledger(&s).delegates, Decimal::zero());
    let missing = PendingEpochEvent::Delegate {
        owner: "alice".to_string(),
        mix_id: NODE + 1,
        amount: unym(100),
        proxy: None,
    };
    assert_eq!(missing.execute(&mut s, 10), Ok(None));
    assert_eq!(s.delegations.len(), 0);
}

#[test]
fn unbonding_a_missing_node_is_inconsistent() {
    let mut s = MixnetStorage::new();
    let event = PendingEpochEvent::UnbondMixnode { mix_id: NODE };
    let r = event.execute(&mut s, 10);
    assert!(matches!(r, Err(MixnetContractError::InconsistentState { .. })));
}

#[test]
fn unbonding_a_node_not_marked_is_inconsistent() {
    let mut s = storage_with_node(1000);
    let event = PendingEpochEvent::UnbondMixnode { mix_id: NODE };
    let r = event.execute(&mut s, 10);
    assert!(matches!(r, Err(MixnetContractError::InconsistentState { .. })));
    assert_eq!(s.bonds.len(), 1);
}

#[test]
fn unbonding_pays_the_operator_and_removes_the_node() {
    let mut s = storage_with_node(1000);
    s.bonds[0].is_unbonding = true;
    s.rewarding[0].1.operator = Decimal::raw(1003 * ONE + ONE / 2);
    let r = PendingEpochEvent::UnbondMixnode { mix_id: NODE }.execute(&mut s, 10);
    assert_eq!(r, Ok(Some(Payout { recipient: "operator".to_string(), amount: unym(1003) })));
    assert_eq!(s.bonds.len(), 0);
    assert_eq!(s.rewarding.len(), 0);
}

#[test]
fn unbonding_keeps_the_ledger_for_delegators() {
    let mut s = storage_with_node(1000);
    delegate(&mut s, "alice", 100);
    s.bonds[0].is_unbonding = true;
    let r = PendingEpochEvent::UnbondMixnode { mix_id: NODE }.execute(&mut s, 10);
    assert_eq!(r, Ok(Some(Payout { recipient: "operator".to_string(), amount: unym(1000) })));
    assert_eq!(s.rewarding.len(), 1);
    assert!(!ledger(&s).still_bonded());
    assert_eq!(ledger(&s).delegates, tokens(100));
    delegate(&mut s, "bob", 5);
    assert_eq!(s.delegations.len(), 1);
    let back = undelegate(&mut s, "alice");
    assert_eq!(back, Ok(Some(Payout { recipient: "alice".to_string(), amount: unym(100) })));
    assert_eq!(s.rewarding.len(), 0);
    assert_eq!(s.delegations.len(), 0);
}

#[test]
fn undelegating_without_a_record_is_a_no_op() {
    let mut s = storage_with_node(1000);
    assert_eq!(undelegate(&mut s, "nobody"), Ok(None));
    assert_eq!(ledger(&s).delegates, Decimal::zero());
}

#[test]
fn undelegating_from_a_node_without_ledger_is_inconsistent() {
    let mut s = storage_with_node(1000);
    delegate(&mut s, "alice", 100);
    s.rewarding.clear();
    let r = undelegate(&mut s, "alice");
    assert!(matches!(r, Err(MixnetContractError::InconsistentState { .. })));
    assert_eq!(s.delegations.len(), 1);
}

#[test]
fn undelegating_pays_the_proxy_when_there_is_one() {
    let mut s = storage_with_node(1000);
    let event = PendingEpochEvent::Delegate {
        owner: "alice".to_string(),
        mix_id: NODE,
        amount: unym(100),
        proxy: Some("vesting".to_string()),
    };
    assert_eq!(event.execute(&mut s, 10), Ok(None));
    assert_eq!(undelegate(&mut s, "alice"), Ok(None));
    let event = PendingEpochEvent::Undelegate {
        owner: "alice".to_string(),
        mix_id: NODE,
        proxy: Some("vesting".to_string()),
    };
    let r = event.execute(&mut s, 20);
    assert_eq!(r, Ok(Some(Payout { recipient: "vesting".to_string(), amount: unym(100) })));
}

#[test]
fn second_reward_in_one_epoch_is_refused() {
    let mut s = storage_with_node(1000);
    delegate(&mut s, "alice", 100);
    let first = s.reward_mixnode(NODE, &params(), performance(), 720, 3);
    assert!(first.is_ok());
    let operator = ledger(&s).operator;
    let delegates = ledger(&s).delegates;
    let second = s.reward_mixnode(NODE, &params(), performance(), 720, 3);
    assert_eq!(
        second,
        Err(MixnetContractError::MixnodeAlreadyRewarded { node_id: NODE, absolute_epoch_id: 3 })
    );
    assert_eq!(ledger(&s).operator, operator);
    assert_eq!(ledger(&s).delegates, delegates);
    assert!(s.reward_mixnode(NODE, &params(), performance(), 720, 4).is_ok());
}

#[test]
fn reward_pass_refuses_missing_and_unbonded_nodes() {
    let mut s = storage_with_node(1000);
    assert_eq!(
        s.reward_mixnode(NODE + 1, &params(), performance(), 720, 3),
        Err(MixnetContractError::MixNodeBondNotFound { id: NODE + 1 })
    );
    s.rewarding[0].1.operator = Decimal::zero();
    assert_eq!(
        s.reward_mixnode(NODE, &params(), performance(), 720, 3),
        Err(MixnetContractError::MixnodeHasUnbonded { node_id: NODE })
    );
}

#[test]
fn reward_pass_credits_operator_and_delegates() {
    let mut s = storage_with_node(1000);
    delegate(&mut s, "alice", 1000);
    let before = ledger(&s).node_bond();
    let expected = ledger(&s).node_reward(&params(), performance());
    let split = s.reward_mixnode(NODE, &params(), performance(), 720, 1).unwrap();
    assert_eq!(split.operator.add(split.delegates), expected);
    assert_eq!(ledger(&s).node_bond(), before.add(expected));
    assert_eq!(ledger(&s).last_rewarded_epoch, 1);
}

#[test]
fn accrual_of_one_delegator_ignores_the_others() {
    let mut s = storage_with_node(1000);
    delegate(&mut s, "alice", 100);
    delegate(&mut s, "bob", 100);
    for epoch in 1..4u32 {
        assert!(s.reward_mixnode(NODE, &params(), performance(), 720, epoch).is_ok());
    }
    let bob_before = ledger(&s).pending_delegator_reward(&s.delegations[1]);
    let bob_exact = ledger(&s).determine_delegation_reward(&s.delegations[1]);
    assert!(bob_exact.gt(&Decimal::zero()));
    let mut alice = s.delegations[0].clone();
    let paid = s.rewarding[0].1.withdraw_delegator_reward(&mut alice);
    assert!(paid.is_ok());
    s.delegations[0] = alice;
    delegate(&mut s, "carol", 300);
    assert_eq!(ledger(&s).pending_delegator_reward(&s.delegations[1]), bob_before);
    assert_eq!(ledger(&s).determine_delegation_reward(&s.delegations[1]), bob_exact);
}

#[test]
fn last_delegation_leaves_no_dust() {
    let mut s = storage_with_node(1000);
    delegate(&mut s, "alice", 100);
    for epoch in 1..4u32 {
        assert!(s.reward_mixnode(NODE, &params(), performance(), 720, epoch).is_ok());
    }
    let operator = ledger(&s).operator;
    let delegates = ledger(&s).delegates;
    let reward = ledger(&s).determine_delegation_reward(&s.delegations[0]);
    let owed = tokens(100).add(reward);
    assert_eq!(ledger(&s).unique_delegations, 1);
    let r = undelegate(&mut s, "alice");
    assert!(r.is_ok());
    assert_eq!(ledger(&s).delegates, Decimal::zero());
    assert_eq!(ledger(&s).operator, operator.add(delegates.sub(owed)));
    assert_eq!(ledger(&s).unique_delegations, 0);
}

#[test]
fn delegate_reward_undelegate_round_trip() {
    let mut s = storage_with_node(1000);
    delegate(&mut s, "bob", 400);
    let i0 = ledger(&s).total_unit_reward;
    delegate(&mut s, "alice", 100);
    assert!(s.reward_mixnode(NODE, &params(), performance(), 720, 1).is_ok());
    let i1 = ledger(&s).total_unit_reward;
    let pool = ledger(&s).delegates;
    assert!(i1.gt(&i0));
    // the reward: (i1 - i0) * 100 / (i0 + baseline), in atomics
    let growth = i1.atomics - i0.atomics;
    let reward_atomics = growth * 100 / ((i0.atomics + UNIT_DELEGATION_BASE) / ONE);
    let r = undelegate(&mut s, "alice");
    assert_eq!(
        r,
        Ok(Some(Payout { recipient: "alice".to_string(), amount: unym(100 + reward_atomics / ONE) }))
    );
    assert_eq!(ledger(&s).delegates, pool.sub(Decimal::raw(100 * ONE + reward_atomics)));
}

#[test]
fn cost_params_change_applies_to_existing_nodes_only() {
    let mut s = storage_with_node(1000);
    let costs = MixNodeCostParams {
        profit_margin_percent: Percent::from_percentage_value(20).unwrap(),
        interval_operating_cost: unym(1440),
    };
    let missing = PendingIntervalEvent::ChangeMixCostParams { mix: NODE + 1, new_costs: costs.clone() };
    assert_eq!(missing.execute(&mut s), Ok(()));
    assert_eq!(ledger(&s).cost_params.interval_operating_cost, unym(72));
    let change = PendingIntervalEvent::ChangeMixCostParams { mix: NODE, new_costs: costs.clone() };
    assert_eq!(change.execute(&mut s), Ok(()));
    assert_eq!(ledger(&s).cost_params, costs);
}

#[test]
fn epoch_queue_runs_in_order_and_collects_payouts() {
    let mut s = storage_with_node(1000);
    let events = vec![
        PendingEpochEvent::Delegate {
            owner: "alice".to_string(),
            mix_id: NODE,
            amount: unym(100),
            proxy: None,
        },
        PendingEpochEvent::Delegate {
            owner: "bob".to_string(),
            mix_id: NODE,
            amount: unym(30),
            proxy: None,
        },
        PendingEpochEvent::Undelegate { owner: "alice".to_string(), mix_id: NODE, proxy: None },
        PendingEpochEvent::Undelegate { owner: "carol".to_string(), mix_id: NODE, proxy: None },
    ];
    let r = execute_epoch_events(&mut s, events, 10);
    assert_eq!(r, Ok(vec![Payout { recipient: "alice".to_string(), amount: unym(100) }]));
    assert_eq!(s.delegations.len(), 1);
    assert_eq!(s.delegations[0].owner, "bob");
    assert_eq!(ledger(&s).delegates, tokens(30));
}

#[test]
fn epoch_queue_rolls_back_on_hard_failure() {
    let mut s = storage_with_node(1000);
    let events = vec![
        PendingEpochEvent::Delegate {
            owner: "alice".to_string(),
            mix_id: NODE,
            amount: unym(100),
            proxy: None,
        },
        PendingEpochEvent::UnbondMixnode { mix_id: NODE + 1 },
        PendingEpochEvent::Delegate {
            owner: "bob".to_string(),
            mix_id: NODE,
            amount: unym(30),
            proxy: None,
        },
    ];
    let r = execute_epoch_events(&mut s, events, 10);
    assert!(matches!(r, Err(MixnetContractError::InconsistentState { .. })));
    assert_eq!(s.delegations.len(), 0);
    assert_eq!(ledger(&s).delegates, Decimal::zero());
    assert_eq!(ledger(&s).unique_delegations, 0);
    assert_eq!(s.bonds.len(), 1);
}

#[test]
fn interval_queue_applies_every_change() {
    let mut s = storage_with_node(1000);
    let first = MixNodeCostParams {
        profit_margin_percent: Percent::from_percentage_value(20).unwrap(),
        interval_operating_cost: unym(100),
    };
    let second = MixNodeCostParams {
        profit_margin_percent: Percent::from_percentage_value(5).unwrap(),
        interval_operating_cost: unym(200),
    };
    let events = vec![
        PendingIntervalEvent::ChangeMixCostParams { mix: NODE, new_costs: first },
        PendingIntervalEvent::ChangeMixCostParams { mix: NODE + 1, new_costs: second.clone() },
        PendingIntervalEvent::ChangeMixCostParams { mix: NODE, new_costs: second.clone() },
    ];
    execute_interval_events(&mut s, events);
    assert_eq!(ledger(&s).cost_params, second);
}
