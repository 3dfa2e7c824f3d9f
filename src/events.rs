use crate::decimal::{checked_div, mul_floor, Decimal, DECIMAL_FRACTIONAL};
use crate::delegation::{opt_view, same_key, Delegation};
use crate::error::MixnetContractError;
use crate::mixnode::{
    MixNode, MixNodeBond, MixNodeCostParams, MixNodeRewarding, UNIT_DELEGATION_BASE,
};
use crate::params::{Coin, NodeId, NodeRewardParams, RewardDistribution, RewardingParams};
use vstd::arithmetic::div_mod::lemma_div_multiples_vanish;
use vstd::prelude::*;

verus! {

/// Tokens to be sent out of the ledger.
#[derive(Clone, Debug, PartialEq)]
pub struct Payout {
    pub recipient: String,
    pub amount: Coin,
}

/// Who receives what leaves a bond or a delegation: the proxy when there is one, else the owner.
pub open spec fn proxy_or_owner(owner: String, proxy: Option<String>) -> String {
    match proxy {
        Some(p) => p,
        None => owner,
    }
}

fn send_to_proxy_or_owner(owner: String, proxy: Option<String>, amount: Coin) -> (r: Payout)
    ensures
        r == (Payout { recipient: proxy_or_owner(owner, proxy), amount }),
{
    match proxy {
        Some(p) => Payout { recipient: p, amount },
        None => Payout { recipient: owner, amount },
    }
}

/// A ledger after an existing delegation's principal and reward leave the pool. When that
/// was the pool's only delegation, whatever dust remains in the pool moves to the operator.
pub open spec fn ledger_without(l: MixNodeRewarding, principal: int, reward: int) -> MixNodeRewarding {
    let left = l.delegates@ - (principal + reward);
    if l.unique_delegations == 1 {
        l.with_balances(l.operator@ + left, 0)
    } else {
        l.with_balances(l.operator@, left)
    }
}

/// The contract's records: bonds and rewarding ledgers keyed by node, delegations keyed by
/// (node, owner, proxy).
#[derive(Debug)]
pub struct MixnetStorage {
    pub bonds: Vec<MixNodeBond>,
    pub rewarding: Vec<(NodeId, MixNodeRewarding)>,
    pub delegations: Vec<Delegation>,
}

impl View for MixnetStorage {
    type V = (Seq<MixNodeBond>, Seq<(NodeId, MixNodeRewarding)>, Seq<Delegation>);

    open spec fn view(&self) -> Self::V {
        (self.bonds@, self.rewarding@, self.delegations@)
    }
}

impl MixnetStorage {
    /// Keys are unique in each store and every ledger is well formed.
    pub open spec fn wf(&self) -> bool {
        &&& forall|a: int, b: int|
            0 <= a < self.rewarding.len() && 0 <= b < self.rewarding.len() && a != b
                ==> self.rewarding@[a].0 != self.rewarding@[b].0
        &&& forall|a: int| 0 <= a < self.rewarding.len() ==> (#[trigger] self.rewarding@[a]).1.wf()
        &&& forall|a: int, b: int|
            0 <= a < self.bonds.len() && 0 <= b < self.bonds.len() && a != b
                ==> self.bonds@[a].id != self.bonds@[b].id
        &&& forall|a: int, b: int|
            0 <= a < self.delegations.len() && 0 <= b < self.delegations.len() && a != b
                ==> !same_key(self.delegations@[a], self.delegations@[b])
    }

    pub fn new() -> (r: MixnetStorage)
        ensures
            r.wf(),
            r.bonds@.len() == 0,
            r.rewarding@.len() == 0,
            r.delegations@.len() == 0,
    {
        MixnetStorage { bonds: Vec::new(), rewarding: Vec::new(), delegations: Vec::new() }
    }

    pub fn find_rewarding(&self, mix_id: NodeId) -> (r: Option<usize>)
        ensures
            r matches Some(i) ==> i < self.rewarding.len() && self.rewarding@[i as int].0 == mix_id,
            r is None ==> forall|j: int|
                0 <= j < self.rewarding.len() ==> self.rewarding@[j].0 != mix_id,
    {
        let mut i: usize = 0;
        while i < self.rewarding.len()
            invariant
                i <= self.rewarding.len(),
                forall|j: int| 0 <= j < i ==> self.rewarding@[j].0 != mix_id,
            decreases self.rewarding.len() - i,
        {
            if self.rewarding[i].0 == mix_id {
                return Some(i);
            }
            i = i + 1;
        }
        None
    }

    pub fn find_bond(&self, mix_id: NodeId) -> (r: Option<usize>)
        ensures
            r matches Some(i) ==> i < self.bonds.len() && self.bonds@[i as int].id == mix_id,
            r is None ==> forall|j: int| 0 <= j < self.bonds.len() ==> self.bonds@[j].id != mix_id,
    {
        let mut i: usize = 0;
        while i < self.bonds.len()
            invariant
                i <= self.bonds.len(),
                forall|j: int| 0 <= j < i ==> self.bonds@[j].id != mix_id,
            decreases self.bonds.len() - i,
        {
            if self.bonds[i].id == mix_id {
                return Some(i);
            }
            i = i + 1;
        }
        None
    }

    pub fn find_delegation(&self, mix_id: NodeId, owner: &String, proxy: &Option<String>) -> (r: Option<usize>)
        ensures
            r matches Some(i) ==> i < self.delegations.len() && self.delegations@[i as int].has_key(
                mix_id,
                owner@,
                opt_view(*proxy),
            ),
            r is None ==> forall|j: int|
                0 <= j < self.delegations.len() ==> !self.delegations@[j].has_key(
                    mix_id,
                    owner@,
                    opt_view(*proxy),
                ),
    {
        let mut i: usize = 0;
        while i < self.delegations.len()
            invariant
                i <= self.delegations.len(),
                forall|j: int|
                    0 <= j < i ==> !self.delegations@[j].has_key(mix_id, owner@, opt_view(*proxy)),
            decreases self.delegations.len() - i,
        {
            if self.delegations[i].matches_key(mix_id, owner, proxy) {
                return Some(i);
            }
            i = i + 1;
        }
        None
    }
}

fn inconsistent(comment: &str) -> (r: MixnetContractError)
    ensures
        r is InconsistentState,
{
    MixnetContractError::InconsistentState { comment: comment.to_owned() }
}

/// Takes a delegation's principal and reward out of the ledger's pool (sweeping dust to the
/// operator when it was the only one) and returns the reward truncated to whole tokens.
fn withdraw_principal_and_reward(ledger: &mut MixNodeRewarding, delegation: &Delegation) -> (r: Result<u128, MixnetContractError>)
    requires
        old(ledger).wf(),
    ensures
        ({
            let reward = old(ledger).delegation_reward_spec(*delegation);
            let principal = delegation.amount.amount * DECIMAL_FRACTIONAL;
            &&& r is Ok <==> old(ledger).delegation_reward_defined(*delegation) && principal + reward
                <= old(ledger).delegates@
            &&& r matches Ok(t) ==> t == reward / (DECIMAL_FRACTIONAL as int) && *final(ledger)
                == ledger_without(*old(ledger), principal, reward) && final(ledger).wf()
            &&& r matches Err(e) ==> *final(ledger) == *old(ledger) && (old(
                ledger,
            ).delegation_reward_defined(*delegation) && principal + reward <= u128::MAX
                ==> e is OverflowDecimalSubtraction)
        }),
{
    let reward = match ledger.try_delegation_reward(delegation) {
        Some(v) => v,
        None => return Err(inconsistent("delegation reward is out of range")),
    };
    let principal = delegation.dec_amount();
    if principal.atomics > u128::MAX - reward.atomics {
        return Err(inconsistent("delegation principal and reward are out of range"));
    }
    match ledger.decrease_delegates(principal.add(reward)) {
        Ok(()) => {},
        Err(e) => return Err(e),
    }
    if ledger.unique_delegations == 1 {
        ledger.operator = ledger.operator.add(ledger.delegates);
        ledger.delegates = Decimal::zero();
    }
    Ok(reward.to_uint_floor())
}

/// The node has a ledger that is still bonded, at index `i`.
pub open spec fn bonded_ledger_at(s: MixnetStorage, mix_id: NodeId, i: int) -> bool {
    &&& 0 <= i < s.rewarding.len()
    &&& s.rewarding@[i].0 == mix_id
    &&& s.rewarding@[i].1.operator@ != 0
}

/// A ledger after a fresh delegation of `amount` whole tokens joins the pool.
pub open spec fn ledger_with_new_delegation(l: MixNodeRewarding, amount: int) -> MixNodeRewarding {
    MixNodeRewarding {
        unique_delegations: (l.unique_delegations + 1) as u32,
        ..l.with_balances(l.operator@, l.delegates@ + amount * DECIMAL_FRACTIONAL)
    }
}

/// What executing a delegation of `amount` to `mix_id` does to the storage.
///
/// No bonded ledger: nothing happens and the event succeeds (the node left after the event
/// was queued). A first delegation joins the pool and gets a record at the current index.
/// A repeated one first takes the old principal and reward out of the pool, then delegates
/// the old principal, the reward truncated to whole tokens, and the new amount together.
/// Any failure leaves storage as it was. A node whose bond is marked as unbonding still takes
/// delegations until its unbonding executes: only a missing or emptied ledger turns them away.
pub open spec fn delegate_post(
    pre: MixnetStorage,
    post: MixnetStorage,
    owner: String,
    mix_id: NodeId,
    amount: Coin,
    proxy: Option<String>,
    height: u64,
    r: Result<(), MixnetContractError>,
) -> bool {
    &&& r is Err ==> post@ == pre@
    &&& (forall|i: int| !bonded_ledger_at(pre, mix_id, i)) ==> r is Ok && post@ == pre@
    &&& forall|i: int|
        #![trigger pre.rewarding@[i]]
        bonded_ledger_at(pre, mix_id, i) && (forall|k: int|
            0 <= k < pre.delegations.len() ==> !pre.delegations@[k].has_key(
                mix_id,
                owner@,
                opt_view(proxy),
            )) ==> {
            let l = pre.rewarding@[i].1;
            &&& r is Ok <==> l.unique_delegations < u32::MAX && l.operator@ + l.delegates@
                + amount.amount * DECIMAL_FRACTIONAL <= u128::MAX
            &&& r is Ok ==> {
                &&& post.rewarding@ == pre.rewarding@.update(
                    i,
                    (mix_id, ledger_with_new_delegation(l, amount.amount as int)),
                )
                &&& post.delegations@ == pre.delegations@.push(
                    Delegation {
                        owner,
                        node_id: mix_id,
                        cumulative_reward_ratio: l.total_unit_reward,
                        amount,
                        height,
                        proxy,
                    },
                )
                &&& post.bonds@ == pre.bonds@
            }
        }
    &&& forall|i: int, k: int|
        #![trigger pre.rewarding@[i], pre.delegations@[k]]
        bonded_ledger_at(pre, mix_id, i) && 0 <= k < pre.delegations.len()
            && pre.delegations@[k].has_key(mix_id, owner@, opt_view(proxy)) ==> {
            let l = pre.rewarding@[i].1;
            let d = pre.delegations@[k];
            let reward = l.delegation_reward_spec(d);
            let principal = d.amount.amount * DECIMAL_FRACTIONAL;
            let total = d.amount.amount + amount.amount + reward / (DECIMAL_FRACTIONAL as int);
            let l1 = ledger_without(l, principal, reward);
            &&& r is Ok <==> l.delegation_reward_defined(d) && principal + reward <= l.delegates@
                && l.operator@ + l.delegates@ - principal - reward + total * DECIMAL_FRACTIONAL
                <= u128::MAX
            &&& r is Ok ==> {
                &&& post.rewarding@ == pre.rewarding@.update(
                    i,
                    (mix_id, l1.with_balances(l1.operator@, l1.delegates@ + total * DECIMAL_FRACTIONAL)),
                )
                &&& post.delegations@ == pre.delegations@.update(
                    k,
                    Delegation {
                        owner,
                        node_id: mix_id,
                        cumulative_reward_ratio: l.total_unit_reward,
                        amount: Coin { denom: amount.denom, amount: total as u128 },
                        height,
                        proxy,
                    },
                )
                &&& post.bonds@ == pre.bonds@
            }
            &&& l.delegation_reward_defined(d) && principal + reward <= u128::MAX && principal
                + reward > l.delegates@ ==> r is Err && r->Err_0 is OverflowDecimalSubtraction
        }
}

impl MixnetStorage {
    /// Executes a queued delegation (see `delegate_post`).
    pub fn delegate(
        &mut self,
        owner: String,
        mix_id: NodeId,
        amount: Coin,
        proxy: Option<String>,
        height: u64,
    ) -> (r: Result<(), MixnetContractError>)
        requires
            old(self).wf(),
        ensures
            final(self).wf(),
            delegate_post(*old(self), *final(self), owner, mix_id, amount, proxy, height, r),
    {
        let i = match self.find_rewarding(mix_id) {
            Some(i) => i,
            None => return Ok(()),
        };
        if !self.rewarding[i].1.still_bonded() {
            return Ok(());
        }
        assert(forall|j: int| bonded_ledger_at(*self, mix_id, j) ==> j == i as int);
        assert(bonded_ledger_at(*self, mix_id, i as int));
        match self.find_delegation(mix_id, &owner, &proxy) {
            None => {
                let l = &self.rewarding[i].1;
                proof {
                    if amount.amount > u128::MAX / DECIMAL_FRACTIONAL {
                        assert(amount.amount * DECIMAL_FRACTIONAL > u128::MAX) by (nonlinear_arith)
                            requires
                                amount.amount > u128::MAX / DECIMAL_FRACTIONAL,
                        ;
                    }
                }
                if l.unique_delegations == u32::MAX || amount.amount > u128::MAX / DECIMAL_FRACTIONAL
                    || l.operator.atomics + l.delegates.atomics > u128::MAX - amount.amount
                    * DECIMAL_FRACTIONAL {
                    assert(!(l.unique_delegations < u32::MAX && l.operator@ + l.delegates@
                        + amount.amount * DECIMAL_FRACTIONAL <= u128::MAX));
                    return Err(inconsistent("delegation is out of range"));
                }
                let (id, mut ledger) = self.rewarding.remove(i);
                ledger.add_base_delegation(amount.amount);
                ledger.unique_delegations = ledger.unique_delegations + 1;
                let ratio = ledger.total_unit_reward;
                let ghost new_ledger = ledger;
                self.rewarding.insert(i, (id, ledger));
                assert(self.rewarding@ =~= old(self).rewarding@.update(i as int, (mix_id, new_ledger)));
                let delegation = Delegation::new(owner, mix_id, ratio, amount, height, proxy);
                self.delegations.push(delegation);
                Ok(())
            },
            Some(k) => {
                assert forall|j: int|
                    0 <= j < self.delegations.len() && self.delegations@[j].has_key(
                        mix_id,
                        owner@,
                        opt_view(proxy),
                    ) implies j == k as int by {
                    if j != k as int {
                        assert(same_key(self.delegations@[j], self.delegations@[k as int]));
                    }
                }
                let reward = match self.rewarding[i].1.try_delegation_reward(&self.delegations[k]) {
                    Some(v) => v,
                    None => return Err(inconsistent("delegation reward is out of range")),
                };
                let principal = self.delegations[k].dec_amount();
                if principal.atomics > u128::MAX - reward.atomics {
                    return Err(inconsistent("delegation principal and reward are out of range"));
                }
                let owed = principal.add(reward);
                let pool = self.rewarding[i].1.delegates;
                if owed.gt(&pool) {
                    return Err(
                        MixnetContractError::OverflowDecimalSubtraction {
                            minuend: pool,
                            subtrahend: owed,
                        },
                    );
                }
                let truncated = reward.to_uint_floor();
                let previous = self.delegations[k].amount.amount;
                let rest = self.rewarding[i].1.operator.atomics + pool.atomics - owed.atomics;
                if amount.amount > u128::MAX / DECIMAL_FRACTIONAL - truncated - previous || rest
                    > u128::MAX - (previous + amount.amount + truncated) * DECIMAL_FRACTIONAL {
                    return Err(inconsistent("delegation is out of range"));
                }
                let total = previous + amount.amount + truncated;
                let (id, mut ledger) = self.rewarding.remove(i);
                let withdrawn = withdraw_principal_and_reward(&mut ledger, &self.delegations[k]);
                ledger.add_base_delegation(total);
                let ratio = ledger.total_unit_reward;
                let ghost new_ledger = ledger;
                self.rewarding.insert(i, (id, ledger));
                assert(self.rewarding@ =~= old(self).rewarding@.update(i as int, (mix_id, new_ledger)));
                let delegation = Delegation::new(
                    owner,
                    mix_id,
                    ratio,
                    Coin { denom: amount.denom, amount: total },
                    height,
                    proxy,
                );
                let ghost new_record = delegation;
                self.delegations.remove(k);
                self.delegations.insert(k, delegation);
                assert(self.delegations@ =~= old(self).delegations@.update(k as int, new_record));
                Ok(())
            },
        }
    }
}

/// A ledger after one delegation left: its principal and reward are out of the pool and the
/// count of delegations is one less.
pub open spec fn ledger_after_undelegation(l: MixNodeRewarding, principal: int, reward: int) -> MixNodeRewarding {
    MixNodeRewarding {
        unique_delegations: (l.unique_delegations - 1) as u32,
        ..ledger_without(l, principal, reward)
    }
}

/// What executing an undelegation does to the storage.
///
/// No such delegation: nothing happens and the event succeeds. A delegation whose node has no
/// ledger is an inconsistent state. Otherwise the record goes, its principal and reward leave
/// the pool and are paid, truncated, to the proxy or the owner; the ledger goes too once its
/// node has unbonded and this was its last delegation. Any failure leaves storage as it was.
pub open spec fn undelegate_post(
    pre: MixnetStorage,
    post: MixnetStorage,
    owner: String,
    mix_id: NodeId,
    proxy: Option<String>,
    r: Result<Option<Payout>, MixnetContractError>,
) -> bool {
    &&& r is Err ==> post@ == pre@
    &&& (forall|k: int|
        0 <= k < pre.delegations.len() ==> !pre.delegations@[k].has_key(
            mix_id,
            owner@,
            opt_view(proxy),
        )) ==> r == Ok::<Option<Payout>, MixnetContractError>(None) && post@ == pre@
    &&& forall|k: int|
        #![trigger pre.delegations@[k]]
        0 <= k < pre.delegations.len() && pre.delegations@[k].has_key(mix_id, owner@, opt_view(proxy))
            && (forall|i: int| 0 <= i < pre.rewarding.len() ==> pre.rewarding@[i].0 != mix_id)
            ==> r is Err && r->Err_0 is InconsistentState
    &&& forall|i: int, k: int|
        #![trigger pre.rewarding@[i], pre.delegations@[k]]
        0 <= i < pre.rewarding.len() && pre.rewarding@[i].0 == mix_id && 0 <= k
            < pre.delegations.len() && pre.delegations@[k].has_key(mix_id, owner@, opt_view(proxy))
            ==> {
            let l = pre.rewarding@[i].1;
            let d = pre.delegations@[k];
            let reward = l.delegation_reward_spec(d);
            let principal = d.amount.amount * DECIMAL_FRACTIONAL;
            &&& r is Ok <==> l.delegation_reward_defined(d) && principal + reward <= l.delegates@
                && l.unique_delegations >= 1
            &&& r is Ok ==> {
                &&& r == Ok::<Option<Payout>, MixnetContractError>(
                    Some(
                        Payout {
                            recipient: proxy_or_owner(owner, proxy),
                            amount: Coin {
                                denom: d.amount.denom,
                                amount: (d.amount.amount + reward / (DECIMAL_FRACTIONAL as int)) as u128,
                            },
                        },
                    ),
                )
                &&& post.delegations@ == pre.delegations@.remove(k)
                &&& post.rewarding@ == if l.operator@ == 0 && l.unique_delegations == 1 {
                    pre.rewarding@.remove(i)
                } else {
                    pre.rewarding@.update(i, (mix_id, ledger_after_undelegation(l, principal, reward)))
                }
                &&& post.bonds@ == pre.bonds@
            }
            &&& l.unique_delegations >= 1 && l.delegation_reward_defined(d) && principal + reward
                <= u128::MAX && principal + reward > l.delegates@ ==> r is Err && r->Err_0
                is OverflowDecimalSubtraction
        }
}

/// What executing an unbonding does to the storage.
///
/// The node's bond and ledger must exist and the bond must be marked as unbonding: anything
/// else is an inconsistent state, and storage stays as it was. The operator's pledge and
/// reward are paid, truncated, to the proxy or the owner; the bond goes; the ledger goes when
/// no delegation is left, else it stays with nothing for the operator.
pub open spec fn unbond_post(
    pre: MixnetStorage,
    post: MixnetStorage,
    mix_id: NodeId,
    r: Result<Option<Payout>, MixnetContractError>,
) -> bool {
    &&& r is Err ==> post@ == pre@ && r->Err_0 is InconsistentState
    &&& (forall|j: int| 0 <= j < pre.bonds.len() ==> pre.bonds@[j].id != mix_id) ==> r is Err
    &&& (forall|i: int| 0 <= i < pre.rewarding.len() ==> pre.rewarding@[i].0 != mix_id) ==> r is Err
    &&& forall|i: int, j: int|
        #![trigger pre.rewarding@[i], pre.bonds@[j]]
        0 <= i < pre.rewarding.len() && pre.rewarding@[i].0 == mix_id && 0 <= j < pre.bonds.len()
            && pre.bonds@[j].id == mix_id ==> {
            let l = pre.rewarding@[i].1;
            let b = pre.bonds@[j];
            &&& r is Ok <==> b.is_unbonding
            &&& r is Ok ==> {
                &&& r == Ok::<Option<Payout>, MixnetContractError>(
                    Some(
                        Payout {
                            recipient: proxy_or_owner(b.owner, b.proxy),
                            amount: Coin {
                                denom: b.original_pledge.denom,
                                amount: (l.operator@ / (DECIMAL_FRACTIONAL as int)) as u128,
                            },
                        },
                    ),
                )
                &&& post.bonds@ == pre.bonds@.remove(j)
                &&& post.rewarding@ == if l.unique_delegations == 0 {
                    pre.rewarding@.remove(i)
                } else {
                    pre.rewarding@.update(i, (mix_id, l.with_balances(0, l.delegates@)))
                }
                &&& post.delegations@ == pre.delegations@
            }
        }
}

/// What executing a change of cost parameters does: the node's ledger, if it still has one,
/// takes the new costs; without a ledger nothing happens. It always succeeds.
pub open spec fn change_cost_params_post(
    pre: MixnetStorage,
    post: MixnetStorage,
    mix_id: NodeId,
    new_costs: MixNodeCostParams,
    r: Result<(), MixnetContractError>,
) -> bool {
    &&& r is Ok
    &&& (forall|i: int| 0 <= i < pre.rewarding.len() ==> pre.rewarding@[i].0 != mix_id) ==> post@ == pre@
    &&& forall|i: int|
        #![trigger pre.rewarding@[i]]
        0 <= i < pre.rewarding.len() && pre.rewarding@[i].0 == mix_id ==> {
            &&& post.rewarding@ == pre.rewarding@.update(
                i,
                (mix_id, MixNodeRewarding { cost_params: new_costs, ..pre.rewarding@[i].1 }),
            )
            &&& post.bonds@ == pre.bonds@
            &&& post.delegations@ == pre.delegations@
        }
}

impl MixnetStorage {
    /// Executes a queued undelegation (see `undelegate_post`).
    pub fn undelegate(&mut self, owner: String, mix_id: NodeId, proxy: Option<String>) -> (r: Result<Option<Payout>, MixnetContractError>)
        requires
            old(self).wf(),
        ensures
            final(self).wf(),
            undelegate_post(*old(self), *final(self), owner, mix_id, proxy, r),
    {
        let k = match self.find_delegation(mix_id, &owner, &proxy) {
            Some(k) => k,
            None => return Ok(None),
        };
        assert forall|j: int|
            0 <= j < self.delegations.len() && self.delegations@[j].has_key(
                mix_id,
                owner@,
                opt_view(proxy),
            ) implies j == k as int by {
            if j != k as int {
                assert(same_key(self.delegations@[j], self.delegations@[k as int]));
            }
        }
        let i = match self.find_rewarding(mix_id) {
            Some(i) => i,
            None => return Err(inconsistent("delegation refers to a node without a ledger")),
        };
        assert(forall|j: int|
            0 <= j < self.rewarding.len() && self.rewarding@[j].0 == mix_id ==> j == i as int);
        if self.rewarding[i].1.unique_delegations == 0 {
            return Err(inconsistent("delegation on a node that counts none"));
        }
        let was_bonded = self.rewarding[i].1.still_bonded();
        let (id, mut ledger) = self.rewarding.remove(i);
        let truncated = match withdraw_principal_and_reward(&mut ledger, &self.delegations[k]) {
            Ok(t) => t,
            Err(e) => {
                self.rewarding.insert(i, (id, ledger));
                assert(self.rewarding@ =~= old(self).rewarding@);
                return Err(e);
            },
        };
        ledger.unique_delegations = ledger.unique_delegations - 1;
        if !was_bonded && ledger.unique_delegations == 0 {
            proof {
                assert forall|a: int, b: int|
                    0 <= a < self.rewarding.len() && 0 <= b < self.rewarding.len() && a != b
                        implies self.rewarding@[a].0 != self.rewarding@[b].0 by {
                    let a0 = if a < i { a } else { a + 1 };
                    let b0 = if b < i { b } else { b + 1 };
                    assert(self.rewarding@[a] == old(self).rewarding@[a0]);
                    assert(self.rewarding@[b] == old(self).rewarding@[b0]);
                }
                assert forall|a: int| 0 <= a < self.rewarding.len() implies (
                #[trigger] self.rewarding@[a]).1.wf() by {
                    let a0 = if a < i { a } else { a + 1 };
                    assert(self.rewarding@[a] == old(self).rewarding@[a0]);
                }
            }
        } else {
            let ghost new_ledger = ledger;
            self.rewarding.insert(i, (id, ledger));
            assert(self.rewarding@ =~= old(self).rewarding@.update(i as int, (mix_id, new_ledger)));
        }
        let record = self.delegations.remove(k);
        proof {
            assert forall|a: int, b: int|
                0 <= a < self.delegations.len() && 0 <= b < self.delegations.len() && a != b
                    implies !same_key(self.delegations@[a], self.delegations@[b]) by {
                let a0 = if a < k { a } else { a + 1 };
                let b0 = if b < k { b } else { b + 1 };
                assert(self.delegations@[a] == old(self).delegations@[a0]);
                assert(self.delegations@[b] == old(self).delegations@[b0]);
            }
        }
        let principal = record.amount.amount;
        let payout = Coin { denom: record.amount.denom, amount: principal + truncated };
        Ok(Some(send_to_proxy_or_owner(owner, proxy, payout)))
    }

    /// Executes a queued unbonding (see `unbond_post`).
    pub fn unbond_mixnode(&mut self, mix_id: NodeId) -> (r: Result<Option<Payout>, MixnetContractError>)
        requires
            old(self).wf(),
        ensures
            final(self).wf(),
            unbond_post(*old(self), *final(self), mix_id, r),
    {
        let j = match self.find_bond(mix_id) {
            Some(j) => j,
            None => return Err(inconsistent("node getting unbonded does not exist")),
        };
        let i = match self.find_rewarding(mix_id) {
            Some(i) => i,
            None => return Err(inconsistent("node getting unbonded has no ledger")),
        };
        assert(forall|a: int|
            0 <= a < self.rewarding.len() && self.rewarding@[a].0 == mix_id ==> a == i as int);
        assert(forall|a: int| 0 <= a < self.bonds.len() && self.bonds@[a].id == mix_id ==> a == j as int);
        if !self.bonds[j].is_unbonding {
            return Err(inconsistent("node getting unbonded is not marked as unbonding"));
        }
        let bond = self.bonds.remove(j);
        proof {
            assert forall|a: int, b: int|
                0 <= a < self.bonds.len() && 0 <= b < self.bonds.len() && a != b
                    implies self.bonds@[a].id != self.bonds@[b].id by {
                let a0 = if a < j { a } else { a + 1 };
                let b0 = if b < j { b } else { b + 1 };
                assert(self.bonds@[a] == old(self).bonds@[a0]);
                assert(self.bonds@[b] == old(self).bonds@[b0]);
            }
        }
        let (id, mut ledger) = self.rewarding.remove(i);
        let tokens = ledger.operator_pledge_with_reward(bond.original_pledge.denom);
        if ledger.unique_delegations == 0 {
            proof {
                assert forall|a: int, b: int|
                    0 <= a < self.rewarding.len() && 0 <= b < self.rewarding.len() && a != b
                        implies self.rewarding@[a].0 != self.rewarding@[b].0 by {
                    let a0 = if a < i { a } else { a + 1 };
                    let b0 = if b < i { b } else { b + 1 };
                    assert(self.rewarding@[a] == old(self).rewarding@[a0]);
                    assert(self.rewarding@[b] == old(self).rewarding@[b0]);
                }
                assert forall|a: int| 0 <= a < self.rewarding.len() implies (
                #[trigger] self.rewarding@[a]).1.wf() by {
                    let a0 = if a < i { a } else { a + 1 };
                    assert(self.rewarding@[a] == old(self).rewarding@[a0]);
                }
            }
        } else {
            ledger.operator = Decimal::zero();
            let ghost new_ledger = ledger;
            self.rewarding.insert(i, (id, ledger));
            assert(self.rewarding@ =~= old(self).rewarding@.update(i as int, (mix_id, new_ledger)));
        }
        Ok(Some(send_to_proxy_or_owner(bond.owner, bond.proxy, tokens)))
    }

    /// Executes a queued change of cost parameters (see `change_cost_params_post`).
    pub fn change_cost_params(&mut self, mix_id: NodeId, new_costs: MixNodeCostParams) -> (r: Result<(), MixnetContractError>)
        requires
            old(self).wf(),
        ensures
            final(self).wf(),
            change_cost_params_post(*old(self), *final(self), mix_id, new_costs, r),
    {
        let i = match self.find_rewarding(mix_id) {
            Some(i) => i,
            None => return Ok(()),
        };
        assert(forall|a: int|
            0 <= a < self.rewarding.len() && self.rewarding@[a].0 == mix_id ==> a == i as int);
        let (id, mut ledger) = self.rewarding.remove(i);
        ledger.cost_params = new_costs;
        let ghost new_ledger = ledger;
        self.rewarding.insert(i, (id, ledger));
        assert(self.rewarding@ =~= old(self).rewarding@.update(i as int, (mix_id, new_ledger)));
        Ok(())
    }
}

/// What one guarded reward pass does to the storage.
///
/// The node must have a ledger that is still bonded and was last rewarded before this epoch;
/// otherwise the pass is refused and storage stays as it was. A refused pass for an epoch
/// already rewarded reports `MixnodeAlreadyRewarded`. Else the ledger takes the epoch's
/// reward as `epoch_rewarding` credits it, and the split is returned.
pub open spec fn reward_post(
    pre: MixnetStorage,
    post: MixnetStorage,
    mix_id: NodeId,
    params: RewardingParams,
    node: NodeRewardParams,
    epochs_in_interval: u32,
    absolute_epoch_id: u32,
    r: Result<RewardDistribution, MixnetContractError>,
) -> bool {
    &&& r is Err ==> post@ == pre@
    &&& (forall|i: int| 0 <= i < pre.rewarding.len() ==> pre.rewarding@[i].0 != mix_id) ==> r
        == Err::<RewardDistribution, MixnetContractError>(
        MixnetContractError::MixNodeBondNotFound { id: mix_id },
    )
    &&& forall|i: int|
        #![trigger pre.rewarding@[i]]
        0 <= i < pre.rewarding.len() && pre.rewarding@[i].0 == mix_id ==> {
            let l = pre.rewarding@[i].1;
            let (op, del) = l.epoch_reward_spec(params, node, epochs_in_interval);
            &&& l.operator@ == 0 ==> r == Err::<RewardDistribution, MixnetContractError>(
                MixnetContractError::MixnodeHasUnbonded { node_id: mix_id },
            )
            &&& l.operator@ != 0 && l.last_rewarded_epoch >= absolute_epoch_id ==> r == Err::<
                RewardDistribution,
                MixnetContractError,
            >(MixnetContractError::MixnodeAlreadyRewarded { node_id: mix_id, absolute_epoch_id })
            &&& r is Ok <==> l.operator@ != 0 && l.last_rewarded_epoch < absolute_epoch_id
                && l.cost_params.epoch_cost(epochs_in_interval) <= u128::MAX
                && l.can_distribute_spec(op, del)
            &&& r matches Ok(d) ==> {
                &&& d.operator@ == op
                &&& d.delegates@ == del
                &&& post.rewarding@ == pre.rewarding@.update(
                    i,
                    (
                        mix_id,
                        MixNodeRewarding {
                            total_unit_reward: Decimal {
                                atomics: (l.total_unit_reward@ + l.unit_reward_spec(del)) as u128,
                            },
                            last_rewarded_epoch: absolute_epoch_id,
                            ..l.with_balances(l.operator@ + op, l.delegates@ + del)
                        },
                    ),
                )
                &&& post.bonds@ == pre.bonds@
                &&& post.delegations@ == pre.delegations@
            }
        }
}

impl MixnetStorage {
    /// Rewards node `mix_id` for epoch `absolute_epoch_id`, at most once (see `reward_post`).
    pub fn reward_mixnode(
        &mut self,
        mix_id: NodeId,
        reward_params: &RewardingParams,
        node_params: NodeRewardParams,
        epochs_in_interval: u32,
        absolute_epoch_id: u32,
    ) -> (r: Result<RewardDistribution, MixnetContractError>)
        requires
            old(self).wf(),
            reward_params.wf(),
            epochs_in_interval > 0,
        ensures
            final(self).wf(),
            reward_post(
                *old(self),
                *final(self),
                mix_id,
                *reward_params,
                node_params,
                epochs_in_interval,
                absolute_epoch_id,
                r,
            ),
    {
        let i = match self.find_rewarding(mix_id) {
            Some(i) => i,
            None => return Err(MixnetContractError::MixNodeBondNotFound { id: mix_id }),
        };
        assert(forall|a: int|
            0 <= a < self.rewarding.len() && self.rewarding@[a].0 == mix_id ==> a == i as int);
        let l = &self.rewarding[i].1;
        if !l.still_bonded() {
            return Err(MixnetContractError::MixnodeHasUnbonded { node_id: mix_id });
        }
        if l.last_rewarded_epoch >= absolute_epoch_id {
            return Err(MixnetContractError::MixnodeAlreadyRewarded { node_id: mix_id, absolute_epoch_id });
        }
        let cost = Decimal::raw(l.cost_params.interval_operating_cost.amount);
        if checked_div(cost, Decimal::raw(epochs_in_interval as u128)).is_none() {
            return Err(inconsistent("operating cost is out of range"));
        }
        let distribution = l.calculate_epoch_reward(reward_params, node_params, epochs_in_interval);
        if !l.can_distribute(&distribution) {
            return Err(inconsistent("reward is out of range"));
        }
        let (id, mut ledger) = self.rewarding.remove(i);
        ledger.distribute_rewards(distribution, absolute_epoch_id);
        let ghost new_ledger = ledger;
        self.rewarding.insert(i, (id, ledger));
        assert(self.rewarding@ =~= old(self).rewarding@.update(i as int, (mix_id, new_ledger)));
        Ok(distribution)
    }
}

/// An action on a node's stake, queued until the epoch ends.
#[derive(Clone, Debug, PartialEq)]
pub enum PendingEpochEvent {
    Delegate { owner: String, mix_id: NodeId, amount: Coin, proxy: Option<String> },
    Undelegate { owner: String, mix_id: NodeId, proxy: Option<String> },
    UnbondMixnode { mix_id: NodeId },
}

/// An action on a node's costs, queued until the interval ends.
#[derive(Clone, Debug, PartialEq)]
pub enum PendingIntervalEvent {
    ChangeMixCostParams { mix: NodeId, new_costs: MixNodeCostParams },
}

/// What executing `event` does to the storage: any failure leaves it as it was, and each
/// kind of event acts as its own description says.
pub open spec fn epoch_event_post(
    event: PendingEpochEvent,
    pre: MixnetStorage,
    post: MixnetStorage,
    block_height: u64,
    r: Result<Option<Payout>, MixnetContractError>,
) -> bool {
    &&& r is Err ==> post@ == pre@
    &&& match event {
        PendingEpochEvent::Delegate { owner, mix_id, amount, proxy } => {
            &&& r matches Ok(p) ==> p is None
            &&& delegate_post(
                pre,
                post,
                owner,
                mix_id,
                amount,
                proxy,
                block_height,
                match r {
                    Ok(_) => Ok(()),
                    Err(e) => Err(e),
                },
            )
        },
        PendingEpochEvent::Undelegate { owner, mix_id, proxy } => undelegate_post(
            pre,
            post,
            owner,
            mix_id,
            proxy,
            r,
        ),
        PendingEpochEvent::UnbondMixnode { mix_id } => unbond_post(pre, post, mix_id, r),
    }
}

impl PendingEpochEvent {
    /// Executes the event against `storage`. An error is a hard failure that aborts the whole
    /// transition; an event that no longer applies succeeds without effect. What leaves the
    /// ledger comes back as a payout.
    pub fn execute(self, storage: &mut MixnetStorage, block_height: u64) -> (r: Result<Option<Payout>, MixnetContractError>)
        requires
            old(storage).wf(),
        ensures
            final(storage).wf(),
            epoch_event_post(self, *old(storage), *final(storage), block_height, r),
    {
        match self {
            PendingEpochEvent::Delegate { owner, mix_id, amount, proxy } => {
                match storage.delegate(owner, mix_id, amount, proxy, block_height) {
                    Ok(()) => Ok(None),
                    Err(e) => Err(e),
                }
            },
            PendingEpochEvent::Undelegate { owner, mix_id, proxy } => storage.undelegate(
                owner,
                mix_id,
                proxy,
            ),
            PendingEpochEvent::UnbondMixnode { mix_id } => storage.unbond_mixnode(mix_id),
        }
    }
}

impl PendingIntervalEvent {
    /// Executes the event against `storage`; a node that is gone makes it a no-op.
    pub fn execute(self, storage: &mut MixnetStorage) -> (r: Result<(), MixnetContractError>)
        requires
            old(storage).wf(),
        ensures
            final(storage).wf(),
            match self {
                PendingIntervalEvent::ChangeMixCostParams { mix, new_costs } => change_cost_params_post(
                    *old(storage),
                    *final(storage),
                    mix,
                    new_costs,
                    r,
                ),
            },
    {
        match self {
            PendingIntervalEvent::ChangeMixCostParams { mix, new_costs } => storage.change_cost_params(
                mix,
                new_costs,
            ),
        }
    }
}

/// Withdrawing a pool's only delegation leaves the pool exactly empty: the decimal dust that
/// remained in it goes to the operator, and the ledger counts no delegation.
pub proof fn lemma_dust_sweep(l: MixNodeRewarding, principal: int, reward: int)
    requires
        l.wf(),
        l.unique_delegations == 1,
        0 <= principal,
        0 <= reward,
        principal + reward <= l.delegates@,
    ensures
        ledger_after_undelegation(l, principal, reward).delegates@ == 0,
        ledger_after_undelegation(l, principal, reward).operator@ == l.operator@ + l.delegates@
            - principal - reward,
        ledger_after_undelegation(l, principal, reward).unique_delegations == 0,
{
}

/// A delegation's reward reads only the node's reward index and its own record: paying out
/// another delegation's reward (`withdraw_delegator_reward`) and then adding a new delegation
/// to the pool leave it unchanged.
pub proof fn lemma_accrual_independent(l: MixNodeRewarding, a: Delegation, b: Delegation, c_amount: u128)
    requires
        l.delegation_reward_spec(a) <= l.delegates@,
    ensures
        ({
            let after_a = l.with_balances(l.operator@, l.delegates@ - l.delegation_reward_spec(a));
            let after_c = ledger_with_new_delegation(after_a, c_amount as int);
            after_c.delegation_reward_spec(b) == l.delegation_reward_spec(b)
                && after_c.delegation_reward_defined(b) == l.delegation_reward_defined(b)
        }),
{
}

/// A node is rewarded at most once per epoch: after a successful pass for an epoch, another
/// pass for the same epoch is refused with `MixnodeAlreadyRewarded` and changes nothing.
pub proof fn lemma_no_double_reward(
    s0: MixnetStorage,
    s1: MixnetStorage,
    s2: MixnetStorage,
    mix_id: NodeId,
    params: RewardingParams,
    node: NodeRewardParams,
    epochs_in_interval: u32,
    params2: RewardingParams,
    node2: NodeRewardParams,
    epochs_in_interval2: u32,
    absolute_epoch_id: u32,
    r1: Result<RewardDistribution, MixnetContractError>,
    r2: Result<RewardDistribution, MixnetContractError>,
)
    requires
        s0.wf(),
        reward_post(s0, s1, mix_id, params, node, epochs_in_interval, absolute_epoch_id, r1),
        r1 is Ok,
        reward_post(s1, s2, mix_id, params2, node2, epochs_in_interval2, absolute_epoch_id, r2),
    ensures
        r2 == Err::<RewardDistribution, MixnetContractError>(
            MixnetContractError::MixnodeAlreadyRewarded { node_id: mix_id, absolute_epoch_id },
        ),
        s2@ == s1@,
{
    let i = choose|i: int| 0 <= i < s0.rewarding.len() && s0.rewarding@[i].0 == mix_id;
    assert(s0.rewarding@[i].0 == mix_id);
    assert(s1.rewarding@[i].0 == mix_id);
    assert(s1.rewarding@[i].1.last_rewarded_epoch == absolute_epoch_id);
    assert(s1.rewarding@[i].1.operator@ != 0);
}

/// Delegating, rewarding and undelegating round-trips. With `i0` the reward index when the
/// delegation of `x` whole tokens was made and `i1` the index at undelegation, the payout is
/// `x` plus `(i1 - i0) * x / (i0 + baseline)` truncated to whole tokens; when other delegations
/// remain, the pool loses exactly the untruncated amount.
pub proof fn lemma_round_trip(
    s0: MixnetStorage,
    s1: MixnetStorage,
    s2: MixnetStorage,
    s3: MixnetStorage,
    owner: String,
    mix_id: NodeId,
    amount: Coin,
    proxy: Option<String>,
    height: u64,
    params: RewardingParams,
    node: NodeRewardParams,
    epochs_in_interval: u32,
    absolute_epoch_id: u32,
    r2: Result<RewardDistribution, MixnetContractError>,
    r3: Result<Option<Payout>, MixnetContractError>,
    i: int,
)
    requires
        s0.wf(),
        bonded_ledger_at(s0, mix_id, i),
        forall|k: int|
            0 <= k < s0.delegations.len() ==> !s0.delegations@[k].has_key(
                mix_id,
                owner@,
                opt_view(proxy),
            ),
        delegate_post(s0, s1, owner, mix_id, amount, proxy, height, Ok(())),
        s1.wf(),
        reward_post(s1, s2, mix_id, params, node, epochs_in_interval, absolute_epoch_id, r2),
        r2 is Ok,
        s2.wf(),
        undelegate_post(s2, s3, owner, mix_id, proxy, r3),
        r3 is Ok,
    ensures
        ({
            let x = amount.amount as int;
            let f = DECIMAL_FRACTIONAL as int;
            let i0 = s0.rewarding@[i].1.total_unit_reward@;
            let i1 = s2.rewarding@[i].1.total_unit_reward@;
            let untruncated = (i1 - i0) * x * f / (i0 + UNIT_DELEGATION_BASE);
            &&& r3 == Ok::<Option<Payout>, MixnetContractError>(
                Some(
                    Payout {
                        recipient: proxy_or_owner(owner, proxy),
                        amount: Coin { denom: amount.denom, amount: (x + untruncated / f) as u128 },
                    },
                ),
            )
            &&& s2.rewarding@[i].1.unique_delegations > 1 ==> s3.rewarding@[i].1.delegates@
                == s2.rewarding@[i].1.delegates@ - (x * f + untruncated)
        }),
{
    let k = s0.delegations.len() as int;
    let l0 = s0.rewarding@[i].1;
    assert(s1.delegations@[k] == Delegation {
        owner,
        node_id: mix_id,
        cumulative_reward_ratio: l0.total_unit_reward,
        amount,
        height,
        proxy,
    });
    assert(s1.rewarding@[i].0 == mix_id);
    assert(s2.rewarding@[i].0 == mix_id);
    assert(s2.delegations@[k] == s1.delegations@[k]);
    assert(s2.delegations@[k].has_key(mix_id, owner@, opt_view(proxy)));
    let l2 = s2.rewarding@[i].1;
    let d = s2.delegations@[k];
    let x = amount.amount as int;
    let f = DECIMAL_FRACTIONAL as int;
    let i0 = l0.total_unit_reward@;
    let i1 = l2.total_unit_reward@;
    assert(mul_floor(i1 - i0, x * f) == (i1 - i0) * x) by {
        assert((i1 - i0) * (x * f) == ((i1 - i0) * x) * f) by (nonlinear_arith);
        lemma_div_multiples_vanish((i1 - i0) * x, f);
        assert(f * ((i1 - i0) * x) == ((i1 - i0) * x) * f) by (nonlinear_arith);
    }
    assert(l2.delegation_reward_spec(d) == (i1 - i0) * x * f / (i0 + UNIT_DELEGATION_BASE));
}

fn copy_coin(c: &Coin) -> (r: Coin)
    ensures
        r == *c,
{
    Coin { denom: c.denom.clone(), amount: c.amount }
}

fn copy_optional(s: &Option<String>) -> (r: Option<String>)
    ensures
        r == *s,
{
    match s {
        Some(v) => Some(v.clone()),
        None => None,
    }
}

fn copy_bond(b: &MixNodeBond) -> (r: MixNodeBond)
    ensures
        r == *b,
{
    MixNodeBond {
        id: b.id,
        owner: b.owner.clone(),
        original_pledge: copy_coin(&b.original_pledge),
        layer: b.layer,
        mix_node: MixNode {
            host: b.mix_node.host.clone(),
            mix_port: b.mix_node.mix_port,
            verloc_port: b.mix_node.verloc_port,
            http_api_port: b.mix_node.http_api_port,
            sphinx_key: b.mix_node.sphinx_key.clone(),
            identity_key: b.mix_node.identity_key.clone(),
            version: b.mix_node.version.clone(),
        },
        proxy: copy_optional(&b.proxy),
        bonding_height: b.bonding_height,
        is_unbonding: b.is_unbonding,
    }
}

fn copy_ledger(l: &MixNodeRewarding) -> (r: MixNodeRewarding)
    ensures
        r == *l,
{
    MixNodeRewarding {
        cost_params: MixNodeCostParams {
            profit_margin_percent: l.cost_params.profit_margin_percent,
            interval_operating_cost: copy_coin(&l.cost_params.interval_operating_cost),
        },
        operator: l.operator,
        delegates: l.delegates,
        total_unit_reward: l.total_unit_reward,
        unit_delegation: l.unit_delegation,
        last_rewarded_epoch: l.last_rewarded_epoch,
        unique_delegations: l.unique_delegations,
    }
}

fn copy_delegation(d: &Delegation) -> (r: Delegation)
    ensures
        r == *d,
{
    Delegation {
        owner: d.owner.clone(),
        node_id: d.node_id,
        cumulative_reward_ratio: d.cumulative_reward_ratio,
        amount: copy_coin(&d.amount),
        height: d.height,
        proxy: copy_optional(&d.proxy),
    }
}

/// A copy of every record, kept to restore the storage when a transition aborts.
fn copy_storage(s: &MixnetStorage) -> (r: MixnetStorage)
    ensures
        r@ == s@,
{
    let mut bonds: Vec<MixNodeBond> = Vec::new();
    let mut i: usize = 0;
    while i < s.bonds.len()
        invariant
            i <= s.bonds.len(),
            bonds@ == s.bonds@.subrange(0, i as int),
        decreases s.bonds.len() - i,
    {
        bonds.push(copy_bond(&s.bonds[i]));
        i = i + 1;
    }
    let mut rewarding: Vec<(NodeId, MixNodeRewarding)> = Vec::new();
    let mut i: usize = 0;
    while i < s.rewarding.len()
        invariant
            i <= s.rewarding.len(),
            rewarding@ == s.rewarding@.subrange(0, i as int),
        decreases s.rewarding.len() - i,
    {
        rewarding.push((s.rewarding[i].0, copy_ledger(&s.rewarding[i].1)));
        i = i + 1;
    }
    let mut delegations: Vec<Delegation> = Vec::new();
    let mut i: usize = 0;
    while i < s.delegations.len()
        invariant
            i <= s.delegations.len(),
            delegations@ == s.delegations@.subrange(0, i as int),
        decreases s.delegations.len() - i,
    {
        delegations.push(copy_delegation(&s.delegations[i]));
        i = i + 1;
    }
    assert(bonds@ =~= s.bonds@);
    assert(rewarding@ =~= s.rewarding@);
    assert(delegations@ =~= s.delegations@);
    MixnetStorage { bonds, rewarding, delegations }
}

/// The payouts among the events' results, in order.
pub open spec fn flatten_payouts(results: Seq<Option<Payout>>) -> Seq<Payout>
    decreases results.len(),
{
    if results.len() == 0 {
        Seq::empty()
    } else {
        let init = flatten_payouts(results.drop_last());
        match results.last() {
            Some(p) => init.push(p),
            None => init,
        }
    }
}

/// `states` runs through `events` in order, each step as `epoch_event_post` describes with
/// the matching successful result.
pub open spec fn epoch_run(
    events: Seq<PendingEpochEvent>,
    states: Seq<MixnetStorage>,
    results: Seq<Option<Payout>>,
    block_height: u64,
) -> bool {
    &&& states.len() == events.len() + 1
    &&& results.len() == events.len()
    &&& forall|j: int|
        0 <= j < events.len() ==> #[trigger] epoch_event_post(
            events[j],
            states[j],
            states[j + 1],
            block_height,
            Ok(results[j]),
        )
}

/// Drains the epoch's queue: executes `events` in the order they were queued. A hard failure
/// aborts the whole transition: storage is restored as it was before the first event and the
/// failure is returned. Otherwise every event has taken effect in turn, and what left the
/// ledger is returned in order.
pub fn execute_epoch_events(storage: &mut MixnetStorage, events: Vec<PendingEpochEvent>, block_height: u64) -> (r: Result<Vec<Payout>, MixnetContractError>)
    requires
        old(storage).wf(),
    ensures
        final(storage).wf(),
        r is Err ==> final(storage)@ == old(storage)@,
        r matches Ok(payouts) ==> exists|states: Seq<MixnetStorage>, results: Seq<Option<Payout>>|
            {
                &&& #[trigger] epoch_run(events@, states, results, block_height)
                &&& states[0] == *old(storage)
                &&& states.last() == *final(storage)
                &&& payouts@ == flatten_payouts(results)
            },
        r matches Err(e) ==> exists|states: Seq<MixnetStorage>, results: Seq<Option<Payout>>|
            {
                &&& #[trigger] epoch_run(
                    events@.take(results.len() as int),
                    states.drop_last(),
                    results,
                    block_height,
                )
                &&& results.len() < events@.len()
                &&& states.len() == results.len() + 2
                &&& states[0] == *old(storage)
                &&& epoch_event_post(
                    events@[results.len() as int],
                    states[results.len() as int],
                    states[results.len() + 1 as int],
                    block_height,
                    Err(e),
                )
            },
{
    let ghost pre = *storage;
    let ghost all = events@;
    let backup = copy_storage(storage);
    let mut queue = events;
    let mut payouts: Vec<Payout> = Vec::new();
    let ghost mut states: Seq<MixnetStorage> = seq![*storage];
    let ghost mut results: Seq<Option<Payout>> = Seq::empty();
    let mut j: usize = 0;
    assert(all.len() == queue.len());
    while queue.len() > 0
        invariant
            all.len() <= usize::MAX,
            storage.wf(),
            j <= all.len(),
            queue@ == all.subrange(j as int, all.len() as int),
            all == events@,
            epoch_run(all.take(j as int), states, results, block_height),
            states[0] == pre,
            states.last() == *storage,
            payouts@ == flatten_payouts(results),
            backup@ == pre@,
            pre == *old(storage),
            pre.wf(),
        decreases queue.len(),
    {
        assert(j < all.len());
        let event = queue.remove(0);
        assert(event == all[j as int]);
        match event.execute(storage, block_height) {
            Ok(p) => {
                let ghost prev = results;
                proof {
                    results = results.push(p);
                    states = states.push(*storage);
                    assert(results.drop_last() =~= prev);
                    assert(all.take(j as int + 1) =~= all.take(j as int).push(all[j as int]));
                    assert forall|t: int| 0 <= t < j + 1 implies #[trigger] epoch_event_post(
                        all.take(j as int + 1)[t],
                        states[t],
                        states[t + 1],
                        block_height,
                        Ok(results[t]),
                    ) by {
                        if t < j {
                            assert(epoch_event_post(
                                all.take(j as int)[t],
                                states[t],
                                states[t + 1],
                                block_height,
                                Ok(prev[t]),
                            ));
                        }
                    }
                }
                match p {
                    Some(x) => payouts.push(x),
                    None => {},
                }
            },
            Err(e) => {
                let ghost failed = states.push(*storage);
                proof {
                    assert(failed.drop_last() =~= states);
                    assert(epoch_run(
                        all.take(results.len() as int),
                        failed.drop_last(),
                        results,
                        block_height,
                    ));
                    assert(epoch_event_post(
                        all[results.len() as int],
                        failed[results.len() as int],
                        failed[results.len() + 1 as int],
                        block_height,
                        Err(e),
                    ));
                }
                *storage = backup;
                return Err(e);
            },
        }
        j = j + 1;
    }
    assert(all.take(j as int) =~= all);
    Ok(payouts)
}

/// `states` runs through `events` in order, each step as `change_cost_params_post` describes.
pub open spec fn interval_run(events: Seq<PendingIntervalEvent>, states: Seq<MixnetStorage>) -> bool {
    &&& states.len() == events.len() + 1
    &&& forall|j: int|
        0 <= j < events.len() ==> match #[trigger] events[j] {
            PendingIntervalEvent::ChangeMixCostParams { mix, new_costs } => change_cost_params_post(
                states[j],
                states[j + 1],
                mix,
                new_costs,
                Ok(()),
            ),
        }
}

/// Drains the interval's queue: executes `events` in the order they were queued. None of
/// them can fail, so every one takes effect in turn.
pub fn execute_interval_events(storage: &mut MixnetStorage, events: Vec<PendingIntervalEvent>)
    requires
        old(storage).wf(),
    ensures
        final(storage).wf(),
        exists|states: Seq<MixnetStorage>|
            {
                &&& #[trigger] interval_run(events@, states)
                &&& states[0] == *old(storage)
                &&& states.last() == *final(storage)
            },
{
    let ghost all = events@;
    let mut queue = events;
    let ghost mut states: Seq<MixnetStorage> = seq![*storage];
    let mut j: usize = 0;
    assert(all.len() == queue.len());
    while queue.len() > 0
        invariant
            all.len() <= usize::MAX,
            all == events@,
            storage.wf(),
            j <= all.len(),
            queue@ == all.subrange(j as int, all.len() as int),
            interval_run(all.take(j as int), states),
            states[0] == *old(storage),
            states.last() == *storage,
        decreases queue.len(),
    {
        assert(j < all.len());
        let event = queue.remove(0);
        assert(event == all[j as int]);
        let _ = event.execute(storage);
        let ghost prev = states;
        proof {
            states = states.push(*storage);
            assert(all.take(j as int + 1) =~= all.take(j as int).push(all[j as int]));
            assert forall|t: int| 0 <= t < j + 1 implies match #[trigger] all.take(j as int + 1)[t] {
                PendingIntervalEvent::ChangeMixCostParams { mix, new_costs } => change_cost_params_post(
                    states[t],
                    states[t + 1],
                    mix,
                    new_costs,
                    Ok(()),
                ),
            } by {
                if t < j {
                    assert(all.take(j as int + 1)[t] == all.take(j as int)[t]);
                    assert(states[t] == prev[t] && states[t + 1] == prev[t + 1]);
                }
            }
        }
        j = j + 1;
    }
    assert(all.take(j as int) =~= all);
}

} // verus!
