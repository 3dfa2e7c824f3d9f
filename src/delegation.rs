use crate::decimal::{Decimal, DECIMAL_FRACTIONAL};
use crate::params::{Coin, NodeId};
use vstd::prelude::*;

verus! {

/// The characters of an optional string.
pub open spec fn opt_view(s: Option<String>) -> Option<Seq<char>> {
    match s {
        Some(v) => Some(v@),
        None => None,
    }
}

/// Two records with the same (node, owner, proxy) key.
pub open spec fn same_key(a: Delegation, b: Delegation) -> bool {
    a.has_key(b.node_id, b.owner@, opt_view(b.proxy))
}

/// Stake that `owner` (through `proxy`, if any) placed on node `node_id`, with the
/// node's reward index as it stood when its reward was last realised.
#[derive(Clone, Debug, PartialEq)]
pub struct Delegation {
    pub owner: String,
    pub node_id: NodeId,
    pub cumulative_reward_ratio: Decimal,
    pub amount: Coin,
    pub height: u64,
    pub proxy: Option<String>,
}

impl Delegation {
    pub fn new(
        owner: String,
        node_id: NodeId,
        cumulative_reward_ratio: Decimal,
        amount: Coin,
        height: u64,
        proxy: Option<String>,
    ) -> (r: Delegation)
        ensures
            r == (Delegation { owner, node_id, cumulative_reward_ratio, amount, height, proxy }),
    {
        Delegation { owner, node_id, cumulative_reward_ratio, amount, height, proxy }
    }

    /// Whether this record is the one keyed by (`node_id`, `owner`, `proxy`).
    pub open spec fn has_key(&self, node_id: NodeId, owner: Seq<char>, proxy: Option<Seq<char>>) -> bool {
        &&& self.node_id == node_id
        &&& self.owner@ == owner
        &&& opt_view(self.proxy) == proxy
    }

    pub fn matches_key(&self, node_id: NodeId, owner: &String, proxy: &Option<String>) -> (r: bool)
        ensures
            r == self.has_key(node_id, owner@, opt_view(*proxy)),
    {
        if self.node_id != node_id || self.owner != *owner {
            return false;
        }
        match (&self.proxy, proxy) {
            (None, None) => true,
            (Some(a), Some(b)) => *a == *b,
            _ => false,
        }
    }

    /// The delegated principal as a decimal.
    pub fn dec_amount(&self) -> (r: Decimal)
        requires
            self.amount.amount * DECIMAL_FRACTIONAL <= u128::MAX,
        ensures
            r@ == self.amount.amount * DECIMAL_FRACTIONAL,
    {
        Decimal::from_whole(self.amount.amount)
    }
}

} // verus!
