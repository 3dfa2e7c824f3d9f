use vstd::prelude::*;

verus! {

/// Vesting period used when a specification leaves it open: three months of thirty days.
pub const DEFAULT_PERIOD_SECONDS: u64 = 3 * 30 * 86400;

/// Number of vesting periods used when a specification leaves it open.
pub const DEFAULT_NUM_PERIODS: u64 = 8;

/// Instantiation message of the vesting contract.
#[derive(Clone, Debug, PartialEq, Eq)]
pub struct InitMsg {
    pub mixnet_contract_address: String,
    pub mix_denom: String,
}

/// Migration message of the vesting contract.
#[derive(Clone, Debug, PartialEq, Eq)]
pub struct MigrateMsg {
    pub mix_denom: String,
}

/// How a vesting account releases its tokens; each part may be left to its default.
#[derive(Clone, Copy, Debug, PartialEq, Eq, Structural)]
pub struct VestingSpecification {
    start_time: Option<u64>,
    period_seconds: Option<u64>,
    num_periods: Option<u64>,
}

impl Default for VestingSpecification {
    fn default() -> (r: VestingSpecification)
        ensures
            r.spec_start_time() is None,
            r.spec_period_seconds() == DEFAULT_PERIOD_SECONDS,
            r.spec_num_periods() == DEFAULT_NUM_PERIODS,
    {
        VestingSpecification { start_time: None, period_seconds: None, num_periods: None }
    }
}

impl VestingSpecification {
    pub closed spec fn spec_start_time(&self) -> Option<u64> {
        self.start_time
    }

    pub closed spec fn spec_period_seconds(&self) -> u64 {
        match self.period_seconds {
            Some(p) => p,
            None => DEFAULT_PERIOD_SECONDS,
        }
    }

    pub closed spec fn spec_num_periods(&self) -> u64 {
        match self.num_periods {
            Some(n) => n,
            None => DEFAULT_NUM_PERIODS,
        }
    }

    pub fn new(start_time: Option<u64>, period_seconds: Option<u64>, num_periods: Option<u64>) -> (r: Self)
        ensures
            r.spec_start_time() == start_time,
            r.spec_period_seconds() == match period_seconds {
                Some(p) => p,
                None => DEFAULT_PERIOD_SECONDS,
            },
            r.spec_num_periods() == match num_periods {
                Some(n) => n,
                None => DEFAULT_NUM_PERIODS,
            },
    {
        Self { start_time, period_seconds, num_periods }
    }

    pub fn start_time(&self) -> (r: Option<u64>)
        ensures
            r == self.spec_start_time(),
    {
        self.start_time
    }

    /// Length of one vesting period, three months unless given.
    pub fn period_seconds(&self) -> (r: u64)
        ensures
            r == self.spec_period_seconds(),
    {
        match self.period_seconds {
            Some(p) => p,
            None => DEFAULT_PERIOD_SECONDS,
        }
    }

    /// Number of vesting periods, eight unless given.
    pub fn num_periods(&self) -> (r: u64)
        ensures
            r == self.spec_num_periods(),
    {
        match self.num_periods {
            Some(n) => n,
            None => DEFAULT_NUM_PERIODS,
        }
    }
}

} // verus!
