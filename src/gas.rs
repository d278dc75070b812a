//! Fee policy of outgoing transactions: per-priority percentages, and the
//! options of a transaction.

use vstd::prelude::*;

verus! {

/// How urgently a transaction should be included.
#[derive(Clone, Copy, Debug, PartialEq, Eq)]
pub enum TxPriority {
    Low,
    Normal,
    High,
    Urgent,
}

impl TxPriority {
    pub open spec fn tip_percent(&self) -> u128 {
        match self {
            TxPriority::Low => 80,
            TxPriority::Normal => 100,
            TxPriority::High => 150,
            TxPriority::Urgent => 300,
        }
    }

    pub open spec fn fee_cap_percent(&self) -> u128 {
        match self {
            TxPriority::Low => 120,
            TxPriority::Normal => 150,
            TxPriority::High => 200,
            TxPriority::Urgent => 300,
        }
    }

    /// The tip as a percentage of the suggested tip (100: unchanged).
    pub fn tip_multiplier_percent(&self) -> (r: u128)
        ensures
            r == self.tip_percent(),
    {
        match self {
            TxPriority::Low => 80,
            TxPriority::Normal => 100,
            TxPriority::High => 150,
            TxPriority::Urgent => 300,
        }
    }

    /// The cap of the fee per gas as a percentage of the adjusted tip.
    pub fn max_fee_cap_multiplier_percent(&self) -> (r: u128)
        ensures
            r == self.fee_cap_percent(),
    {
        match self {
            TxPriority::Low => 120,
            TxPriority::Normal => 150,
            TxPriority::High => 200,
            TxPriority::Urgent => 300,
        }
    }
}

/// Fee computation with a global tip adjustment in percent.
#[derive(Clone, Copy, Debug)]
pub struct GasService {
    /// 100 leaves tips unchanged, 110 raises them by a tenth.
    pub base_tip_percent: u128,
}

impl GasService {
    pub fn new(base_tip_percent: u128) -> (r: GasService)
        ensures
            r.base_tip_percent == base_tip_percent,
    {
        GasService { base_tip_percent }
    }

    /// No global adjustment.
    pub fn default() -> (r: GasService)
        ensures
            r.base_tip_percent == 100,
    {
        GasService::new(100)
    }

    /// The combined tip percentage of this service and a priority, or none
    /// when the product overflows.
    pub fn tip_percent_for(&self, priority: TxPriority) -> (r: Option<u128>)
        ensures
            self.base_tip_percent * priority.tip_percent() <= u128::MAX ==> r == Some(
                ((self.base_tip_percent * priority.tip_percent()) / 100) as u128,
            ),
            self.base_tip_percent * priority.tip_percent() > u128::MAX ==> r is None,
    {
        match self.base_tip_percent.checked_mul(priority.tip_multiplier_percent()) {
            Some(m) => Some(m / 100),
            None => None,
        }
    }
}

/// The options of an outgoing transaction.
#[derive(Clone, Copy, Debug)]
pub struct TxOptions {
    pub priority: TxPriority,
    /// The gas limit as a percentage of the estimate (120: a fifth more).
    pub gas_limit_buffer: u64,
    pub confirmations: u64,
    pub timeout_secs: u64,
}

impl TxOptions {
    pub fn default() -> (r: TxOptions)
        ensures
            r.priority == TxPriority::Normal,
            r.gas_limit_buffer == 120,
            r.confirmations == 1,
            r.timeout_secs == 300,
    {
        TxOptions { priority: TxPriority::Normal, gas_limit_buffer: 120, confirmations: 1, timeout_secs: 300 }
    }
}

} // verus!
