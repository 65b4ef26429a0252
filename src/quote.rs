//! Market data for one symbol at one point in time.
use vstd::prelude::*;

use crate::money::Money;

verus! {

/// Open, low, high and close prices of a trading day, and its volume.
#[derive(Clone, Copy, Debug, PartialEq, Eq, Structural)]
pub struct DayRange {
    pub open: Money,
    pub low: Money,
    pub high: Money,
    pub close: Money,
    pub volume: Option<u64>,
}

/// A provider's answer for one symbol. The percentage change is held in
/// hundredths of a percent (250 stands for 2.5%).
#[derive(Clone, Copy, Debug, PartialEq, Eq, Structural)]
pub struct Quote {
    pub price: Money,
    pub change: Option<Money>,
    pub percentage: Option<i64>,
    pub range: Option<DayRange>,
}

} // verus!
