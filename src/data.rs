use vstd::prelude::*;

verus! {

/// A price bar. Prices are fixed-point integers in the instrument's smallest
/// price increment.
#[derive(Clone, Copy, Debug, PartialEq, Eq, Structural)]
pub struct Bar {
    pub open: i64,
    pub high: i64,
    pub low: i64,
    pub close: i64,
    pub volume: u64,
}

/// A top-of-book quote.
#[derive(Clone, Copy, Debug, PartialEq, Eq, Structural)]
pub struct QuoteTick {
    pub bid_price: i64,
    pub ask_price: i64,
    pub bid_size: u64,
    pub ask_size: u64,
}

/// A single trade.
#[derive(Clone, Copy, Debug, PartialEq, Eq, Structural)]
pub struct TradeTick {
    pub price: i64,
    pub size: u64,
}

/// Why an indicator could not be built.
#[derive(Clone, Copy, Debug, PartialEq, Eq, Structural)]
pub enum IndicatorError {
    /// The period is zero, or larger than the largest window a moving
    /// average holds.
    InvalidConfiguration,
}

} // verus!
