//! The fee model: a single taker fee, charged as a fraction of every trade.

use vstd::prelude::*;
use crate::decimal::{decimal_difference, decimal_product, decimal_quotient, decimal_sum, view_of, Dec, DecView};

verus! {

/// The factor by which a fee changes a rate: `1 - fee` where the fee is taken
/// off what a sale brings in, `1 + fee` where it is put on what a purchase
/// costs.
pub open spec fn fee_factor(fee: DecView, sell_side: bool) -> Option<DecView> {
    if sell_side {
        decimal_difference(DecView::one(), fee)
    } else {
        decimal_sum(DecView::one(), fee)
    }
}

/// A raw rate times the fee factor of its side.
pub open spec fn effective_rate(raw: DecView, fee: DecView, sell_side: bool) -> Option<DecView> {
    match fee_factor(fee, sell_side) {
        Some(factor) => decimal_product(raw, factor),
        None => None,
    }
}

/// The rate of a conversion that pays the ask: the ask price with the fee on
/// top.
pub open spec fn buy_rate(ask_price: DecView, fee: DecView) -> Option<DecView> {
    effective_rate(ask_price, fee, false)
}

/// The rate of a conversion that receives the bid: the reciprocal of the bid
/// price with the fee taken off.
pub open spec fn sell_rate(bid_price: DecView, fee: DecView) -> Option<DecView> {
    match decimal_quotient(DecView::one(), bid_price) {
        Some(reciprocal) => effective_rate(reciprocal, fee, true),
        None => None,
    }
}

/// A fixed taker fee. The fraction is whatever the caller configures: `0.0008`
/// charges 0.08 %, `0.08` charges 8 %.
#[derive(Clone, Copy, Debug)]
pub struct FeeModel {
    pub fee_fraction: Dec,
}

impl FeeModel {
    /// A fee model that charges the given fraction of every trade.
    pub fn new(fee_fraction: Dec) -> (r: FeeModel)
        ensures
            r.fee_fraction == fee_fraction,
    {
        FeeModel { fee_fraction }
    }

    /// The raw rate with the fee applied: `raw * (1 - fee)` on the sell side,
    /// `raw * (1 + fee)` on the buy side. `None` where the decimal arithmetic
    /// overflows.
    pub fn effective_rate(&self, raw: Dec, sell_side: bool) -> (r: Option<Dec>)
        ensures
            view_of(r) == effective_rate(raw@, self.fee_fraction@, sell_side),
    {
        let factor = if sell_side {
            Dec::one().checked_sub(self.fee_fraction)
        } else {
            Dec::one().checked_add(self.fee_fraction)
        };
        match factor {
            Some(f) => raw.checked_mul(f),
            None => None,
        }
    }

    /// The fee-adjusted rate at which the ask of a market converts its base
    /// asset. `None` where the decimal arithmetic overflows.
    pub fn buy_rate(&self, ask_price: Dec) -> (r: Option<Dec>)
        ensures
            view_of(r) == buy_rate(ask_price@, self.fee_fraction@),
    {
        self.effective_rate(ask_price, false)
    }

    /// The fee-adjusted rate at which the bid of a market converts its quote
    /// asset. `None` where the bid price is zero or the decimal arithmetic
    /// overflows.
    pub fn sell_rate(&self, bid_price: Dec) -> (r: Option<Dec>)
        ensures
            view_of(r) == sell_rate(bid_price@, self.fee_fraction@),
    {
        match Dec::one().checked_div(bid_price) {
            Some(reciprocal) => self.effective_rate(reciprocal, true),
            None => None,
        }
    }
}

} // verus!
