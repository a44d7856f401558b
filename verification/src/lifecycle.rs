//! Realized profit-and-loss and fee accounting, and the per-account position
//! lifecycle: record an accepted entry order, close the active trade into the
//! closed-trades history, and decide when a close is due.
//!
//! An order handed to the gateway comes back `Filled`, `Resting` or rejected;
//! the first two count as accepted. A position is recorded only for an
//! accepted entry order, and a close only takes effect for an accepted
//! offsetting order — on a rejection the account is left unchanged and the
//! next price tick re-triggers evaluation.

use vstd::prelude::*;
use vstd::arithmetic::div_mod::{
    lemma_div_denominator, lemma_div_is_ordered, lemma_div_multiples_vanish,
};
use vstd::arithmetic::mul::{lemma_mul_inequality, lemma_mul_nonnegative};
use crate::evaluator::{spec_check_should_close, check_should_close, CloseReason};
use crate::fixed::{MAX_NOTIONAL, MAX_PRICE, MAX_SIZE, MIN_PRICE, SCALE};
use crate::position::Trade;

verus! {

/// Largest magnitude the realized profit or loss of one trade can take,
/// in fixed-point units: the largest price difference times the largest size.
pub const PNL_BOUND: i128 = 20_000_000_000_000_000_000_000_000;

/// What the gateway reported for one submitted order.
#[derive(Clone, Copy, Debug, PartialEq, Eq, Structural)]
pub enum OrderStatus {
    /// The order executed immediately.
    Filled,
    /// The order rests on the book; it counts as accepted.
    Resting,
    /// The gateway rejected the order or the transport failed.
    Rejected,
}

/// Accepted orders are those the gateway took: filled or resting.
pub open spec fn accepted(status: OrderStatus) -> bool {
    status is Filled || status is Resting
}

/// The absolute difference of two prices.
pub open spec fn abs_diff(a: u64, b: u64) -> int {
    if a >= b {
        a - b
    } else {
        b - a
    }
}

/// The realized profit (positive) or loss (negative) of closing `t` at
/// `exit`: the absolute price move times the size, signed by whether the
/// move was in the trade's favour. The magnitude is truncated toward zero.
pub open spec fn spec_gross_pnl(t: Trade, exit: u64) -> int {
    let mag = abs_diff(exit, t.entry_price) * t.size / (SCALE as int);
    let gain = match t.direction {
        crate::position::Direction::Long => exit >= t.entry_price,
        crate::position::Direction::Short => exit <= t.entry_price,
    };
    if gain {
        mag
    } else {
        -mag
    }
}

/// The gross profit or loss of a well-formed trade is bounded by `PNL_BOUND`.
pub proof fn lemma_gross_pnl_bound(t: Trade, exit: u64)
    requires
        t.wf(),
        exit <= MAX_PRICE,
    ensures
        -PNL_BOUND <= spec_gross_pnl(t, exit) <= PNL_BOUND,
{
    let d = abs_diff(exit, t.entry_price);
    lemma_mul_nonnegative(d, t.size as int);
    lemma_div_is_ordered(0, d * t.size, SCALE as int);
    lemma_mul_inequality(d, MAX_PRICE as int, t.size as int);
    lemma_mul_inequality(t.size as int, MAX_SIZE as int, MAX_PRICE as int);
    lemma_div_is_ordered(d * t.size, (MAX_PRICE as int) * (MAX_SIZE as int), SCALE as int);
}

/// Computes the realized profit or loss of closing `t` at `exit_price`.
pub fn gross_pnl(t: &Trade, exit_price: u64) -> (r: i128)
    requires
        t.wf(),
        MIN_PRICE <= exit_price <= MAX_PRICE,
    ensures
        r == spec_gross_pnl(*t, exit_price),
        -PNL_BOUND <= r <= PNL_BOUND,
{
    proof {
        lemma_gross_pnl_bound(*t, exit_price);
    }
    let (d, gain): (u64, bool) = match t.direction {
        crate::position::Direction::Long => {
            if exit_price >= t.entry_price {
                (exit_price - t.entry_price, true)
            } else {
                (t.entry_price - exit_price, false)
            }
        },
        crate::position::Direction::Short => {
            if exit_price <= t.entry_price {
                (t.entry_price - exit_price, true)
            } else {
                (exit_price - t.entry_price, false)
            }
        },
    };
    let mag: u128 = ((d as u128) * (t.size as u128)) / (SCALE as u128);
    if gain {
        mag as i128
    } else {
        -(mag as i128)
    }
}

/// The fee one order leg costs: the traded notional (`price * size`) times
/// the fee rate, all in fixed-point units, truncated.
pub open spec fn spec_fee(price: int, size: int, rate: int) -> int {
    price * size * rate / ((SCALE * SCALE) as int)
}

/// Within the admitted ranges a fee leg fits comfortably in 64 bits.
pub proof fn lemma_fee_range(price: int, size: int, rate: int)
    requires
        0 <= price,
        0 <= size,
        0 <= rate <= SCALE,
        price * size / (SCALE as int) <= MAX_NOTIONAL,
    ensures
        0 <= spec_fee(price, size, rate) <= MAX_NOTIONAL + 1,
{
    let s = SCALE as int;
    let ps = price * size;
    lemma_mul_nonnegative(price, size);
    lemma_mul_nonnegative(ps, rate);
    lemma_div_is_ordered(0, ps * rate, s * s);
    lemma_mul_inequality(rate, s, ps);
    assert(ps * rate == rate * ps && ps * s == s * ps) by (nonlinear_arith);
    lemma_div_is_ordered(ps * rate, ps * s, s * s);
    // (ps * s) / (s * s) == ps / s <= MAX_NOTIONAL.
    lemma_div_denominator(ps * s, s, s);
    lemma_div_multiples_vanish(ps, s);
    assert(ps * s == s * ps) by (nonlinear_arith);
}

/// Computes one fee leg: `price * size * rate`, scaled back into fixed-point
/// units. The traded notional must be within the admitted range.
pub fn fee_leg(price: u64, size: u64, rate: u64) -> (r: u64)
    requires
        rate <= SCALE,
        price * size / (SCALE as int) <= MAX_NOTIONAL,
    ensures
        r == spec_fee(price as int, size as int, rate as int),
{
    proof {
        lemma_fee_range(price as int, size as int, rate as int);
        let s = SCALE as int;
        let ps = (price as int) * (size as int);
        lemma_mul_nonnegative(price as int, size as int);
        lemma_mul_nonnegative(ps, rate as int);
        vstd::arithmetic::div_mod::lemma_fundamental_div_mod(ps, s);
        assert(ps <= s * (MAX_NOTIONAL as int) + s) by (nonlinear_arith)
            requires
                ps == s * (ps / s) + ps % s && ps / s <= MAX_NOTIONAL && 0 <= ps % s < s,
        ;
        assert(ps * rate <= (s * (MAX_NOTIONAL as int) + s) * (SCALE as int)) by (nonlinear_arith)
            requires
                0 <= ps <= s * (MAX_NOTIONAL as int) + s && 0 <= rate <= SCALE,
        ;
    }
    let prod: u128 = (price as u128) * (size as u128);
    let num: u128 = prod * (rate as u128);
    (num / ((SCALE as u128) * (SCALE as u128))) as u64
}

/// The total fee of a round trip that entered at `entry_price` with a taker
/// order and exited at `exit_price` with a maker order.
pub fn trade_fees(entry_price: u64, exit_price: u64, size: u64, taker_rate: u64, maker_rate: u64)
    -> (r: u64)
    requires
        taker_rate <= SCALE,
        maker_rate <= SCALE,
        entry_price * size / (SCALE as int) <= MAX_NOTIONAL,
        exit_price * size / (SCALE as int) <= MAX_NOTIONAL,
    ensures
        r == spec_fee(entry_price as int, size as int, taker_rate as int) + spec_fee(
            exit_price as int,
            size as int,
            maker_rate as int,
        ),
{
    proof {
        lemma_fee_range(entry_price as int, size as int, taker_rate as int);
        lemma_fee_range(exit_price as int, size as int, maker_rate as int);
    }
    let entry_fee = fee_leg(entry_price, size, taker_rate);
    let exit_fee = fee_leg(exit_price, size, maker_rate);
    entry_fee + exit_fee
}

/// One trading account: its active trade, whether it is the long channel,
/// and the history of closed trades.
#[derive(Debug)]
pub struct TradingAccount {
    pub active_trade: Option<Trade>,
    pub is_long_account: bool,
    pub closed_trades: Vec<Trade>,
}

impl TradingAccount {
    /// The account invariant: the active trade, if any, is well formed and
    /// still open; every trade in the history is well formed and closed.
    pub open spec fn wf(self) -> bool {
        &&& match self.active_trade {
            Option::Some(t) => t.wf() && t.is_open(),
            Option::None => true,
        }
        &&& forall|i: int|
            0 <= i < self.closed_trades@.len() ==> (#[trigger] self.closed_trades@[i]).wf()
                && self.closed_trades@[i].is_closed()
    }

    /// A fresh account for one channel, with no trade and an empty history.
    pub fn new(is_long_account: bool) -> (r: TradingAccount)
        ensures
            r.wf(),
            r.active_trade is None,
            r.is_long_account == is_long_account,
            r.closed_trades@ =~= Seq::<Trade>::empty(),
    {
        TradingAccount { active_trade: Option::None, is_long_account, closed_trades: Vec::new() }
    }

    /// Records `trade` as the account's active position if the gateway
    /// accepted the entry order; a rejected order leaves the account
    /// unchanged, and the entry attempt is simply abandoned.
    pub fn open_position(&mut self, trade: Trade, status: OrderStatus)
        requires
            old(self).wf(),
            old(self).active_trade is None,
            trade.wf(),
            trade.is_open(),
        ensures
            final(self).wf(),
            accepted(status) ==> final(self).active_trade == Option::Some(trade),
            !accepted(status) ==> final(self).active_trade is None,
            final(self).closed_trades@ == old(self).closed_trades@,
            final(self).is_long_account == old(self).is_long_account,
    {
        match status {
            OrderStatus::Filled | OrderStatus::Resting => {
                self.active_trade = Option::Some(trade);
            },
            OrderStatus::Rejected => {},
        }
    }

    /// Closes the active trade at `current_price`, provided the offsetting
    /// order was accepted: the trade moves into the history with its close
    /// price set, and the realized profit or loss is added to `total_pnl`.
    /// With no active trade, or a rejected order, nothing changes.
    pub fn close_position(&mut self, current_price: u64, status: OrderStatus, total_pnl: &mut i128)
        requires
            old(self).wf(),
            MIN_PRICE <= current_price <= MAX_PRICE,
            i128::MIN + PNL_BOUND <= *old(total_pnl) <= i128::MAX - PNL_BOUND,
        ensures
            final(self).wf(),
            final(self).is_long_account == old(self).is_long_account,
            match old(self).active_trade {
                Option::Some(t) => {
                    if accepted(status) {
                        &&& final(self).active_trade is None
                        &&& final(self).closed_trades@ == old(self).closed_trades@.push(
                            t.closed_at(current_price),
                        )
                        &&& *final(total_pnl) == *old(total_pnl) + spec_gross_pnl(t, current_price)
                    } else {
                        &&& *final(self) == *old(self)
                        &&& *final(total_pnl) == *old(total_pnl)
                    }
                },
                Option::None => *final(self) == *old(self) && *final(total_pnl) == *old(total_pnl),
            },
    {
        if let Option::Some(trade) = self.active_trade {
            match status {
                OrderStatus::Filled | OrderStatus::Resting => {
                    let pnl = gross_pnl(&trade, current_price);
                    let closed = Trade { close_price: Option::Some(current_price), ..trade };
                    self.active_trade = Option::None;
                    self.closed_trades.push(closed);
                    *total_pnl = *total_pnl + pnl;
                },
                OrderStatus::Rejected => {},
            }
        }
    }

    /// Decides whether the account's active trade must be closed at
    /// `current_price` and time `now`: the exit-condition evaluator's answer,
    /// or `None` when the account holds no trade.
    pub fn check_account_position(&self, current_price: u64, now: i64, timeout_sec: u64) -> (r:
        Option<CloseReason>)
        requires
            self.wf(),
            match self.active_trade {
                Option::Some(t) => t.entry_time <= now,
                Option::None => true,
            },
        ensures
            r == match self.active_trade {
                Option::Some(t) => spec_check_should_close(t, current_price, now, timeout_sec),
                Option::None => Option::<CloseReason>::None,
            },
    {
        match &self.active_trade {
            Option::Some(trade) => check_should_close(trade, current_price, now, timeout_sec),
            Option::None => Option::None,
        }
    }
}

} // verus!
