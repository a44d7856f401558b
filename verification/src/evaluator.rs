//! The exit-condition evaluator: given an open trade, the current mid price
//! and the current time, decides whether the trade must be closed and why.
//!
//! The rules are checked in a fixed precedence order — stop-loss, then
//! take-profit, then the time-driven exits — so a price-driven exit is never
//! masked by a simultaneous timeout.

use vstd::prelude::*;
use crate::position::{Direction, Trade};

verus! {

/// Why an open trade is to be closed.
#[derive(Clone, Copy, Debug, PartialEq, Eq, Structural)]
pub enum CloseReason {
    /// The price crossed the stop-loss level.
    StopLoss,
    /// The price crossed the take-profit level.
    TakeProfit,
    /// Half the maximum duration has passed and the trade is in profit.
    MidCheckProfit,
    /// The maximum duration has passed, whatever the price.
    Timeout,
}

/// The stop-loss level is hit: the price fell to it for a long,
/// rose to it for a short.
pub open spec fn stop_loss_hit(t: Trade, price: u64) -> bool {
    match t.direction {
        Direction::Long => price <= t.sl_price,
        Direction::Short => price >= t.sl_price,
    }
}

/// The take-profit level is hit: the price rose to it for a long,
/// fell to it for a short.
pub open spec fn take_profit_hit(t: Trade, price: u64) -> bool {
    match t.direction {
        Direction::Long => price >= t.tp_price,
        Direction::Short => price <= t.tp_price,
    }
}

/// The trade has unrealized profit at `price`: the price moved past the
/// entry in the trade's favour. The unrealized profit fraction
/// `(price - entry) / entry` (mirrored for a short) is positive exactly
/// when its numerator is, so no division is needed.
pub open spec fn in_profit(t: Trade, price: u64) -> bool {
    match t.direction {
        Direction::Long => price > t.entry_price,
        Direction::Short => price < t.entry_price,
    }
}

/// The evaluator without the mid-duration rule: stop-loss, then take-profit,
/// then the unconditional timeout after `timeout` seconds.
pub open spec fn spec_check_should_close(t: Trade, price: u64, now: i64, timeout: u64) -> Option<
    CloseReason,
> {
    if stop_loss_hit(t, price) {
        Option::Some(CloseReason::StopLoss)
    } else if take_profit_hit(t, price) {
        Option::Some(CloseReason::TakeProfit)
    } else if now - t.entry_time >= timeout {
        Option::Some(CloseReason::Timeout)
    } else {
        Option::None
    }
}

/// The full evaluator: stop-loss, then take-profit, then the mid-duration
/// profit take after `mid_duration` seconds, then the unconditional timeout
/// after `max_duration` seconds.
pub open spec fn spec_evaluate_exit(
    t: Trade,
    price: u64,
    now: i64,
    mid_duration: u64,
    max_duration: u64,
) -> Option<CloseReason> {
    if stop_loss_hit(t, price) {
        Option::Some(CloseReason::StopLoss)
    } else if take_profit_hit(t, price) {
        Option::Some(CloseReason::TakeProfit)
    } else if now - t.entry_time >= mid_duration && in_profit(t, price) {
        Option::Some(CloseReason::MidCheckProfit)
    } else if now - t.entry_time >= max_duration {
        Option::Some(CloseReason::Timeout)
    } else {
        Option::None
    }
}

/// Decides whether `trade` must be closed at `current_price` and time
/// `current_ts`, without a mid-duration rule: `None` keeps it open, and each
/// returned reason comes exactly when its rule is the first to match.
pub fn check_should_close(trade: &Trade, current_price: u64, current_ts: i64, timeout: u64) -> (r:
    Option<CloseReason>)
    requires
        trade.wf(),
        trade.entry_time <= current_ts,
    ensures
        r == spec_check_should_close(*trade, current_price, current_ts, timeout),
{
    let sl = match trade.direction {
        Direction::Long => current_price <= trade.sl_price,
        Direction::Short => current_price >= trade.sl_price,
    };
    if sl {
        return Option::Some(CloseReason::StopLoss);
    }
    let tp = match trade.direction {
        Direction::Long => current_price >= trade.tp_price,
        Direction::Short => current_price <= trade.tp_price,
    };
    if tp {
        return Option::Some(CloseReason::TakeProfit);
    }
    let elapsed: i64 = current_ts - trade.entry_time;
    if elapsed >= 0 && (elapsed as u64) >= timeout {
        return Option::Some(CloseReason::Timeout);
    }
    Option::None
}

/// Decides whether `trade` must be closed at `price` and time `now` under
/// the full rule set, including the mid-duration profit take.
pub fn evaluate_exit(
    trade: &Trade,
    price: u64,
    now: i64,
    mid_duration: u64,
    max_duration: u64,
) -> (r: Option<CloseReason>)
    requires
        trade.wf(),
        trade.entry_time <= now,
    ensures
        r == spec_evaluate_exit(*trade, price, now, mid_duration, max_duration),
{
    let sl = match trade.direction {
        Direction::Long => price <= trade.sl_price,
        Direction::Short => price >= trade.sl_price,
    };
    if sl {
        return Option::Some(CloseReason::StopLoss);
    }
    let tp = match trade.direction {
        Direction::Long => price >= trade.tp_price,
        Direction::Short => price <= trade.tp_price,
    };
    if tp {
        return Option::Some(CloseReason::TakeProfit);
    }
    let elapsed: u64 = (now - trade.entry_time) as u64;
    let profit = match trade.direction {
        Direction::Long => price > trade.entry_price,
        Direction::Short => price < trade.entry_price,
    };
    if elapsed >= mid_duration && profit {
        return Option::Some(CloseReason::MidCheckProfit);
    }
    if elapsed >= max_duration {
        return Option::Some(CloseReason::Timeout);
    }
    Option::None
}

/// Whether `trade` must be closed under the full rule set, as a bare decision.
pub fn should_close_trade(
    trade: &Trade,
    price: u64,
    now: i64,
    mid_duration: u64,
    max_duration: u64,
) -> (r: bool)
    requires
        trade.wf(),
        trade.entry_time <= now,
    ensures
        r == spec_evaluate_exit(*trade, price, now, mid_duration, max_duration) is Some,
{
    evaluate_exit(trade, price, now, mid_duration, max_duration).is_some()
}

/// Precedence: whenever the stop-loss rule matches, the evaluator answers
/// `StopLoss` — never `Timeout` — even if the timeout rule matches too.
pub proof fn lemma_stop_loss_precedes_timeout(
    t: Trade,
    price: u64,
    now: i64,
    timeout: u64,
    mid_duration: u64,
    max_duration: u64,
)
    requires
        stop_loss_hit(t, price),
    ensures
        spec_check_should_close(t, price, now, timeout) == Option::Some(CloseReason::StopLoss),
        spec_evaluate_exit(t, price, now, mid_duration, max_duration) == Option::Some(
            CloseReason::StopLoss,
        ),
{
}

} // verus!
