//! The position data model: direction, trade records and bot parameters,
//! and the construction of a new trade from a price and the configured
//! take-profit / stop-loss fractions.

use vstd::prelude::*;
use crate::fixed::{
    frac_of, lemma_frac_of_le, lemma_size_for_range, mul_fp, get_size, spec_size_for, MAX_NOTIONAL,
    MAX_PRICE, MAX_SIZE, MIN_PRICE, SCALE,
};
use vstd::arithmetic::div_mod::lemma_div_is_ordered;
use vstd::arithmetic::mul::lemma_mul_inequality;
use crate::clock::unix_now;

verus! {

/// Largest admitted capital amount, in fixed-point units.
pub const MAX_AMOUNT: u64 = 10_000_000_000_000;

/// Largest admitted leverage multiplier, in fixed-point units (a thousandfold).
pub const MAX_LEVERAGE: u64 = 1_000_000_000;

/// Side of an exposure: long profits when the price rises, short when it falls.
#[derive(Clone, Copy, Debug, PartialEq, Eq, Structural)]
pub enum Direction {
    Long,
    Short,
}

/// One exposure: entry data, the absolute take-profit and stop-loss levels
/// fixed at open time, and the close price once the trade is closed.
///
/// A trade is open exactly while `close_price` is `None`; closing it fills
/// `close_price` and moves it into a closed-trades history, after which it
/// is never changed again.
#[derive(Clone, Copy, Debug)]
pub struct Trade {
    pub direction: Direction,
    pub entry_price: u64,
    pub entry_time: i64,
    pub size: u64,
    pub tp_price: u64,
    pub sl_price: u64,
    pub close_price: Option<u64>,
}

/// Configuration of one bot run: capital, leverage and the two exit fractions,
/// all in fixed-point units.
#[derive(Clone, Copy, Debug)]
pub struct BotParams {
    pub amount: u64,
    pub leverage: u64,
    pub tp_percent: u64,
    pub sl_percent: u64,
}

impl BotParams {
    /// All parameters within their admitted ranges; the two fractions are
    /// at most one.
    pub open spec fn wf(self) -> bool {
        &&& self.amount <= MAX_AMOUNT
        &&& self.leverage <= MAX_LEVERAGE
        &&& self.tp_percent <= SCALE
        &&& self.sl_percent <= SCALE
    }

    /// The notional value this configuration puts at risk: capital times
    /// leverage.
    pub open spec fn spec_notional(self) -> int {
        self.amount * self.leverage / (SCALE as int)
    }
}

/// A well-formed configuration's notional value stays in the admitted range.
pub proof fn lemma_notional_range(params: BotParams)
    requires
        params.wf(),
    ensures
        0 <= params.spec_notional() <= MAX_NOTIONAL,
{
    lemma_mul_inequality(params.amount as int, MAX_AMOUNT as int, params.leverage as int);
    lemma_mul_inequality(params.leverage as int, MAX_LEVERAGE as int, MAX_AMOUNT as int);
    lemma_div_is_ordered(
        params.amount * params.leverage,
        (MAX_AMOUNT as int) * (MAX_LEVERAGE as int),
        SCALE as int,
    );
    lemma_div_is_ordered(0, params.amount * params.leverage, SCALE as int);
}

/// The absolute take-profit level for an entry at `price`: above the entry
/// for a long, below it for a short, offset by the fraction `tp` of `price`.
pub open spec fn spec_tp_price(is_long: bool, price: int, tp: int) -> int {
    if is_long {
        price + frac_of(price, tp)
    } else {
        price - frac_of(price, tp)
    }
}

/// The absolute stop-loss level for an entry at `price`: below the entry
/// for a long, above it for a short, offset by the fraction `sl` of `price`.
pub open spec fn spec_sl_price(is_long: bool, price: int, sl: int) -> int {
    if is_long {
        price - frac_of(price, sl)
    } else {
        price + frac_of(price, sl)
    }
}

/// Stop-loss and take-profit levels are symmetric between the two directions:
/// a short entered at `price` stops at `price` plus the stop fraction of the
/// price and takes profit at `price` minus the take fraction, and a long at
/// the mirrored levels, with exactly the same absolute offsets.
pub proof fn lemma_tp_sl_symmetric(price: u64, tp: u64, sl: u64)
    requires
        price <= MAX_PRICE,
        tp <= SCALE,
        sl <= SCALE,
    ensures
        spec_sl_price(false, price as int, sl as int) == price + frac_of(price as int, sl as int),
        spec_tp_price(false, price as int, tp as int) == price - frac_of(price as int, tp as int),
        spec_sl_price(true, price as int, sl as int) == price - frac_of(price as int, sl as int),
        spec_tp_price(true, price as int, tp as int) == price + frac_of(price as int, tp as int),
        spec_sl_price(false, price as int, sl as int) - price == price - spec_sl_price(
            true,
            price as int,
            sl as int,
        ),
        spec_tp_price(true, price as int, tp as int) - price == price - spec_tp_price(
            false,
            price as int,
            tp as int,
        ),
{
}

impl Trade {
    /// All fields within their admitted ranges.
    pub open spec fn wf(self) -> bool {
        &&& MIN_PRICE <= self.entry_price <= MAX_PRICE
        &&& 0 <= self.entry_time
        &&& self.size <= MAX_SIZE
        &&& self.tp_price <= 2 * MAX_PRICE
        &&& self.sl_price <= 2 * MAX_PRICE
        &&& match self.close_price {
            Option::Some(p) => MIN_PRICE <= p <= MAX_PRICE,
            Option::None => true,
        }
    }

    /// An open trade: not yet closed.
    pub open spec fn is_open(self) -> bool {
        self.close_price is None
    }

    /// A closed trade: the close price has been recorded.
    pub open spec fn is_closed(self) -> bool {
        self.close_price is Some
    }

    /// The same trade, closed at `price`; every other field is kept.
    pub open spec fn closed_at(self, price: u64) -> Trade {
        Trade { close_price: Option::Some(price), ..self }
    }
}

/// The trade opened by a well-formed configuration at `price` and time `now`:
/// entry at the given price, size covering the configured notional, and the
/// take-profit / stop-loss levels offset from the entry by the configured
/// fractions (upward or downward according to the direction).
pub open spec fn spec_new_trade(is_long: bool, price: u64, params: BotParams, now: i64) -> Trade {
    Trade {
        direction: if is_long {
            Direction::Long
        } else {
            Direction::Short
        },
        entry_price: price,
        entry_time: now,
        size: spec_size_for(params.spec_notional(), price as int) as u64,
        tp_price: spec_tp_price(is_long, price as int, params.tp_percent as int) as u64,
        sl_price: spec_sl_price(is_long, price as int, params.sl_percent as int) as u64,
        close_price: Option::None,
    }
}

/// A freshly opened trade is well formed.
pub proof fn lemma_new_trade_wf(is_long: bool, price: u64, params: BotParams, now: i64)
    requires
        params.wf(),
        MIN_PRICE <= price <= MAX_PRICE,
        0 <= now,
    ensures
        spec_new_trade(is_long, price, params, now).wf(),
        spec_new_trade(is_long, price, params, now).is_open(),
{
    lemma_notional_range(params);
    lemma_size_for_range(params.spec_notional(), price as int);
    lemma_frac_of_le(price as int, params.tp_percent as int);
    lemma_frac_of_le(price as int, params.sl_percent as int);
}

/// Builds the trade record for an entry at `latest_price` observed at time
/// `now`: all fields are fixed exactly by `spec_new_trade`.
pub fn create_trade_at(is_long: bool, latest_price: u64, params: &BotParams, now: i64) -> (t: Trade)
    requires
        params.wf(),
        MIN_PRICE <= latest_price <= MAX_PRICE,
        0 <= now,
    ensures
        t == spec_new_trade(is_long, latest_price, *params, now),
        t.wf(),
        t.is_open(),
{
    proof {
        lemma_notional_range(*params);
        lemma_size_for_range(params.spec_notional(), latest_price as int);
        lemma_frac_of_le(latest_price as int, params.tp_percent as int);
        lemma_frac_of_le(latest_price as int, params.sl_percent as int);
        lemma_new_trade_wf(is_long, latest_price, *params, now);
    }
    let notional = mul_fp(params.amount, params.leverage);
    let size = get_size(notional, latest_price);
    let tp_delta = mul_fp(latest_price, params.tp_percent);
    let sl_delta = mul_fp(latest_price, params.sl_percent);
    let tp_price = if is_long {
        latest_price + tp_delta
    } else {
        latest_price - tp_delta
    };
    let sl_price = if is_long {
        latest_price - sl_delta
    } else {
        latest_price + sl_delta
    };
    Trade {
        direction: if is_long {
            Direction::Long
        } else {
            Direction::Short
        },
        entry_price: latest_price,
        entry_time: now,
        size,
        tp_price,
        sl_price,
        close_price: Option::None,
    }
}

/// Builds a trade for an entry at `latest_price`, stamped with the current
/// wall-clock time. Apart from `entry_time`, which the clock fixes, every
/// field is determined as in `spec_new_trade`.
pub fn create_trade(is_long: bool, latest_price: u64, params: &BotParams) -> (t: Trade)
    requires
        params.wf(),
        MIN_PRICE <= latest_price <= MAX_PRICE,
    ensures
        t == spec_new_trade(is_long, latest_price, *params, t.entry_time),
        t.wf(),
        t.is_open(),
{
    let now = unix_now();
    create_trade_at(is_long, latest_price, params, now)
}

} // verus!
