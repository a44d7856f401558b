//! The simulated dual-channel lifecycle manager: one long and one short
//! trade are held at all times; on every price tick each channel is checked
//! against the exit rules, and a channel that closes is reopened immediately
//! at the current price, so the book is never flat.

use vstd::prelude::*;
use vstd::arithmetic::mul::lemma_mul_inequality;
use crate::evaluator::{check_should_close, spec_check_should_close};
use crate::fixed::{mul_fp, MAX_NOTIONAL, MAX_PRICE, MIN_PRICE, SCALE};
use crate::lifecycle::{gross_pnl, lemma_gross_pnl_bound, spec_gross_pnl, PNL_BOUND};
use crate::position::{
    create_trade_at, lemma_notional_range, spec_new_trade, BotParams, Trade, MAX_AMOUNT,
    MAX_LEVERAGE,
};

verus! {

/// Largest magnitude one closed channel can add to the running total:
/// the profit-and-loss bound plus the round-trip fee bound.
pub const NET_BOUND: i128 = 20_000_000_100_000_000_000_000_000;

/// Most closed trades a simulation run may accumulate.
pub const MAX_CLOSED: u64 = 1_000_000_000_000;

/// Configuration of a simulation run, all quantities in fixed-point units:
/// capital, leverage, the two exit fractions, the timeout, and the flat
/// per-leg fee rate.
#[derive(Clone, Copy, Debug)]
pub struct SimulationParams {
    pub amount: u64,
    pub leverage: u64,
    pub tp_percent: u64,
    pub sl_percent: u64,
    pub timeout_sec: u64,
    pub fees: u64,
}

impl SimulationParams {
    /// All parameters within their admitted ranges.
    pub open spec fn wf(self) -> bool {
        &&& self.amount <= MAX_AMOUNT
        &&& self.leverage <= MAX_LEVERAGE
        &&& self.tp_percent <= SCALE
        &&& self.sl_percent <= SCALE
        &&& self.fees <= SCALE
    }

    /// The position-sizing part of the configuration.
    pub open spec fn spec_bot_params(self) -> BotParams {
        BotParams {
            amount: self.amount,
            leverage: self.leverage,
            tp_percent: self.tp_percent,
            sl_percent: self.sl_percent,
        }
    }

    /// The fee cost of one closed round trip: twice the fee fraction of the
    /// notional value.
    pub open spec fn spec_fee_cost(self) -> int {
        2 * (self.spec_bot_params().spec_notional() * self.fees / (SCALE as int))
    }
}

/// The fee cost of a round trip is non-negative and small compared with the
/// profit-and-loss bound.
pub proof fn lemma_fee_cost_range(p: SimulationParams)
    requires
        p.wf(),
    ensures
        0 <= p.spec_fee_cost() <= 2 * MAX_NOTIONAL,
{
    let bp = p.spec_bot_params();
    lemma_notional_range(bp);
    crate::fixed::lemma_frac_of_le(bp.spec_notional(), p.fees as int);
}

/// Computes the fee cost of one closed round trip.
pub fn fee_cost(p: &SimulationParams) -> (r: u64)
    requires
        p.wf(),
    ensures
        r == p.spec_fee_cost(),
{
    proof {
        lemma_notional_range(p.spec_bot_params());
        crate::fixed::lemma_frac_of_le(p.spec_bot_params().spec_notional(), p.fees as int);
    }
    let notional = mul_fp(p.amount, p.leverage);
    2 * mul_fp(notional, p.fees)
}

/// The observable state of a simulation: the two channels, the closed-trade
/// history and the realized total.
pub ghost struct SimView {
    pub long: Option<Trade>,
    pub short: Option<Trade>,
    pub closed: Seq<Trade>,
    pub total: int,
}

/// One channel's reaction to a price tick: if its trade must close, the
/// trade (stamped with the close price) moves into the history, the realized
/// net gain joins the total, and a fresh trade opens at the current price.
pub open spec fn spec_channel_step(
    v: SimView,
    is_long: bool,
    price: u64,
    now: i64,
    p: SimulationParams,
) -> SimView {
    let cur = if is_long {
        v.long
    } else {
        v.short
    };
    match cur {
        Option::Some(t) => {
            if spec_check_should_close(t, price, now, p.timeout_sec) is Some {
                let net = spec_gross_pnl(t, price) - p.spec_fee_cost();
                let fresh = spec_new_trade(is_long, price, p.spec_bot_params(), now);
                if is_long {
                    SimView {
                        long: Option::Some(fresh),
                        closed: v.closed.push(t.closed_at(price)),
                        total: v.total + net,
                        ..v
                    }
                } else {
                    SimView {
                        short: Option::Some(fresh),
                        closed: v.closed.push(t.closed_at(price)),
                        total: v.total + net,
                        ..v
                    }
                }
            } else {
                v
            }
        },
        Option::None => v,
    }
}

/// A full tick: the long channel reacts first, then the short channel.
pub open spec fn spec_step(v: SimView, price: u64, now: i64, p: SimulationParams) -> SimView {
    spec_channel_step(spec_channel_step(v, true, price, now, p), false, price, now, p)
}

/// The simulated trading framework: its parameters, the two always-open
/// channels, and the realized history.
#[derive(Debug)]
pub struct TestTradingFramework {
    pub params: SimulationParams,
    pub long_trade: Option<Trade>,
    pub short_trade: Option<Trade>,
    pub closed_trades: Vec<Trade>,
    pub total_pnl: i128,
}

impl View for TestTradingFramework {
    type V = SimView;

    open spec fn view(&self) -> SimView {
        SimView {
            long: self.long_trade,
            short: self.short_trade,
            closed: self.closed_trades@,
            total: self.total_pnl as int,
        }
    }
}

impl TestTradingFramework {
    /// The framework invariant: parameters in range; each open channel holds
    /// a well-formed open trade of its own direction; every trade in the
    /// history is well formed and closed — a trade's close price is set if
    /// and only if the trade sits in the history; and the running total is
    /// bounded by what the closed trades can have contributed.
    pub open spec fn wf(self) -> bool {
        &&& self.params.wf()
        &&& match self.long_trade {
            Option::Some(t) => t.wf() && t.is_open() && t.direction
                == crate::position::Direction::Long,
            Option::None => true,
        }
        &&& match self.short_trade {
            Option::Some(t) => t.wf() && t.is_open() && t.direction
                == crate::position::Direction::Short,
            Option::None => true,
        }
        &&& forall|i: int|
            0 <= i < self.closed_trades@.len() ==> (#[trigger] self.closed_trades@[i]).wf()
                && self.closed_trades@[i].is_closed()
        &&& self.closed_trades@.len() <= MAX_CLOSED
        &&& -(self.closed_trades@.len() as int) * NET_BOUND <= self.total_pnl as int <= (
        self.closed_trades@.len() as int) * NET_BOUND
    }

    /// A fresh framework with the given parameters and nothing open.
    pub fn new(params: SimulationParams) -> (r: TestTradingFramework)
        requires
            params.wf(),
        ensures
            r.wf(),
            r.params == params,
            r.long_trade is None,
            r.short_trade is None,
            r.closed_trades@ =~= Seq::<Trade>::empty(),
            r.total_pnl == 0,
    {
        TestTradingFramework {
            params,
            long_trade: Option::None,
            short_trade: Option::None,
            closed_trades: Vec::new(),
            total_pnl: 0,
        }
    }

    /// Opens the initial long and short trades, both at `price` and time
    /// `now`.
    pub fn open_initial_trades(&mut self, price: u64, now: i64)
        requires
            old(self).wf(),
            old(self).long_trade is None,
            old(self).short_trade is None,
            MIN_PRICE <= price <= MAX_PRICE,
            0 <= now,
        ensures
            final(self).wf(),
            final(self).long_trade == Option::Some(
                spec_new_trade(true, price, old(self).params.spec_bot_params(), now),
            ),
            final(self).short_trade == Option::Some(
                spec_new_trade(false, price, old(self).params.spec_bot_params(), now),
            ),
            final(self).params == old(self).params,
            final(self).closed_trades@ == old(self).closed_trades@,
            final(self).total_pnl == old(self).total_pnl,
    {
        let bp = BotParams {
            amount: self.params.amount,
            leverage: self.params.leverage,
            tp_percent: self.params.tp_percent,
            sl_percent: self.params.sl_percent,
        };
        self.long_trade = Option::Some(create_trade_at(true, price, &bp, now));
        self.short_trade = Option::Some(create_trade_at(false, price, &bp, now));
    }

    /// Reacts to one price tick at time `now`: each channel whose trade the
    /// exit rules close is realized into the history and immediately
    /// reopened at `price`. The closed-trade history only grows, and the
    /// entries already in it are never changed.
    pub fn on_price_update(&mut self, price: u64, now: i64)
        requires
            old(self).wf(),
            MIN_PRICE <= price <= MAX_PRICE,
            0 <= now,
            match old(self).long_trade {
                Option::Some(t) => t.entry_time <= now,
                Option::None => true,
            },
            match old(self).short_trade {
                Option::Some(t) => t.entry_time <= now,
                Option::None => true,
            },
            old(self).closed_trades@.len() + 2 <= MAX_CLOSED,
        ensures
            final(self).wf(),
            final(self)@ == spec_step(old(self)@, price, now, old(self).params),
            final(self).params == old(self).params,
            old(self).closed_trades@.len() <= final(self).closed_trades@.len(),
            forall|i: int|
                0 <= i < old(self).closed_trades@.len() ==> final(self).closed_trades@[i] == old(
                    self,
                ).closed_trades@[i],
    {
        let ghost v0 = self@;
        let ghost v1 = spec_channel_step(v0, true, price, now, self.params);
        proof {
            lemma_mul_inequality(
                self.closed_trades@.len() as int,
                MAX_CLOSED as int,
                NET_BOUND as int,
            );
        }
        let bp = BotParams {
            amount: self.params.amount,
            leverage: self.params.leverage,
            tp_percent: self.params.tp_percent,
            sl_percent: self.params.sl_percent,
        };
        let fees = fee_cost(&self.params);
        if let Option::Some(t) = self.long_trade {
            if check_should_close(&t, price, now, self.params.timeout_sec).is_some() {
                proof {
                    lemma_gross_pnl_bound(t, price);
                    lemma_fee_cost_range(self.params);
                }
                let pnl = gross_pnl(&t, price);
                let net: i128 = pnl - (fees as i128);
                let closed = Trade { close_price: Option::Some(price), ..t };
                self.closed_trades.push(closed);
                self.total_pnl = self.total_pnl + net;
                self.long_trade = Option::Some(create_trade_at(true, price, &bp, now));
            }
        }
        assert(self@ == v1);
        proof {
            lemma_mul_inequality(
                self.closed_trades@.len() as int,
                MAX_CLOSED as int,
                NET_BOUND as int,
            );
        }
        if let Option::Some(t) = self.short_trade {
            if check_should_close(&t, price, now, self.params.timeout_sec).is_some() {
                proof {
                    lemma_gross_pnl_bound(t, price);
                    lemma_fee_cost_range(self.params);
                }
                let pnl = gross_pnl(&t, price);
                let net: i128 = pnl - (fees as i128);
                let closed = Trade { close_price: Option::Some(price), ..t };
                self.closed_trades.push(closed);
                self.total_pnl = self.total_pnl + net;
                self.short_trade = Option::Some(create_trade_at(false, price, &bp, now));
            }
        }
        assert(self@ == spec_channel_step(v1, false, price, now, self.params));
    }
}

/// A trade's close price is set exactly when it sits in the closed history:
/// every trade in the history is closed, and an active channel trade is
/// still open.
pub proof fn lemma_close_price_iff_in_history(f: TestTradingFramework)
    requires
        f.wf(),
    ensures
        forall|i: int|
            0 <= i < f.closed_trades@.len() ==> (#[trigger] f.closed_trades@[i]).is_closed(),
        f.long_trade is Some ==> f.long_trade.unwrap().is_open(),
        f.short_trade is Some ==> f.short_trade.unwrap().is_open(),
{
}

} // verus!
