//! The VWAP-crossover bot: a single position at a time, entered on a
//! crossover of the five-minute volume-weighted average price over the
//! hourly one, sized from the current capital and a per-trade risk
//! fraction, and exited on the configured stop-loss / take-profit levels
//! with taker/maker fee accounting.

use vstd::prelude::*;
use vstd::arithmetic::div_mod::{
    lemma_div_is_ordered, lemma_div_is_ordered_by_denominator, lemma_fundamental_div_mod,
};
use vstd::arithmetic::mul::{lemma_mul_inequality, lemma_mul_nonnegative};
use crate::evaluator::{stop_loss_hit, take_profit_hit};
use crate::fixed::{
    lemma_frac_of_le, ratio_gt, MAX_NOTIONAL, MAX_PRICE, MAX_SIZE, MIN_PRICE, SCALE,
};
use crate::framework::{MAX_CLOSED, NET_BOUND};
use crate::lifecycle::{
    accepted, gross_pnl, lemma_gross_pnl_bound, spec_fee, spec_gross_pnl, trade_fees, OrderStatus,
};
use crate::position::{
    spec_sl_price, spec_tp_price, Direction, Trade, MAX_AMOUNT, MAX_LEVERAGE,
};
use crate::vwap::{spec_sum_pv, spec_sum_v, CandleWindow, MAX_VOLUME, MAX_WINDOW};

verus! {

/// Maker-order fee rate, in `SCALE`-ths: one hundredth of a percent.
pub const MAKER_FEE: u64 = 100;

/// Taker-order fee rate, in `SCALE`-ths.
pub const TAKER_FEE: u64 = 340;

/// The candle timeframes the bot subscribes to.
#[derive(Clone, Copy, Debug, PartialEq, Eq, Structural)]
pub enum CandleInterval {
    Hourly,
    FiveMin,
}

/// The exact comparison `vwap(a) > vwap(b)` over the two windows' update
/// sums, with an empty-volume window counting as average zero: when both
/// sides have volume the two quotients are compared as exact rationals by
/// cross-multiplication.
pub open spec fn spec_vwap_gt(a: Seq<(u64, u64)>, b: Seq<(u64, u64)>) -> bool {
    if spec_sum_v(a) <= 0 {
        false
    } else if spec_sum_v(b) <= 0 {
        spec_sum_pv(a) > 0
    } else {
        spec_sum_pv(a) * spec_sum_v(b) > spec_sum_pv(b) * spec_sum_v(a)
    }
}

/// Compares two windows' volume-weighted averages exactly.
pub fn vwap_gt(a: &CandleWindow, b: &CandleWindow) -> (r: bool)
    requires
        a.wf(),
        b.wf(),
    ensures
        r == spec_vwap_gt(a.candles@, b.candles@),
{
    let (apv, av) = a.sums();
    let (bpv, bv) = b.sums();
    if av == 0 {
        false
    } else if bv == 0 {
        apv > 0
    } else {
        ratio_gt(apv, av, bpv, bv)
    }
}

/// The total size on one side of the order book.
pub fn volume_sum(levels: &Vec<(u64, u64)>) -> (r: u128)
    requires
        forall|j: int| 0 <= j < levels@.len() ==> (#[trigger] levels@[j]).1 <= MAX_VOLUME,
        levels@.len() <= MAX_WINDOW,
    ensures
        r == spec_sum_v(levels@),
        r <= (MAX_WINDOW as int) * (MAX_VOLUME as int),
{
    let n = levels.len();
    let mut v: u128 = 0;
    let mut j: usize = 0;
    proof {
        assert(levels@.take(0) =~= Seq::<(u64, u64)>::empty());
    }
    while j < n
        invariant
            n == levels@.len() <= MAX_WINDOW,
            forall|k: int| 0 <= k < n ==> (#[trigger] levels@[k]).1 <= MAX_VOLUME,
            0 <= j <= n,
            v == spec_sum_v(levels@.take(j as int)),
            v <= (j as int) * (MAX_VOLUME as int),
        decreases n - j,
    {
        proof {
            let t1 = levels@.take(j + 1);
            assert(t1.drop_last() =~= levels@.take(j as int));
            assert(t1.last() == levels@[j as int]);
            lemma_mul_inequality(j as int, MAX_WINDOW as int, MAX_VOLUME as int);
        }
        v = v + (levels[j].1 as u128);
        j = j + 1;
    }
    proof {
        assert(levels@.take(n as int) =~= levels@);
        lemma_mul_inequality(n as int, MAX_WINDOW as int, MAX_VOLUME as int);
    }
    v
}

/// The order-flow imbalance of one book snapshot, in `SCALE`-ths of one:
/// the bid volume minus the ask volume over their sum, truncated toward
/// zero, and zero for an empty book.
pub open spec fn spec_imbalance(bids: Seq<(u64, u64)>, asks: Seq<(u64, u64)>) -> int {
    let b = spec_sum_v(bids);
    let a = spec_sum_v(asks);
    if a + b == 0 {
        0
    } else if b >= a {
        (b - a) * (SCALE as int) / (a + b)
    } else {
        -((a - b) * (SCALE as int) / (a + b))
    }
}

/// Computes the order-flow imbalance of a book snapshot of bid and ask
/// levels (each a price and a size).
pub fn calculate_order_flow_imbalance(bids: &Vec<(u64, u64)>, asks: &Vec<(u64, u64)>) -> (r: i64)
    requires
        forall|j: int| 0 <= j < bids@.len() ==> (#[trigger] bids@[j]).1 <= MAX_VOLUME,
        forall|j: int| 0 <= j < asks@.len() ==> (#[trigger] asks@[j]).1 <= MAX_VOLUME,
        bids@.len() <= MAX_WINDOW,
        asks@.len() <= MAX_WINDOW,
    ensures
        r == spec_imbalance(bids@, asks@),
        -(SCALE as int) <= r <= SCALE,
{
    let b = volume_sum(bids);
    let a = volume_sum(asks);
    if a + b == 0 {
        return 0;
    }
    let (num, neg): (u128, bool) = if b >= a {
        (b - a, false)
    } else {
        (a - b, true)
    };
    proof {
        let d = num as int;
        let t = (a + b) as int;
        lemma_mul_nonnegative(d, SCALE as int);
        lemma_div_is_ordered(0, d * (SCALE as int), t);
        lemma_mul_inequality(d, t, SCALE as int);
        lemma_div_is_ordered(d * (SCALE as int), t * (SCALE as int), t);
        assert(t * (SCALE as int) / t == SCALE) by {
            vstd::arithmetic::div_mod::lemma_div_multiples_vanish(SCALE as int, t);
        };
    }
    let q = (num * (SCALE as u128)) / (a + b);
    if neg {
        -(q as i64)
    } else {
        q as i64
    }
}

/// The position size that risks `risk_per_trade` of `capital` with
/// `leverage` at `entry_price`: the levered risk amount divided by the
/// price, all truncated fixed-point steps.
pub open spec fn spec_position_size(
    capital: int,
    risk_per_trade: int,
    leverage: int,
    entry_price: int,
) -> int {
    let risk_amount = capital * risk_per_trade / (SCALE as int);
    let position_value = risk_amount * leverage / (SCALE as int);
    position_value * (SCALE as int) / entry_price
}

/// Within the admitted ranges, a position size is at most `MAX_SIZE` and
/// its notional value at the entry price is at most `MAX_NOTIONAL`.
pub proof fn lemma_position_size_range(
    capital: int,
    risk_per_trade: int,
    leverage: int,
    entry_price: int,
)
    requires
        0 <= capital <= MAX_AMOUNT,
        0 <= risk_per_trade <= SCALE,
        0 <= leverage <= MAX_LEVERAGE,
        MIN_PRICE <= entry_price,
    ensures
        0 <= spec_position_size(capital, risk_per_trade, leverage, entry_price) <= MAX_SIZE,
        entry_price * spec_position_size(capital, risk_per_trade, leverage, entry_price) / (
        SCALE as int) <= MAX_NOTIONAL,
        0 <= capital * risk_per_trade / (SCALE as int) <= MAX_AMOUNT,
        0 <= (capital * risk_per_trade / (SCALE as int)) * leverage / (SCALE as int)
            <= MAX_NOTIONAL,
{
    let s = SCALE as int;
    let risk_amount = capital * risk_per_trade / s;
    let position_value = risk_amount * leverage / s;
    let size = position_value * s / entry_price;
    lemma_frac_of_le(capital, risk_per_trade);
    lemma_mul_nonnegative(risk_amount, leverage);
    lemma_div_is_ordered(0, risk_amount * leverage, s);
    lemma_mul_inequality(risk_amount, MAX_AMOUNT as int, leverage);
    lemma_mul_inequality(leverage, MAX_LEVERAGE as int, MAX_AMOUNT as int);
    lemma_div_is_ordered(risk_amount * leverage, (MAX_AMOUNT as int) * (MAX_LEVERAGE as int), s);
    assert(position_value <= MAX_NOTIONAL);
    lemma_mul_nonnegative(position_value, s);
    lemma_div_is_ordered(0, position_value * s, entry_price);
    lemma_mul_inequality(position_value, MAX_NOTIONAL as int, s);
    lemma_div_is_ordered(position_value * s, (MAX_NOTIONAL as int) * s, entry_price);
    lemma_div_is_ordered_by_denominator((MAX_NOTIONAL as int) * s, MIN_PRICE as int, entry_price);
    // The notional bought back at the entry price cannot exceed the levered
    // risk value the size was derived from.
    lemma_fundamental_div_mod(position_value * s, entry_price);
    assert(entry_price * size <= position_value * s) by (nonlinear_arith)
        requires
            position_value * s == entry_price * size + (position_value * s) % entry_price && 0 <= (
            position_value * s) % entry_price,
    ;
    lemma_div_is_ordered(entry_price * size, position_value * s, s);
    vstd::arithmetic::div_mod::lemma_div_multiples_vanish(position_value, s);
    assert(position_value * s == s * position_value) by (nonlinear_arith);
}

/// The trade the bot enters at `price` and time `now` in the given
/// direction: levels from the risk fractions, size from the current capital.
pub open spec fn spec_entry_trade(
    is_long: bool,
    price: u64,
    now: i64,
    capital: int,
    risk_per_trade: u64,
    leverage: u64,
    stop_loss: u64,
    take_profit: u64,
) -> Trade {
    Trade {
        direction: if is_long {
            Direction::Long
        } else {
            Direction::Short
        },
        entry_price: price,
        entry_time: now,
        size: spec_position_size(
            capital,
            risk_per_trade as int,
            leverage as int,
            price as int,
        ) as u64,
        tp_price: spec_tp_price(is_long, price as int, take_profit as int) as u64,
        sl_price: spec_sl_price(is_long, price as int, stop_loss as int) as u64,
        close_price: Option::None,
    }
}

/// The VWAP-crossover bot's state: configuration, running capital, the one
/// open trade if any, the closed-trade history, the two candle windows and
/// the net position reported by fills.
#[derive(Debug)]
pub struct OrderFlowTradingBot {
    pub initial_capital: u64,
    pub capital: i128,
    pub risk_per_trade: u64,
    pub leverage: u64,
    pub stop_loss: u64,
    pub take_profit: u64,
    pub hourly_periods: usize,
    pub five_min_periods: usize,
    pub current_position: i128,
    pub latest_mid_price: Option<u64>,
    pub current_trade: Option<Trade>,
    pub closed_trades: Vec<Trade>,
    pub hourly: CandleWindow,
    pub five_min: CandleWindow,
}

impl OrderFlowTradingBot {
    /// The bot invariant: configuration in range, well-formed windows, a
    /// well-formed open trade with bounded notional if one is held, a
    /// history of well-formed closed trades, and the capital within what
    /// the closed trades can have moved it from the initial capital.
    pub open spec fn wf(self) -> bool {
        &&& self.initial_capital <= MAX_AMOUNT
        &&& self.risk_per_trade <= SCALE
        &&& self.leverage <= MAX_LEVERAGE
        &&& self.stop_loss <= SCALE
        &&& self.take_profit <= SCALE
        &&& self.hourly.wf()
        &&& self.five_min.wf()
        &&& match self.latest_mid_price {
            Option::Some(p) => MIN_PRICE <= p <= MAX_PRICE,
            Option::None => true,
        }
        &&& match self.current_trade {
            Option::Some(t) => t.wf() && t.is_open() && t.entry_price * t.size / (SCALE as int)
                <= MAX_NOTIONAL,
            Option::None => true,
        }
        &&& forall|i: int|
            0 <= i < self.closed_trades@.len() ==> (#[trigger] self.closed_trades@[i]).wf()
                && self.closed_trades@[i].is_closed()
        &&& self.closed_trades@.len() <= MAX_CLOSED
        &&& self.initial_capital - (self.closed_trades@.len() as int) * NET_BOUND
            <= self.capital as int <= self.initial_capital + (self.closed_trades@.len() as int)
            * NET_BOUND
    }

    /// A fresh bot with the given configuration, full capital, no trade,
    /// and empty candle windows of the given capacities.
    pub fn new(
        capital: u64,
        risk_per_trade: u64,
        leverage: u64,
        stop_loss: u64,
        take_profit: u64,
        hourly_periods: usize,
        five_min_periods: usize,
    ) -> (r: OrderFlowTradingBot)
        requires
            capital <= MAX_AMOUNT,
            risk_per_trade <= SCALE,
            leverage <= MAX_LEVERAGE,
            stop_loss <= SCALE,
            take_profit <= SCALE,
            1 <= hourly_periods,
            hourly_periods * 2 <= MAX_WINDOW,
            1 <= five_min_periods,
            five_min_periods * 2 <= MAX_WINDOW,
        ensures
            r.wf(),
            r.initial_capital == capital,
            r.capital == capital as i128,
            r.current_trade is None,
            r.closed_trades@ =~= Seq::<Trade>::empty(),
            r.hourly_periods == hourly_periods,
            r.five_min_periods == five_min_periods,
            (r.latest_mid_price is None),
            r.hourly.candles@ =~= Seq::<(u64, u64)>::empty(),
            r.five_min.candles@ =~= Seq::<(u64, u64)>::empty(),
    {
        OrderFlowTradingBot {
            initial_capital: capital,
            capital: capital as i128,
            risk_per_trade,
            leverage,
            stop_loss,
            take_profit,
            hourly_periods,
            five_min_periods,
            current_position: 0,
            latest_mid_price: Option::None,
            current_trade: Option::None,
            closed_trades: Vec::new(),
            hourly: CandleWindow::new(hourly_periods * 2),
            five_min: CandleWindow::new(five_min_periods * 2),
        }
    }

    /// The size the bot would enter with at `entry_price`, from the current
    /// capital, risk fraction and leverage.
    pub fn calculate_position_size(&self, entry_price: u64) -> (r: u64)
        requires
            self.wf(),
            0 <= self.capital <= MAX_AMOUNT,
            MIN_PRICE <= entry_price,
        ensures
            r == spec_position_size(
                self.capital as int,
                self.risk_per_trade as int,
                self.leverage as int,
                entry_price as int,
            ),
    {
        proof {
            lemma_position_size_range(
                self.capital as int,
                self.risk_per_trade as int,
                self.leverage as int,
                entry_price as int,
            );
            lemma_frac_of_le(self.capital as int, self.risk_per_trade as int);
            lemma_mul_nonnegative(
                (self.capital as int) * (self.risk_per_trade as int) / (SCALE as int),
                self.leverage as int,
            );
        }
        let risk_amount: u128 = ((self.capital as u128) * (self.risk_per_trade as u128)) / (
        SCALE as u128);
        assert(risk_amount * (self.leverage as u128) <= u128::MAX) by (nonlinear_arith)
            requires
                0 <= risk_amount <= MAX_AMOUNT && self.leverage <= MAX_LEVERAGE,
        ;
        let position_value: u128 = (risk_amount * (self.leverage as u128)) / (SCALE as u128);
        assert(position_value * (SCALE as u128) <= u128::MAX) by (nonlinear_arith)
            requires
                0 <= position_value <= MAX_NOTIONAL && SCALE == 1_000_000,
        ;
        ((position_value * (SCALE as u128)) / (entry_price as u128)) as u64
    }

    /// Offers one closed candle to the window of its timeframe, discarding
    /// stale or duplicate timestamps; reports whether the candle was fresh.
    pub fn process_candle(&mut self, interval: CandleInterval, price: u64, volume: u64, ts: i64)
        -> (fresh: bool)
        requires
            old(self).wf(),
            price <= MAX_PRICE,
            volume <= MAX_VOLUME,
        ensures
            final(self).wf(),
            interval is Hourly ==> final(self).five_min == old(self).five_min && fresh == (ts > old(
                self,
            ).hourly.last_ts),
            interval is FiveMin ==> final(self).hourly == old(self).hourly && fresh == (ts > old(
                self,
            ).five_min.last_ts),
            *final(self) == (OrderFlowTradingBot {
                hourly: final(self).hourly,
                five_min: final(self).five_min,
                ..*old(self)
            }),
    {
        match interval {
            CandleInterval::Hourly => self.hourly.push_candle(price, volume, ts),
            CandleInterval::FiveMin => self.five_min.push_candle(price, volume, ts),
        }
    }

    /// The crossover signal, once both windows hold a full period of
    /// candles: long when the five-minute average is strictly above the
    /// hourly one, short when strictly below, nothing on a tie or while
    /// the windows are still filling.
    pub fn generate_trading_signal(&self) -> (r: Option<Direction>)
        requires
            self.wf(),
        ensures
            r == self.spec_signal(),
    {
        if self.hourly.len() < self.hourly_periods || self.five_min.len() < self.five_min_periods {
            return Option::None;
        }
        if vwap_gt(&self.five_min, &self.hourly) {
            Option::Some(Direction::Long)
        } else if vwap_gt(&self.hourly, &self.five_min) {
            Option::Some(Direction::Short)
        } else {
            Option::None
        }
    }

    /// The signal `generate_trading_signal` answers.
    pub open spec fn spec_signal(self) -> Option<Direction> {
        if self.hourly.candles@.len() < self.hourly_periods || self.five_min.candles@.len()
            < self.five_min_periods {
            Option::None
        } else if spec_vwap_gt(self.five_min.candles@, self.hourly.candles@) {
            Option::Some(Direction::Long)
        } else if spec_vwap_gt(self.hourly.candles@, self.five_min.candles@) {
            Option::Some(Direction::Short)
        } else {
            Option::None
        }
    }

    /// Records the trade entered at `price` and time `now` if the gateway
    /// accepted the entry order; a rejected order leaves the bot unchanged.
    pub fn enter_trade(&mut self, is_long: bool, price: u64, now: i64, status: OrderStatus)
        requires
            old(self).wf(),
            old(self).current_trade is None,
            0 <= old(self).capital <= MAX_AMOUNT,
            MIN_PRICE <= price <= MAX_PRICE,
            0 <= now,
        ensures
            final(self).wf(),
            accepted(status) ==> final(self).current_trade == Option::Some(
                spec_entry_trade(
                    is_long,
                    price,
                    now,
                    old(self).capital as int,
                    old(self).risk_per_trade,
                    old(self).leverage,
                    old(self).stop_loss,
                    old(self).take_profit,
                ),
            ),
            !accepted(status) ==> (final(self).current_trade is None),
            *final(self) == (OrderFlowTradingBot {
                current_trade: final(self).current_trade,
                ..*old(self)
            }),
    {
        proof {
            lemma_position_size_range(
                self.capital as int,
                self.risk_per_trade as int,
                self.leverage as int,
                price as int,
            );
            lemma_frac_of_le(price as int, self.take_profit as int);
            lemma_frac_of_le(price as int, self.stop_loss as int);
        }
        let size = self.calculate_position_size(price);
        let tp_delta = crate::fixed::mul_fp(price, self.take_profit);
        let sl_delta = crate::fixed::mul_fp(price, self.stop_loss);
        let trade = Trade {
            direction: if is_long {
                Direction::Long
            } else {
                Direction::Short
            },
            entry_price: price,
            entry_time: now,
            size,
            tp_price: if is_long {
                price + tp_delta
            } else {
                price - tp_delta
            },
            sl_price: if is_long {
                price - sl_delta
            } else {
                price + sl_delta
            },
            close_price: Option::None,
        };
        match status {
            OrderStatus::Filled | OrderStatus::Resting => {
                self.current_trade = Option::Some(trade);
            },
            OrderStatus::Rejected => {},
        }
    }

    /// Closes the open trade at `exit_price` if the offsetting order was
    /// accepted: the trade moves into the history with its close price set,
    /// and the capital gains the realized profit or loss minus the taker
    /// entry fee and maker exit fee. A rejected order, or no open trade,
    /// leaves the bot unchanged.
    pub fn exit_trade(&mut self, exit_price: u64, status: OrderStatus)
        requires
            old(self).wf(),
            MIN_PRICE <= exit_price <= MAX_PRICE,
            old(self).closed_trades@.len() + 1 <= MAX_CLOSED,
            match old(self).current_trade {
                Option::Some(t) => exit_price * t.size / (SCALE as int) <= MAX_NOTIONAL,
                Option::None => true,
            },
        ensures
            final(self).wf(),
            match old(self).current_trade {
                Option::Some(t) => {
                    if accepted(status) {
                        &&& final(self).current_trade is None
                        &&& final(self).closed_trades@ == old(self).closed_trades@.push(
                            t.closed_at(exit_price),
                        )
                        &&& final(self).capital == old(self).capital + spec_gross_pnl(
                            t,
                            exit_price,
                        ) - spec_fee(t.entry_price as int, t.size as int, TAKER_FEE as int)
                            - spec_fee(exit_price as int, t.size as int, MAKER_FEE as int)
                        &&& *final(self) == (OrderFlowTradingBot {
                            current_trade: final(self).current_trade,
                            closed_trades: final(self).closed_trades,
                            capital: final(self).capital,
                            ..*old(self)
                        })
                    } else {
                        *final(self) == *old(self)
                    }
                },
                Option::None => *final(self) == *old(self),
            },
    {
        proof {
            lemma_mul_inequality(
                self.closed_trades@.len() as int,
                MAX_CLOSED as int,
                NET_BOUND as int,
            );
        }
        if let Option::Some(trade) = self.current_trade {
            match status {
                OrderStatus::Filled | OrderStatus::Resting => {
                    proof {
                        lemma_gross_pnl_bound(trade, exit_price);
                        crate::lifecycle::lemma_fee_range(
                            trade.entry_price as int,
                            trade.size as int,
                            TAKER_FEE as int,
                        );
                        crate::lifecycle::lemma_fee_range(
                            exit_price as int,
                            trade.size as int,
                            MAKER_FEE as int,
                        );
                    }
                    let pnl = gross_pnl(&trade, exit_price);
                    let fees = trade_fees(
                        trade.entry_price,
                        exit_price,
                        trade.size,
                        TAKER_FEE,
                        MAKER_FEE,
                    );
                    let closed = Trade { close_price: Option::Some(exit_price), ..trade };
                    self.capital = self.capital + pnl - (fees as i128);
                    self.current_trade = Option::None;
                    self.closed_trades.push(closed);
                },
                OrderStatus::Rejected => {},
            }
        }
    }

    /// Whether the open trade's stop-loss or take-profit level is hit at
    /// `price`, so that an exit is due.
    pub fn check_stop_loss_take_profit(&self, price: u64) -> (r: bool)
        requires
            self.wf(),
        ensures
            r == match self.current_trade {
                Option::Some(t) => stop_loss_hit(t, price) || take_profit_hit(t, price),
                Option::None => false,
            },
    {
        match &self.current_trade {
            Option::Some(t) => {
                let sl = match t.direction {
                    Direction::Long => price <= t.sl_price,
                    Direction::Short => price >= t.sl_price,
                };
                let tp = match t.direction {
                    Direction::Long => price >= t.tp_price,
                    Direction::Short => price <= t.tp_price,
                };
                sl || tp
            },
            Option::None => false,
        }
    }

    /// Folds one fill event into the net position: a buy adds its size,
    /// a sell subtracts it.
    pub fn on_fill(&mut self, is_buy: bool, amount: u64)
        requires
            old(self).wf(),
            i128::MIN + amount <= old(self).current_position <= i128::MAX - amount,
        ensures
            final(self).wf(),
            is_buy ==> final(self).current_position == old(self).current_position + amount,
            !is_buy ==> final(self).current_position == old(self).current_position - amount,
            *final(self) == (OrderFlowTradingBot {
                current_position: final(self).current_position,
                ..*old(self)
            }),
    {
        if is_buy {
            self.current_position = self.current_position + (amount as i128);
        } else {
            self.current_position = self.current_position - (amount as i128);
        }
    }

    /// Reacts to one feed message: a mid-price update refreshes the latest
    /// price and asks for an exit order when the open trade's stop-loss or
    /// take-profit level is hit; a fill moves the net position; a fresh
    /// candle feeds its window and asks for an entry order when the
    /// crossover signal fires while no trade is open. The returned action
    /// is the order the event loop must hand to the gateway; the gateway's
    /// answer then drives `enter_trade` or `exit_trade`.
    pub fn on_event(&mut self, event: FeedEvent) -> (r: Option<BotAction>)
        requires
            old(self).wf(),
            match event {
                FeedEvent::MidPrice { price } => MIN_PRICE <= price <= MAX_PRICE,
                FeedEvent::Fill { is_buy, amount } => i128::MIN + amount <= old(
                    self,
                ).current_position <= i128::MAX - amount,
                FeedEvent::Candle { interval, close, volume, ts } => close <= MAX_PRICE && volume
                    <= MAX_VOLUME,
            },
        ensures
            final(self).wf(),
            match event {
                FeedEvent::MidPrice { price } => {
                    &&& *final(self) == (OrderFlowTradingBot {
                        latest_mid_price: Option::Some(price),
                        ..*old(self)
                    })
                    &&& r == (match old(self).current_trade {
                        Option::Some(t) => {
                            if stop_loss_hit(t, price) || take_profit_hit(t, price) {
                                Option::Some(BotAction::Exit { price })
                            } else {
                                Option::<BotAction>::None
                            }
                        },
                        Option::None => Option::<BotAction>::None,
                    })
                },
                FeedEvent::Fill { is_buy, amount } => {
                    &&& *final(self) == (OrderFlowTradingBot {
                        current_position: final(self).current_position,
                        ..*old(self)
                    })
                    &&& final(self).current_position == if is_buy {
                        old(self).current_position + amount
                    } else {
                        old(self).current_position - amount
                    }
                    &&& r is None
                },
                FeedEvent::Candle { interval, close, volume, ts } => {
                    let fresh = if interval is Hourly {
                        ts > old(self).hourly.last_ts
                    } else {
                        ts > old(self).five_min.last_ts
                    };
                    &&& *final(self) == (OrderFlowTradingBot {
                        hourly: final(self).hourly,
                        five_min: final(self).five_min,
                        ..*old(self)
                    })
                    &&& (interval is Hourly ==> final(self).five_min == old(self).five_min)
                    &&& (interval is FiveMin ==> final(self).hourly == old(self).hourly)
                    &&& r == (if fresh && old(self).current_trade is None && old(
                        self,
                    ).latest_mid_price is Some && final(self).spec_signal() is Some {
                        Option::Some(
                            BotAction::Enter {
                                direction: final(self).spec_signal().unwrap(),
                                price: old(self).latest_mid_price.unwrap(),
                            },
                        )
                    } else {
                        Option::<BotAction>::None
                    })
                },
            },
    {
        match event {
            FeedEvent::MidPrice { price } => {
                self.latest_mid_price = Option::Some(price);
                if self.check_stop_loss_take_profit(price) {
                    Option::Some(BotAction::Exit { price })
                } else {
                    Option::None
                }
            },
            FeedEvent::Fill { is_buy, amount } => {
                self.on_fill(is_buy, amount);
                Option::None
            },
            FeedEvent::Candle { interval, close, volume, ts } => {
                let fresh = self.process_candle(interval, close, volume, ts);
                if fresh && self.current_trade.is_none() && self.latest_mid_price.is_some() {
                    match self.generate_trading_signal() {
                        Option::Some(direction) => {
                            let price = match self.latest_mid_price {
                                Option::Some(p) => p,
                                Option::None => 0,
                            };
                            Option::Some(BotAction::Enter { direction, price })
                        },
                        Option::None => Option::None,
                    }
                } else {
                    Option::None
                }
            },
        }
    }
}

/// One message from the market-data feed, reduced to the plain values the
/// bot decides on.
#[derive(Clone, Copy, Debug, PartialEq, Eq, Structural)]
pub enum FeedEvent {
    /// A new mid price for the traded asset.
    MidPrice { price: u64 },
    /// One of the bot's orders (partially) executed.
    Fill { is_buy: bool, amount: u64 },
    /// A closed candle of one timeframe.
    Candle { interval: CandleInterval, close: u64, volume: u64, ts: i64 },
}

/// The order the event loop must hand to the gateway next.
#[derive(Clone, Copy, Debug, PartialEq, Eq, Structural)]
pub enum BotAction {
    /// Close the open trade with an offsetting order at the price.
    Exit { price: u64 },
    /// Open a trade in the direction at the price.
    Enter { direction: Direction, price: u64 },
}

} // verus!
