use dual_channel_bot::framework::{SimulationParams, TestTradingFramework};
use dual_channel_bot::position::Direction;
use dual_channel_bot::stats::compute_statistics;

fn params() -> SimulationParams {
    SimulationParams {
        amount: 10_000_000,
        leverage: 3_000_000,
        tp_percent: 20_000,
        sl_percent: 40_000,
        timeout_sec: 900,
        fees: 432,
    }
}

#[test]
fn initial_trades_open_both_channels() {
    let mut f = TestTradingFramework::new(params());
    assert!(f.long_trade.is_none() && f.short_trade.is_none());
    f.open_initial_trades(100_000_000, 1_000);
    let long = f.long_trade.expect("long channel open");
    let short = f.short_trade.expect("short channel open");
    assert_eq!(long.direction, Direction::Long);
    assert_eq!(short.direction, Direction::Short);
    assert_eq!(long.tp_price, 102_000_000);
    assert_eq!(long.sl_price, 96_000_000);
    assert_eq!(short.tp_price, 98_000_000);
    assert_eq!(short.sl_price, 104_000_000);
    assert!(f.closed_trades.is_empty());
}

#[test]
fn ticks_before_any_open_trade_do_nothing() {
    let mut f = TestTradingFramework::new(params());
    f.on_price_update(100_000_000, 1_000);
    assert!(f.long_trade.is_none() && f.short_trade.is_none());
    assert!(f.closed_trades.is_empty());
    assert_eq!(f.total_pnl, 0);
}

#[test]
fn neutral_tick_changes_nothing() {
    let mut f = TestTradingFramework::new(params());
    f.open_initial_trades(100_000_000, 1_000);
    f.on_price_update(100_500_000, 1_010);
    assert!(f.closed_trades.is_empty());
    assert_eq!(f.total_pnl, 0);
}

#[test]
fn take_profit_closes_and_reopens_the_long_channel() {
    let mut f = TestTradingFramework::new(params());
    f.open_initial_trades(100_000_000, 1_000);
    f.on_price_update(102_500_000, 1_010);
    // The long channel realized its take-profit and reopened at the new
    // price; the short channel was untouched.
    assert_eq!(f.closed_trades.len(), 1);
    let closed = &f.closed_trades[0];
    assert_eq!(closed.direction, Direction::Long);
    assert_eq!(closed.close_price, Some(102_500_000));
    assert_eq!(closed.entry_price, 100_000_000);
    let reopened = f.long_trade.expect("long channel reopened");
    assert_eq!(reopened.entry_price, 102_500_000);
    assert_eq!(reopened.entry_time, 1_010);
    assert!(reopened.close_price.is_none());
    let short = f.short_trade.expect("short channel untouched");
    assert_eq!(short.entry_price, 100_000_000);
    // 0.30 units over a 2.5 move is 0.75 gross; the flat fee rate of
    // 0.000432 on the 30.0 notional costs 0.01296 per leg.
    assert_eq!(f.total_pnl, 750_000 - 25_920);
}

#[test]
fn closed_history_only_grows() {
    let mut f = TestTradingFramework::new(params());
    f.open_initial_trades(100_000_000, 1_000);
    f.on_price_update(102_500_000, 1_010);
    let first = f.closed_trades[0].clone();
    // The short channel's stop-loss: both channels have now cycled once.
    f.on_price_update(104_200_000, 1_020);
    assert_eq!(f.closed_trades.len(), 2);
    assert_eq!(f.closed_trades[0].entry_price, first.entry_price);
    assert_eq!(f.closed_trades[0].close_price, first.close_price);
    assert_eq!(f.closed_trades[1].direction, Direction::Short);
}

#[test]
fn every_closed_trade_has_its_close_price() {
    let mut f = TestTradingFramework::new(params());
    f.open_initial_trades(100_000_000, 1_000);
    f.on_price_update(95_000_000, 1_010);
    f.on_price_update(103_000_000, 1_020);
    f.on_price_update(99_000_000, 2_920);
    for t in f.closed_trades.iter() {
        assert!(t.close_price.is_some());
    }
    assert!(f.long_trade.map(|t| t.close_price.is_none()).unwrap_or(true));
    assert!(f.short_trade.map(|t| t.close_price.is_none()).unwrap_or(true));
}

#[test]
fn timeout_cycles_both_channels() {
    let mut f = TestTradingFramework::new(params());
    f.open_initial_trades(100_000_000, 1_000);
    // Far past the timeout at an in-band price: both channels cycle.
    f.on_price_update(100_500_000, 2_000);
    assert_eq!(f.closed_trades.len(), 2);
    assert_eq!(f.long_trade.unwrap().entry_time, 2_000);
    assert_eq!(f.short_trade.unwrap().entry_time, 2_000);
}

#[test]
fn statistics_add_up() {
    let mut f = TestTradingFramework::new(params());
    f.open_initial_trades(100_000_000, 1_000);
    f.on_price_update(102_500_000, 1_010);
    f.on_price_update(104_200_000, 1_020);
    let stats = compute_statistics(&f.closed_trades);
    assert_eq!(stats.total_trades, 2);
    assert_eq!(stats.profitable_trades + stats.loss_trades, 2);
    assert_eq!(stats.total_pnl, stats.total_profit + stats.total_loss);
    // The long take-profit leg: 0.30 units over 2.5.
    assert_eq!(stats.total_profit, 750_000);
}
