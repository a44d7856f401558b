use dual_channel_bot::evaluator::{check_should_close, evaluate_exit, should_close_trade, CloseReason};
use dual_channel_bot::position::{create_trade_at, BotParams, Direction};

fn params() -> BotParams {
    BotParams { amount: 10_000_000, leverage: 3_000_000, tp_percent: 20_000, sl_percent: 40_000 }
}

#[test]
fn long_levels_from_percentages() {
    // Entry 100.0, take-profit 2%, stop-loss 4%.
    let t = create_trade_at(true, 100_000_000, &params(), 1_000);
    assert_eq!(t.direction, Direction::Long);
    assert_eq!(t.entry_price, 100_000_000);
    assert_eq!(t.entry_time, 1_000);
    assert_eq!(t.tp_price, 102_000_000);
    assert_eq!(t.sl_price, 96_000_000);
    assert!(t.close_price.is_none());
}

#[test]
fn short_levels_mirror_long_levels() {
    let t = create_trade_at(false, 100_000_000, &params(), 1_000);
    assert_eq!(t.direction, Direction::Short);
    assert_eq!(t.tp_price, 98_000_000);
    assert_eq!(t.sl_price, 104_000_000);
}

#[test]
fn size_covers_the_levered_notional() {
    // 10.0 capital at 3x over price 100.0 buys 0.30 units.
    let t = create_trade_at(true, 100_000_000, &params(), 0);
    assert_eq!(t.size, 300_000);
}

#[test]
fn take_profit_fires_above_the_level() {
    let t = create_trade_at(true, 100_000_000, &params(), 1_000);
    let r = check_should_close(&t, 102_500_000, 1_010, 900);
    assert_eq!(r, Some(CloseReason::TakeProfit));
}

#[test]
fn stop_loss_fires_below_the_level() {
    let t = create_trade_at(true, 100_000_000, &params(), 1_000);
    let r = check_should_close(&t, 95_000_000, 1_010, 900);
    assert_eq!(r, Some(CloseReason::StopLoss));
}

#[test]
fn timeout_fires_when_the_price_is_neutral() {
    let t = create_trade_at(true, 100_000_000, &params(), 1_000);
    let r = check_should_close(&t, 101_000_000, 1_900, 900);
    assert_eq!(r, Some(CloseReason::Timeout));
}

#[test]
fn neutral_price_before_timeout_keeps_the_trade() {
    let t = create_trade_at(true, 100_000_000, &params(), 1_000);
    let r = check_should_close(&t, 101_000_000, 1_010, 900);
    assert_eq!(r, None);
}

#[test]
fn stop_loss_takes_precedence_over_timeout() {
    // The price satisfies the stop-loss rule at the very moment the
    // timeout elapses: the answer is the stop-loss, never the timeout.
    let t = create_trade_at(true, 100_000_000, &params(), 1_000);
    let r = check_should_close(&t, 95_000_000, 1_900, 900);
    assert_eq!(r, Some(CloseReason::StopLoss));
    let r2 = evaluate_exit(&t, 95_000_000, 1_900, 450, 900);
    assert_eq!(r2, Some(CloseReason::StopLoss));
}

#[test]
fn short_trade_exits_mirror_the_long_rules() {
    let t = create_trade_at(false, 100_000_000, &params(), 1_000);
    assert_eq!(check_should_close(&t, 97_500_000, 1_010, 900), Some(CloseReason::TakeProfit));
    assert_eq!(check_should_close(&t, 105_000_000, 1_010, 900), Some(CloseReason::StopLoss));
    assert_eq!(check_should_close(&t, 100_000_000, 1_010, 900), None);
}

#[test]
fn mid_duration_profit_take_needs_profit() {
    let t = create_trade_at(true, 100_000_000, &params(), 1_000);
    // Past half the duration and in profit: the mid-duration rule fires.
    assert_eq!(evaluate_exit(&t, 101_000_000, 1_500, 450, 900), Some(CloseReason::MidCheckProfit));
    // Past half the duration but not in profit: nothing fires yet.
    assert_eq!(evaluate_exit(&t, 99_000_000, 1_500, 450, 900), None);
    // Not in profit at the full duration: the timeout fires.
    assert_eq!(evaluate_exit(&t, 99_000_000, 1_900, 450, 900), Some(CloseReason::Timeout));
}

#[test]
fn bare_decision_matches_the_reasoned_one() {
    let t = create_trade_at(true, 100_000_000, &params(), 1_000);
    assert!(should_close_trade(&t, 102_500_000, 1_010, 450, 900));
    assert!(!should_close_trade(&t, 101_000_000, 1_010, 450, 900));
}
