use dual_channel_bot::evaluator::CloseReason;
use dual_channel_bot::lifecycle::{gross_pnl, trade_fees, OrderStatus, TradingAccount};
use dual_channel_bot::orderflow::{
    calculate_order_flow_imbalance, BotAction, CandleInterval, FeedEvent, OrderFlowTradingBot,
};
use dual_channel_bot::position::{create_trade, create_trade_at, BotParams, Direction, Trade};

fn params() -> BotParams {
    BotParams { amount: 10_000_000, leverage: 3_000_000, tp_percent: 20_000, sl_percent: 40_000 }
}

fn long_unit_trade() -> Trade {
    Trade {
        direction: Direction::Long,
        entry_price: 100_000_000,
        entry_time: 0,
        size: 1_000_000,
        tp_price: 102_000_000,
        sl_price: 96_000_000,
        close_price: None,
    }
}

#[test]
fn gross_pnl_of_a_unit_long() {
    // Size 1.0, entry 100, exit 110: ten units of profit.
    let t = long_unit_trade();
    assert_eq!(gross_pnl(&t, 110_000_000), 10_000_000);
    assert_eq!(gross_pnl(&t, 90_000_000), -10_000_000);
}

#[test]
fn fees_of_a_closed_unit_long() {
    // Entry 100 with taker fee 0.00034 and exit 110 with maker fee 0.0001:
    // 0.034 + 0.011 = 0.045 in fees, so ten gross becomes 9.955 net.
    let fees = trade_fees(100_000_000, 110_000_000, 1_000_000, 340, 100);
    assert_eq!(fees, 45_000);
    let net = gross_pnl(&long_unit_trade(), 110_000_000) - fees as i128;
    assert_eq!(net, 9_955_000);
}

#[test]
fn short_pnl_inverts_the_sign() {
    let t = Trade { direction: Direction::Short, ..long_unit_trade() };
    assert_eq!(gross_pnl(&t, 110_000_000), -10_000_000);
    assert_eq!(gross_pnl(&t, 90_000_000), 10_000_000);
}

#[test]
fn accepted_open_records_the_position() {
    let mut acct = TradingAccount::new(true);
    let t = create_trade_at(true, 100_000_000, &params(), 5);
    acct.open_position(t, OrderStatus::Resting);
    assert!(acct.active_trade.is_some());
}

#[test]
fn rejected_open_records_nothing() {
    let mut acct = TradingAccount::new(true);
    let t = create_trade_at(true, 100_000_000, &params(), 5);
    acct.open_position(t, OrderStatus::Rejected);
    assert!(acct.active_trade.is_none());
}

#[test]
fn accepted_close_moves_the_trade_into_history() {
    let mut acct = TradingAccount::new(true);
    let t = create_trade_at(true, 100_000_000, &params(), 5);
    acct.open_position(t, OrderStatus::Filled);
    let mut total: i128 = 0;
    acct.close_position(102_500_000, OrderStatus::Filled, &mut total);
    assert!(acct.active_trade.is_none());
    assert_eq!(acct.closed_trades.len(), 1);
    assert_eq!(acct.closed_trades[0].close_price, Some(102_500_000));
    // Size 0.30 over a move of 2.5: 0.75 realized.
    assert_eq!(total, 750_000);
}

#[test]
fn rejected_close_changes_nothing() {
    let mut acct = TradingAccount::new(true);
    let t = create_trade_at(true, 100_000_000, &params(), 5);
    acct.open_position(t, OrderStatus::Filled);
    let mut total: i128 = 0;
    acct.close_position(102_500_000, OrderStatus::Rejected, &mut total);
    assert!(acct.active_trade.is_some());
    assert_eq!(acct.closed_trades.len(), 0);
    assert_eq!(total, 0);
}

#[test]
fn account_check_asks_the_evaluator() {
    let mut acct = TradingAccount::new(true);
    assert_eq!(acct.check_account_position(102_500_000, 10, 900), None);
    let t = create_trade_at(true, 100_000_000, &params(), 5);
    acct.open_position(t, OrderStatus::Filled);
    assert_eq!(acct.check_account_position(102_500_000, 10, 900), Some(CloseReason::TakeProfit));
    assert_eq!(acct.check_account_position(100_500_000, 10, 900), None);
}

#[test]
fn wall_clock_trade_is_stamped_with_a_real_time() {
    let t = create_trade(true, 100_000_000, &params());
    assert!(t.entry_time > 0);
    assert_eq!(t.tp_price, 102_000_000);
}

#[test]
fn orderflow_round_trip_updates_capital() {
    // Capital 100.0, full risk at 1x: the entry buys exactly 1.0 at 100.0.
    let mut bot = OrderFlowTradingBot::new(100_000_000, 1_000_000, 1_000_000, 40_000, 20_000, 1, 1);
    bot.enter_trade(true, 100_000_000, 50, OrderStatus::Filled);
    let t = bot.current_trade.expect("entry was accepted");
    assert_eq!(t.size, 1_000_000);
    assert_eq!(t.tp_price, 102_000_000);
    assert_eq!(t.sl_price, 96_000_000);
    assert!(bot.check_stop_loss_take_profit(102_500_000));
    assert!(!bot.check_stop_loss_take_profit(101_000_000));
    bot.exit_trade(110_000_000, OrderStatus::Filled);
    assert!(bot.current_trade.is_none());
    assert_eq!(bot.closed_trades.len(), 1);
    // 10.0 gross minus 0.045 in taker/maker fees.
    assert_eq!(bot.capital, 100_000_000 + 9_955_000);
}

#[test]
fn orderflow_signal_follows_the_crossover() {
    let mut bot = OrderFlowTradingBot::new(100_000_000, 1_000_000, 1_000_000, 40_000, 20_000, 1, 1);
    assert_eq!(bot.generate_trading_signal(), None);
    assert!(bot.process_candle(CandleInterval::Hourly, 100_000_000, 1_000_000, 10));
    assert!(bot.process_candle(CandleInterval::FiveMin, 200_000_000, 1_000_000, 10));
    assert_eq!(bot.generate_trading_signal(), Some(Direction::Long));
    // A later five-minute candle drags the short-term average below.
    assert!(bot.process_candle(CandleInterval::FiveMin, 10_000_000, 10_000_000, 20));
    assert_eq!(bot.generate_trading_signal(), Some(Direction::Short));
}

#[test]
fn orderflow_signal_is_none_on_a_tie() {
    let mut bot = OrderFlowTradingBot::new(100_000_000, 1_000_000, 1_000_000, 40_000, 20_000, 1, 1);
    bot.process_candle(CandleInterval::Hourly, 100_000_000, 1_000_000, 10);
    bot.process_candle(CandleInterval::FiveMin, 100_000_000, 2_000_000, 10);
    assert_eq!(bot.generate_trading_signal(), None);
}

#[test]
fn imbalance_weighs_bids_against_asks() {
    let bids = vec![(100_000_000u64, 3_000_000u64), (99_000_000, 3_000_000)];
    let asks = vec![(101_000_000u64, 2_000_000u64)];
    // (6 - 2) / (6 + 2) of one, in millionths.
    assert_eq!(calculate_order_flow_imbalance(&bids, &asks), 500_000);
    assert_eq!(calculate_order_flow_imbalance(&asks, &bids), -500_000);
    let empty: Vec<(u64, u64)> = Vec::new();
    assert_eq!(calculate_order_flow_imbalance(&empty, &empty), 0);
}

#[test]
fn feed_events_drive_the_bot() {
    let mut bot = OrderFlowTradingBot::new(100_000_000, 1_000_000, 1_000_000, 40_000, 20_000, 1, 1);
    // A mid price with no trade open asks for nothing.
    assert_eq!(bot.on_event(FeedEvent::MidPrice { price: 100_000_000 }), None);
    // One hourly candle alone leaves the short-timeframe window empty.
    let hourly = FeedEvent::Candle {
        interval: CandleInterval::Hourly,
        close: 100_000_000,
        volume: 1_000_000,
        ts: 10,
    };
    assert_eq!(bot.on_event(hourly), None);
    // The five-minute average crosses above: the loop is asked to enter long.
    let five_min = FeedEvent::Candle {
        interval: CandleInterval::FiveMin,
        close: 200_000_000,
        volume: 1_000_000,
        ts: 10,
    };
    assert_eq!(
        bot.on_event(five_min),
        Some(BotAction::Enter { direction: Direction::Long, price: 100_000_000 })
    );
    // The gateway accepted the entry; a price through the take-profit
    // level asks for the offsetting exit order.
    bot.enter_trade(true, 100_000_000, 50, OrderStatus::Filled);
    assert_eq!(
        bot.on_event(FeedEvent::MidPrice { price: 102_500_000 }),
        Some(BotAction::Exit { price: 102_500_000 })
    );
    // Fills only move the net position.
    assert_eq!(bot.on_event(FeedEvent::Fill { is_buy: true, amount: 1_000_000 }), None);
    assert_eq!(bot.current_position, 1_000_000);
}

#[test]
fn fills_move_the_net_position() {
    let mut bot = OrderFlowTradingBot::new(100_000_000, 1_000_000, 1_000_000, 40_000, 20_000, 1, 1);
    bot.on_fill(true, 2_000_000);
    bot.on_fill(false, 500_000);
    assert_eq!(bot.current_position, 1_500_000);
}
