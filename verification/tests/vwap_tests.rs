use dual_channel_bot::vwap::{CandleWindow, VWAP};

#[test]
fn value_is_zero_before_any_update() {
    let v = VWAP::new();
    assert_eq!(v.value(), 0);
}

#[test]
fn value_is_the_weighted_average_of_the_updates() {
    // 100.0 with volume 2.0 and 200.0 with volume 6.0 average to 175.0.
    let mut v = VWAP::new();
    v.update(100_000_000, 2_000_000);
    v.update(200_000_000, 6_000_000);
    assert_eq!(v.value(), 175_000_000);
    assert_eq!(v.count(), 2);
}

#[test]
fn value_is_zero_while_no_volume_was_observed() {
    let mut v = VWAP::new();
    v.update(100_000_000, 0);
    v.update(250_000_000, 0);
    assert_eq!(v.value(), 0);
}

#[test]
fn value_is_invariant_under_update_reordering() {
    let updates = [
        (100_000_000u64, 1_000_000u64),
        (105_000_000, 2_500_000),
        (99_000_000, 750_000),
        (101_250_000, 4_000_000),
    ];
    let mut a = VWAP::new();
    for (p, vol) in updates.iter() {
        a.update(*p, *vol);
    }
    let mut b = VWAP::new();
    for (p, vol) in updates.iter().rev() {
        b.update(*p, *vol);
    }
    assert_eq!(a.value(), b.value());
}

#[test]
fn window_filters_stale_and_duplicate_candles() {
    let mut w = CandleWindow::new(8);
    assert!(w.push_candle(100_000_000, 1_000_000, 10));
    assert!(!w.push_candle(105_000_000, 1_000_000, 10));
    assert!(!w.push_candle(105_000_000, 1_000_000, 9));
    assert_eq!(w.len(), 1);
    assert!(w.push_candle(105_000_000, 1_000_000, 11));
    assert_eq!(w.len(), 2);
}

#[test]
fn window_average_forgets_evicted_candles() {
    // Capacity two: the first candle is evicted, so only the last two
    // contribute to the average.
    let mut w = CandleWindow::new(2);
    w.push_candle(100_000_000, 1_000_000, 1);
    w.push_candle(200_000_000, 1_000_000, 2);
    w.push_candle(300_000_000, 1_000_000, 3);
    assert_eq!(w.len(), 2);
    assert_eq!(w.value(), 250_000_000);
}

#[test]
fn empty_window_has_value_zero() {
    let w = CandleWindow::new(4);
    assert_eq!(w.value(), 0);
}
