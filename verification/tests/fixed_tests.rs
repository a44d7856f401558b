use dual_channel_bot::fixed::{get_price, get_size, mul_fp};

#[test]
fn products_scale_back_into_units() {
    // 1.5 * 2.0 = 3.0.
    assert_eq!(mul_fp(1_500_000, 2_000_000), 3_000_000);
    assert_eq!(mul_fp(0, 2_000_000), 0);
}

#[test]
fn prices_round_to_the_tick() {
    // 27.6534 at a tick of 0.001 rounds down, 27.6535 rounds up.
    assert_eq!(get_price(27_653_400, 1_000), 27_653_000);
    assert_eq!(get_price(27_653_500, 1_000), 27_654_000);
    assert_eq!(get_price(27_653_600, 1_000), 27_654_000);
}

#[test]
fn sizes_round_to_two_decimals() {
    // A 30.0 notional at price 100.0 buys 0.30 units.
    assert_eq!(get_size(30_000_000, 100_000_000), 300_000);
    // A 10.0 notional at price 3.0 buys 3.33 units.
    assert_eq!(get_size(10_000_000, 3_000_000), 3_330_000);
}
