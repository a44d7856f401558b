use dual_channel_bot::caching::{
    encode_candle_line, encode_tick_line, parse_candle_line, parse_tick_line, CandleDataRecord,
    PriceTick, SerializableCandleData,
};
use dual_channel_bot::market_data::{should_flush, MarketDataError, MessageCounter};

#[test]
fn tick_line_has_the_cache_shape() {
    let t = PriceTick { timestamp: 1_700_000_000, price: 27_653_000 };
    let line = encode_tick_line(&t);
    assert_eq!(line, b"{\"timestamp\":1700000000,\"price\":27.653000}".to_vec());
}

#[test]
fn tick_round_trip_keeps_the_price() {
    let t = PriceTick { timestamp: 1_700_000_000, price: 27_653_123 };
    let line = encode_tick_line(&t);
    let back = parse_tick_line(&line).expect("own line parses");
    assert_eq!(back.price, t.price);
    assert_eq!(back.timestamp, t.timestamp);
}

#[test]
fn tick_round_trip_keeps_a_whole_price() {
    let t = PriceTick { timestamp: 7, price: 100_000_000 };
    let back = parse_tick_line(&encode_tick_line(&t)).expect("own line parses");
    assert_eq!(back.price, 100_000_000);
}

#[test]
fn short_fractions_parse_zero_extended() {
    let back = parse_tick_line(b"{\"timestamp\":1735,\"price\":27.653}").expect("parses");
    assert_eq!(back.timestamp, 1_735);
    assert_eq!(back.price, 27_653_000);
}

#[test]
fn integer_prices_parse() {
    let back = parse_tick_line(b"{\"timestamp\":5,\"price\":100}").expect("parses");
    assert_eq!(back.price, 100_000_000);
}

#[test]
fn malformed_tick_lines_are_rejected() {
    assert!(parse_tick_line(b"").is_none());
    assert!(parse_tick_line(b"{}").is_none());
    assert!(parse_tick_line(b"{\"timestamp\":,\"price\":1}").is_none());
    assert!(parse_tick_line(b"{\"timestamp\":12,\"price\":}").is_none());
    assert!(parse_tick_line(b"{\"timestamp\":12,\"price\":1.5").is_none());
    assert!(parse_tick_line(b"{\"time\":12,\"price\":1.5}").is_none());
    assert!(parse_tick_line(b"{\"timestamp\":12,\"price\":1.5}x").is_none());
    assert!(parse_tick_line(b"{\"timestamp\":-3,\"price\":1.5}").is_none());
    assert!(parse_tick_line(b"{\"timestamp\":12,\"price\":1.2345678}").is_none());
}

#[test]
fn candle_line_has_the_cache_shape() {
    let rec = CandleDataRecord {
        timestamp: 42,
        candle: SerializableCandleData {
            close: "26.43".to_string(),
            volume: "1000.5".to_string(),
            interval: "1h".to_string(),
        },
    };
    let line = encode_candle_line(&rec).expect("plain fields encode");
    assert_eq!(
        line,
        b"{\"timestamp\":42,\"candle\":{\"close\":\"26.43\",\"volume\":\"1000.5\",\"interval\":\"1h\"}}"
            .to_vec()
    );
}

#[test]
fn candle_round_trip_keeps_every_field() {
    let rec = CandleDataRecord {
        timestamp: 1_700_000_001,
        candle: SerializableCandleData {
            close: "26.43".to_string(),
            volume: "1000.5".to_string(),
            interval: "5m".to_string(),
        },
    };
    let line = encode_candle_line(&rec).expect("plain fields encode");
    let back = parse_candle_line(&line).expect("own line parses");
    assert_eq!(back.timestamp, rec.timestamp);
    assert_eq!(back.candle.close, rec.candle.close);
    assert_eq!(back.candle.volume, rec.candle.volume);
    assert_eq!(back.candle.interval, rec.candle.interval);
}

#[test]
fn unencodable_fields_are_refused() {
    let rec = CandleDataRecord {
        timestamp: 1,
        candle: SerializableCandleData {
            close: "26\".43".to_string(),
            volume: "1".to_string(),
            interval: "1h".to_string(),
        },
    };
    assert!(encode_candle_line(&rec).is_none());
}

#[test]
fn malformed_candle_lines_are_rejected() {
    assert!(parse_candle_line(b"{\"timestamp\":42}").is_none());
    assert!(
        parse_candle_line(
            b"{\"timestamp\":42,\"candle\":{\"close\":\"1\",\"volume\":\"2\",\"interval\":\"1h\"}"
        )
        .is_none()
    );
}

#[test]
fn connection_errors_are_recoverable() {
    assert!(!MarketDataError::ConnectionError("lost".to_string()).is_fatal());
    assert!(MarketDataError::SubscriptionError("denied".to_string()).is_fatal());
    assert!(MarketDataError::CacheError("full".to_string()).is_fatal());
    assert_eq!(MarketDataError::CacheError("full".to_string()).message(), "full");
}

#[test]
fn message_counter_reconnects_at_the_threshold() {
    let mut c = MessageCounter::new(3);
    assert!(!c.record_message());
    assert!(!c.record_message());
    assert!(c.record_message());
    assert_eq!(c.message_count, 0);
    assert!(!c.record_message());
}

#[test]
fn flush_on_batch_size_or_interval() {
    assert!(should_flush(100, 0, 100, 0, 5));
    assert!(should_flush(0, 100, 100, 0, 5));
    assert!(should_flush(0, 0, 100, 5, 5));
    assert!(!should_flush(99, 99, 100, 4, 5));
}
