use kraken_bot::ohlc::extract_ohlc_data_from_log;
use kraken_bot::parse::{
    balance_updates, base_currency, extract_asset_balance, extract_int_field,
    extract_price_from_ticker_message, extract_string_field, is_balance_message,
    is_ticker_message,
};

#[test]
fn string_field_keeps_quotes_as_documented() {
    let r = extract_string_field("symbol: \"BTC/USD\", price: 45000", "symbol:", ",");
    assert_eq!(r, Some("\"BTC/USD\"".to_string()));
}

#[test]
fn string_field_missing_field_or_delimiter() {
    assert_eq!(extract_string_field("price: 45000", "symbol:", ","), None);
    assert_eq!(extract_string_field("symbol: BTC", "symbol:", ","), None);
}

#[test]
fn string_field_trims_white_space() {
    let r = extract_string_field("a:\t  x y \n,", "a:", ",");
    assert_eq!(r, Some("x y".to_string()));
}

#[test]
fn float_field_text_from_documented_example() {
    let r = extract_string_field("price: 45000.50,", "price:", ",");
    assert_eq!(r, Some("45000.50".to_string()));
    let v: f64 = r.unwrap().parse().unwrap();
    assert_eq!(v, 45000.50);
}

#[test]
fn int_field_documented_example() {
    assert_eq!(extract_int_field("trades: 1250,", "trades:", ","), Some(1250));
}

#[test]
fn int_field_without_quotes() {
    assert_eq!(extract_int_field("n: \"42\",", "n:", ","), Some(42));
    assert_eq!(extract_int_field("n: \"\"-3\"\",", "n:", ","), Some(-3));
}

#[test]
fn int_field_signs_and_errors() {
    assert_eq!(extract_int_field("n: -42,", "n:", ","), Some(-42));
    assert_eq!(extract_int_field("n: +7,", "n:", ","), Some(7));
    assert_eq!(extract_int_field("n: -,", "n:", ","), None);
    assert_eq!(extract_int_field("n: ,", "n:", ","), None);
    assert_eq!(extract_int_field("n: 12a,", "n:", ","), None);
    assert_eq!(extract_int_field("n: 1.5,", "n:", ","), None);
}

#[test]
fn int_field_limits() {
    assert_eq!(
        extract_int_field("n: 9223372036854775807,", "n:", ","),
        Some(i64::MAX)
    );
    assert_eq!(
        extract_int_field("n: -9223372036854775808,", "n:", ","),
        Some(i64::MIN)
    );
    assert_eq!(extract_int_field("n: 9223372036854775808,", "n:", ","), None);
    assert_eq!(extract_int_field("n: -9223372036854775809,", "n:", ","), None);
    assert_eq!(
        extract_int_field("n: 123456789012345678901234567890,", "n:", ","),
        None
    );
}

#[test]
fn base_currency_of_pairs() {
    assert_eq!(base_currency("BTC/USD"), "BTC");
    assert_eq!(base_currency("USD"), "USD");
    assert_eq!(base_currency("A/B/C"), "A");
    assert_eq!(base_currency(""), "");
}

const BALANCES: &str = "Balance { data: [BalanceItem { asset: \"USD\", balance: 1500.25, wallets: [] }, BalanceItem { asset: \"BTC\", balance: 0.5 }, BalanceItem { asset: \"ETH\", balance: 2 }] }";

#[test]
fn asset_balance_texts() {
    assert_eq!(extract_asset_balance(BALANCES, "USD"), Some("1500.25".to_string()));
    assert_eq!(extract_asset_balance(BALANCES, "BTC/USD"), Some("0.5".to_string()));
    assert_eq!(extract_asset_balance(BALANCES, "ETH/USD"), Some("2".to_string()));
    assert_eq!(extract_asset_balance(BALANCES, "SOL/USD"), None);
}

#[test]
fn balance_message_detection() {
    assert!(is_balance_message(BALANCES));
    assert!(is_balance_message("x asset: y"));
    assert!(!is_balance_message("Heartbeat"));
}

#[test]
fn balance_updates_usd_first_then_symbols() {
    let symbols = vec!["ETH/USD".to_string(), "SOL/USD".to_string(), "BTC/USD".to_string()];
    let updates = balance_updates(BALANCES, &symbols);
    assert_eq!(
        updates,
        vec![
            ("USD".to_string(), "1500.25".to_string()),
            ("ETH".to_string(), "2".to_string()),
            ("BTC".to_string(), "0.5".to_string()),
        ]
    );
}

#[test]
fn ticker_price_text() {
    let msg = "Ticker(SingleResponse { data: Ticker { symbol: \"BTC/USD\", last: 64000.5, bid: 1 } })";
    assert!(is_ticker_message(msg));
    assert_eq!(
        extract_price_from_ticker_message(msg, "BTC/USD"),
        Some("64000.5".to_string())
    );
    assert_eq!(extract_price_from_ticker_message(msg, "ETH/USD"), None);
    assert_eq!(
        extract_price_from_ticker_message("Ticker { symbol: \"X\", last: 3}", "X"),
        Some("3".to_string())
    );
    assert_eq!(extract_price_from_ticker_message("symbol X no price", "X"), None);
}

#[test]
fn ohlc_entries_from_log_line() {
    let line = "Ohlc(MarketDataResponse { data: [Ohlc { symbol: \"BTC/USD\", open: 1.5, high: 2.5, low: 0.5, close: 2.0, vwap: 1.75, trades: 12, volume: 3.25, interval_begin: \"2024-01-01\", interval: 60 }, Ohlc { symbol: \"ETH/USD\", open: 3, high: 4, low: 2, close: 3.5, vwap: 3, trades: 7, volume: 1, interval_begin: \"t\", interval: 15 }] })";
    let v = extract_ohlc_data_from_log(line).expect("candles");
    assert_eq!(v.len(), 2);
    assert_eq!(v[0].symbol, "BTC/USD");
    assert_eq!(v[0].open.as_deref(), Some("1.5"));
    assert_eq!(v[0].high.as_deref(), Some("2.5"));
    assert_eq!(v[0].low.as_deref(), Some("0.5"));
    assert_eq!(v[0].close.as_deref(), Some("2.0"));
    assert_eq!(v[0].vwap.as_deref(), Some("1.75"));
    assert_eq!(v[0].trades, 12);
    assert_eq!(v[0].volume.as_deref(), Some("3.25"));
    assert_eq!(v[0].interval_begin, "2024-01-01");
    assert_eq!(v[0].interval, 60);
    assert_eq!(v[1].symbol, "ETH/USD");
    assert_eq!(v[1].close.as_deref(), Some("3.5"));
    assert_eq!(v[1].interval, 15);
}

#[test]
fn ohlc_defaults_for_missing_fields() {
    let line = "Ohlc(MarketDataResponse { Ohlc { symbol: X }";
    let v = extract_ohlc_data_from_log(line).expect("one candle");
    assert_eq!(v.len(), 1);
    assert_eq!(v[0].symbol, "unknown");
    assert_eq!(v[0].open, None);
    assert_eq!(v[0].trades, 0);
    assert_eq!(v[0].interval_begin, "unknown");
    assert_eq!(v[0].interval, 60);
}

#[test]
fn ohlc_nothing_without_market_data() {
    assert!(extract_ohlc_data_from_log("Ohlc { symbol: \"A\", close: 1 }").is_none());
    assert!(extract_ohlc_data_from_log("Ohlc(MarketDataResponse { data: [] })").is_none());
}

#[test]
fn ohlc_symbols_lose_their_quotes() {
    let line = r#"Ohlc(MarketDataResponse [Ohlc { symbol: "BTC/USD", close: 100.0, interval: 5 }, Ohlc { symbol: "ETH/USD", close: 10.5, interval: 5 }])"#;
    let v = extract_ohlc_data_from_log(line).expect("candles");
    assert_eq!(v.len(), 2);
    assert_eq!(v[0].symbol, "BTC/USD");
    assert_eq!(v[0].close.as_deref(), Some("100.0"));
    assert_eq!(v[0].interval, 5);
    assert_eq!(v[0].open, None);
    assert_eq!(v[0].trades, 0);
    assert_eq!(v[0].interval_begin, "unknown");
    assert_eq!(v[1].symbol, "ETH/USD");
    assert_eq!(v[1].close.as_deref(), Some("10.5"));
    assert_eq!(v[1].interval, 5);
}

#[test]
fn ohlc_unreadable_numbers_stay_text() {
    let line = r#"Ohlc(MarketDataResponse [Ohlc { symbol: "SOL/USD", interval_begin: "t0", high: abc, volume: 2.5, }])"#;
    let v = extract_ohlc_data_from_log(line).expect("one candle");
    assert_eq!(v.len(), 1);
    assert_eq!(v[0].symbol, "SOL/USD");
    assert_eq!(v[0].interval_begin, "t0");
    assert_eq!(v[0].high.as_deref(), Some("abc"));
    assert!(v[0].high.as_deref().unwrap().parse::<f64>().is_err());
    assert_eq!(v[0].volume.as_deref(), Some("2.5"));
    assert_eq!(v[0].open, None);
    assert_eq!(v[0].trades, 0);
    assert_eq!(v[0].interval, 60);
}
