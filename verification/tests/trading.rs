use kraken_bot::bot::{SymbolConfig, TradingBot};
use kraken_bot::history::PriceHistory;
use kraken_bot::ohlc::{OhlcCollector, OhlcData};
use kraken_bot::signal::{
    trades_for, decide_signal, decide_simple_action, price_decimals, report_id, MultChange, Signal,
    SignalInputs, SimpleAction,
};
use kraken_bot::trade::{OrderSide, OrderPlan, TradeConditions, plan_order, buy_size_factor, ReturnBands};

fn config(symbol: &str, entry: f64, exit: f64) -> SymbolConfig<f64> {
    SymbolConfig {
        symbol: symbol.to_string(),
        entry_amount: 100.0,
        exit_amount: 50.0,
        entry_threshold: entry,
        exit_threshold: exit,
    }
}

fn bot() -> TradingBot<f64> {
    TradingBot::from_configs(&vec![config("BTC/USD", -2.0, 3.0), config("ETH/USD", -1.0, 1.0)])
}

#[test]
fn multiplier_defaults_steps_and_resets() {
    let mut b = bot();
    assert_eq!(b.get_mult("BTC/USD"), 2);
    assert_eq!(b.get_mult("SOL/USD"), 2);
    b.increase_mult("BTC/USD");
    assert_eq!(b.get_mult("BTC/USD"), 3);
    b.increase_mult("BTC/USD");
    assert_eq!(b.get_mult("BTC/USD") as f64 / 2.0, 2.0);
    b.reset_mult("BTC/USD");
    assert_eq!(b.get_mult("BTC/USD"), 2);
    b.increase_mult("NEW/USD");
    assert_eq!(b.get_mult("NEW/USD"), 3);
}

#[test]
fn positions_are_kept_by_base_currency() {
    let mut b = bot();
    assert_eq!(b.get_position("BTC/USD"), None);
    b.set_position("BTC".to_string(), 0.25);
    b.set_position("USD".to_string(), 1000.0);
    assert_eq!(b.get_position("BTC/USD"), Some(0.25));
    assert_eq!(b.get_position("BTC"), Some(0.25));
    assert_eq!(b.get_position("USD"), Some(1000.0));
    b.set_position("BTC".to_string(), 0.5);
    assert_eq!(b.get_position("BTC/USD"), Some(0.5));
}

#[test]
fn prices_are_kept_by_symbol() {
    let mut b = bot();
    assert_eq!(b.get_real_time_price("BTC/USD"), None);
    b.set_real_time_price("BTC/USD".to_string(), 64000.0);
    assert_eq!(b.get_real_time_price("BTC/USD"), Some(64000.0));
    assert_eq!(b.get_real_time_price("BTC"), None);
}

#[test]
fn configs_and_symbols() {
    let b = TradingBot::from_configs(&vec![
        config("BTC/USD", -2.0, 3.0),
        config("ETH/USD", -1.0, 1.0),
        config("BTC/USD", -5.0, 5.0),
    ]);
    let mut syms = b.symbols();
    syms.sort();
    assert_eq!(syms, vec!["BTC/USD".to_string(), "ETH/USD".to_string()]);
    assert_eq!(b.symbol_config("BTC/USD").unwrap().entry_threshold, -5.0);
    assert!(b.symbol_config("SOL/USD").is_none());
    let fallback = b.signal_config("SOL/USD").unwrap();
    assert!(fallback.symbol == "BTC/USD" || fallback.symbol == "ETH/USD");
    let empty: TradingBot<f64> = TradingBot::from_configs(&vec![]);
    assert!(empty.signal_config("BTC/USD").is_none());
}

#[test]
fn returns_need_six_closes() {
    let mut b = bot();
    for (i, c) in [10.0, 11.0, 12.0, 13.0, 14.0].iter().enumerate() {
        b.record_close("BTC/USD", *c);
        assert!(b.calculate_return("BTC/USD").is_none(), "after {} closes", i + 1);
    }
    b.record_close("BTC/USD", 15.0);
    assert_eq!(b.calculate_return("BTC/USD"), Some((10.0, 15.0)));
    b.record_close("BTC/USD", 16.0);
    assert_eq!(b.calculate_return("BTC/USD"), Some((11.0, 16.0)));
    let (old, new) = b.calculate_return("BTC/USD").unwrap();
    let pct = (new - old) / old * 100.0;
    assert!((pct - 45.4545).abs() < 0.001);
}

#[test]
fn history_keeps_last_six() {
    let mut h: PriceHistory<u32> = PriceHistory::new();
    assert_eq!(h.return_endpoints(), None);
    for x in 1..=9u32 {
        h.record_close(x);
        assert!(h.len() <= 6);
    }
    assert_eq!(h.len(), 6);
    assert_eq!(h.return_endpoints(), Some((4, 9)));
}

#[test]
fn signal_without_data_holds_and_creates_history() {
    let mut b = bot();
    let s = b.generate_signal("BTC/USD", None);
    assert_eq!(s, Signal::Hold);
    assert_eq!(s.as_str(), "HOLD");
    assert_eq!(b.get_mult("BTC/USD"), 2);
    assert!(b.calculate_return("BTC/USD").is_none());
}

fn six_closes(b: &mut TradingBot<f64>, sym: &str) {
    for c in [1.0, 1.0, 1.0, 1.0, 1.0, 1.0] {
        b.record_close(sym, c);
    }
}

#[test]
fn buy_signal_steps_multiplier() {
    let mut b = bot();
    six_closes(&mut b, "BTC/USD");
    let inputs = SignalInputs { below_entry: true, above_exit: false, has_position: false, near_flat: false };
    assert_eq!(b.generate_signal("BTC/USD", Some(inputs)), Signal::Buy);
    assert_eq!(b.get_mult("BTC/USD"), 3);
}

#[test]
fn no_buy_while_holding() {
    let inputs = SignalInputs { below_entry: true, above_exit: false, has_position: true, near_flat: false };
    assert_eq!(decide_signal(inputs), (Signal::Hold, MultChange::Keep));
}

#[test]
fn sell_needs_position() {
    let with = SignalInputs { below_entry: false, above_exit: true, has_position: true, near_flat: false };
    let without = SignalInputs { has_position: false, ..with };
    assert_eq!(decide_signal(with), (Signal::Sell, MultChange::Increase));
    assert_eq!(decide_signal(without), (Signal::Hold, MultChange::Keep));
}

#[test]
fn near_flat_hold_resets_multiplier() {
    let mut b = bot();
    six_closes(&mut b, "ETH/USD");
    b.increase_mult("ETH/USD");
    b.increase_mult("ETH/USD");
    let inputs = SignalInputs { below_entry: false, above_exit: false, has_position: true, near_flat: true };
    assert_eq!(b.generate_signal("ETH/USD", Some(inputs)), Signal::Hold);
    assert_eq!(b.get_mult("ETH/USD"), 2);
    assert_eq!(Signal::Hold.as_str(), "HOLD");
}

#[test]
fn signal_names_markers_and_sides() {
    assert_eq!(Signal::Buy.as_str(), "BUY");
    assert_eq!(Signal::Sell.as_str(), "SELL");
    assert_eq!(Signal::Buy.marker(), "<b>B</b>");
    assert_eq!(Signal::Sell.marker(), "<b>S</b>");
    assert_eq!(Signal::Hold.marker(), "H");
    assert_eq!(Signal::Buy.trade_side(), Some(OrderSide::Buy));
    assert_eq!(Signal::Sell.trade_side(), Some(OrderSide::Sell));
    assert_eq!(Signal::Hold.trade_side(), None);
}

#[test]
fn simple_strategy_actions() {
    assert_eq!(decide_simple_action(true, true, true), SimpleAction::Buy);
    assert_eq!(decide_simple_action(false, true, true), SimpleAction::Sell);
    assert_eq!(decide_simple_action(false, false, true), SimpleAction::Flat);
    assert_eq!(decide_simple_action(false, false, false), SimpleAction::NoAction);
    assert_eq!(SimpleAction::Buy.mult_change(), MultChange::Increase);
    assert_eq!(SimpleAction::Flat.mult_change(), MultChange::Reset);
    assert_eq!(SimpleAction::NoAction.mult_change(), MultChange::Keep);
    assert_eq!(price_decimals("BTC/USD"), 4);
    assert_eq!(price_decimals("ETH/USD"), 2);
}

#[test]
fn report_ids() {
    assert_eq!(report_id("BTC/USD"), "BTC ");
    assert_eq!(report_id("DOGE/USD"), "DOGE");
    assert_eq!(report_id("SHIBA/USD"), "SHIB");
    assert_eq!(report_id("X"), "X   ");
}

#[test]
fn order_plans() {
    let c = TradeConditions { cash_exceeds_entry: true, price_positive: true, has_position: false };
    assert_eq!(plan_order(OrderSide::Buy, c), OrderPlan::Buy);
    assert_eq!(plan_order(OrderSide::Sell, c), OrderPlan::Skip);
    let d = TradeConditions { cash_exceeds_entry: false, price_positive: true, has_position: true };
    assert_eq!(plan_order(OrderSide::Buy, d), OrderPlan::Skip);
    assert_eq!(plan_order(OrderSide::Sell, d), OrderPlan::Sell);
    let e = TradeConditions { cash_exceeds_entry: true, price_positive: false, has_position: true };
    assert_eq!(plan_order(OrderSide::Buy, e), OrderPlan::Skip);
    assert_eq!(plan_order(OrderSide::Sell, e), OrderPlan::Skip);
}

fn bands(r: f64) -> ReturnBands {
    ReturnBands { above_neg_0_20: r > -0.20, above_neg_0_15: r > -0.15, above_neg_0_10: r > -0.10 }
}

#[test]
fn buy_factor_is_four_or_one() {
    assert_eq!(buy_size_factor(None), 1);
    assert_eq!(buy_size_factor(Some(bands(5.0))), 4);
    assert_eq!(buy_size_factor(Some(bands(-0.12))), 4);
    assert_eq!(buy_size_factor(Some(bands(-0.18))), 4);
    assert_eq!(buy_size_factor(Some(bands(-0.20))), 1);
    assert_eq!(buy_size_factor(Some(bands(-3.0))), 1);
}

#[test]
fn ohlc_collector_counts_symbols() {
    let mut c: OhlcCollector<f64> = OhlcCollector::new();
    assert!(c.needs_more(2));
    let candle = |s: &str, close: f64| OhlcData {
        symbol: s.to_string(),
        open: 0.0,
        high: 0.0,
        low: 0.0,
        close,
        vwap: 0.0,
        trades: 0,
        volume: 0.0,
        interval_begin: "t".to_string(),
        interval: 60,
    };
    c.add(candle("A", 1.0));
    c.add(candle("A", 2.0));
    assert_eq!(c.received_count(), 1);
    assert!(c.needs_more(2));
    c.add(candle("B", 3.0));
    assert!(!c.needs_more(2));
    let all = c.into_candles();
    assert_eq!(all.len(), 3);
    assert_eq!(all[1].close, 2.0);
}

#[test]
fn trades_only_for_buy_sell_with_candles() {
    let signals = vec![
        ("BTC/USD".to_string(), Signal::Buy),
        ("ETH/USD".to_string(), Signal::Sell),
        ("SOL/USD".to_string(), Signal::Hold),
        ("ADA/USD".to_string(), Signal::Buy),
    ];
    let candles = vec!["ETH/USD".to_string(), "BTC/USD".to_string(), "SOL/USD".to_string()];
    let t = trades_for(&signals, &candles);
    assert_eq!(
        t,
        vec![("BTC/USD".to_string(), OrderSide::Buy), ("ETH/USD".to_string(), OrderSide::Sell)]
    );
}

fn close_candle(symbol: &str, close: f64) -> OhlcData<String, f64> {
    OhlcData {
        symbol: symbol.to_string(),
        open: 0.0,
        high: 0.0,
        low: 0.0,
        close,
        vwap: 0.0,
        trades: 0,
        volume: 0.0,
        interval_begin: "t".to_string(),
        interval: 60,
    }
}

#[test]
fn a_round_of_candles_keeps_the_last_six_per_symbol() {
    let mut b = bot();
    for c in [1.0, 2.0, 3.0, 4.0] {
        b.record_close("BTC/USD", c);
    }
    let round = vec![
        close_candle("BTC/USD", 5.0),
        close_candle("ETH/USD", 50.0),
        close_candle("BTC/USD", 6.0),
        close_candle("BTC/USD", 7.0),
    ];
    b.record_candles(&round);
    assert_eq!(b.calculate_return("BTC/USD"), Some((2.0, 7.0)));
    assert_eq!(b.calculate_return("ETH/USD"), None);
}

#[test]
fn balances_are_applied_in_order() {
    let mut b = bot();
    let updates = vec![
        ("USD".to_string(), 100.0),
        ("BTC".to_string(), 0.5),
        ("USD".to_string(), 80.0),
    ];
    b.apply_balances(&updates);
    assert_eq!(b.get_position("USD"), Some(80.0));
    assert_eq!(b.get_position("BTC/USD"), Some(0.5));
    let mut assets = b.assets();
    assets.sort();
    assert_eq!(assets, vec!["BTC".to_string(), "USD".to_string()]);
}

#[test]
fn repeated_increases_add_half_steps() {
    let mut b = bot();
    for _ in 0..5 {
        b.increase_mult("ETH/USD");
    }
    assert_eq!(b.get_mult("ETH/USD") as f64 / 2.0, 3.5);
}
