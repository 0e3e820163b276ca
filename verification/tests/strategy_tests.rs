use tradebot::strategy::{MomentumStrategy, TradingStrategy, ORDER_QUANTITY};
use tradebot::types::{OrderBook, OrderSide, Price, SCALE};

fn sample(price_units: i64, volume_units: i64, seq: u64) -> Price {
    Price {
        symbol: "BTCUSDT".to_string(),
        price: price_units * SCALE,
        timestamp: 1_700_000_000 + seq,
        volume: volume_units * SCALE,
    }
}

fn empty_book() -> OrderBook {
    OrderBook {
        symbol: "BTCUSDT".to_string(),
        bids: Vec::new(),
        asks: Vec::new(),
        timestamp: 1_700_000_000,
    }
}

#[test]
fn falling_prices_with_volume_yield_sell_with_confidence_ten_percent() {
    // Lookback 5, threshold 0.01; prices [100,100,100,100,90], newest
    // last; average volume 2000 clears the floor of 1000.
    let strat = MomentumStrategy::new(5, SCALE / 100);
    let prices = vec![
        sample(100, 2000, 0),
        sample(100, 2000, 1),
        sample(100, 2000, 2),
        sample(100, 2000, 3),
        sample(90, 2000, 4),
    ];
    let signal = strat.analyze(&prices, &empty_book()).expect("signal expected");
    assert!(matches!(signal.action, OrderSide::Sell));
    // |90 - 100| / 100 = 0.10
    assert_eq!(signal.confidence, SCALE / 10);
    assert_eq!(signal.target_price, 90 * SCALE);
    assert_eq!(signal.quantity, ORDER_QUANTITY);
    assert_eq!(signal.symbol, "BTCUSDT");
}

#[test]
fn falling_prices_with_thin_volume_yield_no_signal() {
    let strat = MomentumStrategy::new(5, SCALE / 100);
    let prices = vec![
        sample(100, 500, 0),
        sample(100, 500, 1),
        sample(100, 500, 2),
        sample(100, 500, 3),
        sample(90, 500, 4),
    ];
    assert!(strat.analyze(&prices, &empty_book()).is_none());
}

#[test]
fn rising_prices_yield_buy() {
    let strat = MomentumStrategy::new(5, SCALE / 100);
    let prices = vec![
        sample(100, 2000, 0),
        sample(100, 2000, 1),
        sample(100, 2000, 2),
        sample(100, 2000, 3),
        sample(110, 2000, 4),
    ];
    let signal = strat.analyze(&prices, &empty_book()).expect("signal expected");
    assert!(matches!(signal.action, OrderSide::Buy));
    assert_eq!(signal.confidence, SCALE / 10);
    assert_eq!(signal.target_price, 110 * SCALE);
}

#[test]
fn too_few_samples_yield_no_signal() {
    let strat = MomentumStrategy::new(5, SCALE / 100);
    let prices = vec![sample(100, 2000, 0), sample(90, 2000, 1)];
    assert!(strat.analyze(&prices, &empty_book()).is_none());
}

#[test]
fn change_below_threshold_yields_no_signal() {
    // 0.5% move under a 1% threshold.
    let strat = MomentumStrategy::new(5, SCALE / 100);
    let prices = vec![
        sample(1000, 2000, 0),
        sample(1000, 2000, 1),
        sample(1000, 2000, 2),
        sample(1000, 2000, 3),
        sample(1005, 2000, 4),
    ];
    assert!(strat.analyze(&prices, &empty_book()).is_none());
}

#[test]
fn strategy_reports_its_name() {
    let strat = MomentumStrategy::new(5, SCALE / 100);
    assert_eq!(TradingStrategy::name(&strat), "MomentumStrategy");
}

#[test]
fn trait_entry_point_agrees_and_guards_out_of_model_samples() {
    let strat = MomentumStrategy::new(5, SCALE / 100);
    let prices = vec![
        sample(100, 2000, 0),
        sample(100, 2000, 1),
        sample(100, 2000, 2),
        sample(100, 2000, 3),
        sample(90, 2000, 4),
    ];
    let via_trait = TradingStrategy::analyze(&strat, &prices, &empty_book())
        .expect("signal expected");
    assert!(matches!(via_trait.action, OrderSide::Sell));
    // A sample outside the bounded model yields no signal.
    let mut bad = prices.clone();
    bad[0].price = -1;
    assert!(TradingStrategy::analyze(&strat, &bad, &empty_book()).is_none());
}

#[test]
fn confidence_is_capped_at_one() {
    // A 200% move: confidence must cap at 1.0.
    let strat = MomentumStrategy::new(2, SCALE / 100);
    let prices = vec![
        sample(100, 2000, 0),
        sample(100, 2000, 1),
        sample(100, 2000, 2),
        sample(100, 2000, 3),
        sample(300, 2000, 4),
    ];
    let signal = strat.analyze(&prices, &empty_book()).expect("signal expected");
    assert_eq!(signal.confidence, SCALE);
}
