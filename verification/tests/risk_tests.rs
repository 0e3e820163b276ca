use tradebot::risk::RiskManager;
use tradebot::types::{Order, OrderSide, OrderType, RiskParams, SCALE};

fn order(symbol: &str, side: OrderSide, quantity: i64) -> Order {
    Order {
        id: "test-order".to_string(),
        symbol: symbol.to_string(),
        side,
        order_type: OrderType::Market,
        quantity,
        price: None,
        timestamp: 1_700_000_000,
    }
}

#[test]
fn default_limits() {
    let p = RiskParams::default();
    assert_eq!(p.max_position_size, 1000 * SCALE);
    assert_eq!(p.max_loss_per_trade, 100 * SCALE);
    assert_eq!(p.max_daily_loss, 500 * SCALE);
    assert_eq!(p.stop_loss_pct, SCALE / 50);
    assert_eq!(p.take_profit_pct, SCALE / 25);
}

#[test]
fn rejects_when_daily_loss_limit_exceeded() {
    let mut rm = RiskManager::new(RiskParams::default());
    rm.set_daily_pnl(-(500 * SCALE) - 1);
    // A tiny, otherwise harmless order is still rejected.
    let o = order("BTCUSDT", OrderSide::Buy, 1);
    assert!(!rm.validate_order(&o, SCALE));
}

#[test]
fn accepts_at_exact_daily_loss_limit() {
    let mut rm = RiskManager::new(RiskParams::default());
    rm.set_daily_pnl(-(500 * SCALE));
    let o = order("BTCUSDT", OrderSide::Buy, 1);
    assert!(rm.validate_order(&o, SCALE));
}

#[test]
fn rejects_when_position_would_exceed_limit() {
    let mut rm = RiskManager::new(RiskParams::default());
    // Hold 999 units long.
    rm.update_position("BTCUSDT", 999 * SCALE, 10 * SCALE);
    // Buying 2 more would reach 1001 > 1000.
    let o = order("BTCUSDT", OrderSide::Buy, 2 * SCALE);
    assert!(!rm.validate_order(&o, SCALE));
    // Selling 2 is fine (997 long).
    let o2 = order("BTCUSDT", OrderSide::Sell, 2 * SCALE);
    assert!(rm.validate_order(&o2, SCALE));
    // A short past the limit is rejected by absolute value.
    let o3 = order("BTCUSDT", OrderSide::Sell, 2000 * SCALE);
    assert!(!rm.validate_order(&o3, SCALE));
}

#[test]
fn first_order_is_held_to_the_size_limit_too() {
    let rm = RiskManager::new(RiskParams::default());
    // With no position yet the held quantity counts as zero: an
    // oversized first order is rejected even though the other gates
    // pass at this low price.
    let too_big = order("ETHUSDT", OrderSide::Buy, 5000 * SCALE);
    assert!(!rm.validate_order(&too_big, SCALE / 1000));
    let oversized_short = order("ETHUSDT", OrderSide::Sell, 1001 * SCALE);
    assert!(!rm.validate_order(&oversized_short, SCALE / 1000));
    // A first order inside the limit is accepted.
    let in_limit = order("ETHUSDT", OrderSide::Buy, 1000 * SCALE);
    assert!(rm.validate_order(&in_limit, SCALE / 1000));
}

#[test]
fn rejects_when_potential_loss_exceeds_per_trade_limit() {
    let rm = RiskManager::new(RiskParams::default());
    // 1 unit at price 6000: 6000 * 0.02 = 120 > 100.
    let o = order("BTCUSDT", OrderSide::Buy, SCALE);
    assert!(!rm.validate_order(&o, 6000 * SCALE));
    // 1 unit at price 4000: 4000 * 0.02 = 80 <= 100.
    assert!(rm.validate_order(&o, 4000 * SCALE));
}

#[test]
fn buy_then_sell_back_to_zero_keeps_average_price() {
    let mut rm = RiskManager::new(RiskParams::default());
    // Buy 2 units at price 10.
    rm.update_position("BTCUSDT", 2 * SCALE, 10 * SCALE);
    {
        let p = rm.get_position("BTCUSDT").expect("position exists");
        assert_eq!(p.quantity, 2 * SCALE);
        assert_eq!(p.avg_price, 10 * SCALE);
    }
    // Sell 2 units at price 12: quantity returns to zero, the average
    // is left unchanged (no division by zero).
    rm.update_position("BTCUSDT", -2 * SCALE, 12 * SCALE);
    let p = rm.get_position("BTCUSDT").expect("position persists at zero");
    assert_eq!(p.quantity, 0);
    assert_eq!(p.avg_price, 10 * SCALE);
}

#[test]
fn average_price_is_volume_weighted() {
    let mut rm = RiskManager::new(RiskParams::default());
    rm.update_position("BTCUSDT", 2 * SCALE, 10 * SCALE);
    rm.update_position("BTCUSDT", 2 * SCALE, 20 * SCALE);
    let p = rm.get_position("BTCUSDT").expect("position exists");
    assert_eq!(p.quantity, 4 * SCALE);
    // (2*10 + 2*20) / 4 = 15
    assert_eq!(p.avg_price, 15 * SCALE);
}

#[test]
fn positions_are_kept_per_instrument() {
    let mut rm = RiskManager::new(RiskParams::default());
    rm.update_position("BTCUSDT", SCALE, 10 * SCALE);
    rm.update_position("ETHUSDT", -SCALE, 5 * SCALE);
    assert_eq!(rm.get_position("BTCUSDT").unwrap().quantity, SCALE);
    assert_eq!(rm.get_position("ETHUSDT").unwrap().quantity, -SCALE);
    assert!(rm.get_position("SOLUSDT").is_none());
}
