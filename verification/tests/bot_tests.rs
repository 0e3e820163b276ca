use tradebot::bot::RealTradingBot;
use tradebot::types::{OrderBook, OrderSide, OrderType, Price, SCALE};

fn sample(symbol: &str, price_units: i64, seq: u64) -> Price {
    Price {
        symbol: symbol.to_string(),
        price: price_units * SCALE,
        timestamp: 1_700_000_000 + seq,
        volume: 2000 * SCALE,
    }
}

fn empty_book(symbol: &str) -> OrderBook {
    OrderBook {
        symbol: symbol.to_string(),
        bids: Vec::new(),
        asks: Vec::new(),
        timestamp: 1_700_000_000,
    }
}

fn bot_with_falling_history() -> RealTradingBot {
    let mut bot = RealTradingBot::new();
    for (i, units) in [100i64, 100, 100, 100, 90].iter().enumerate() {
        bot.record_price(sample("BTCUSDT", *units, i as u64));
    }
    bot
}

#[test]
fn new_bot_is_stopped_with_one_strategy_and_no_state() {
    let bot = RealTradingBot::new();
    assert!(!bot.is_running);
    assert_eq!(bot.strategies.len(), 1);
    assert!(bot.order_executor.pending().is_empty());
    assert!(bot.risk_manager.get_position("BTCUSDT").is_none());
}

#[test]
fn start_and_stop_flip_the_run_flag() {
    let mut bot = RealTradingBot::new();
    bot.start();
    assert!(bot.is_running);
    bot.stop();
    assert!(!bot.is_running);
}

#[test]
fn decision_emits_a_market_sell_on_falling_prices() {
    let bot = bot_with_falling_history();
    let (order, target) = bot
        .decide_order("BTCUSDT", 0, &empty_book("BTCUSDT"), 1_700_000_100)
        .expect("an approved order");
    assert_eq!(target, 90 * SCALE);
    assert_eq!(order.symbol, "BTCUSDT");
    assert!(matches!(order.side, OrderSide::Sell));
    assert!(matches!(order.order_type, OrderType::Market));
    assert_eq!(order.quantity, SCALE / 1000);
    assert!(order.price.is_none());
    assert_eq!(order.timestamp, 1_700_000_100);
    assert_eq!(order.id.len(), 36);
}

#[test]
fn fresh_order_ids_differ() {
    let bot = bot_with_falling_history();
    let (a, _) = bot.decide_order("BTCUSDT", 0, &empty_book("BTCUSDT"), 0).unwrap();
    let (b, _) = bot.decide_order("BTCUSDT", 0, &empty_book("BTCUSDT"), 0).unwrap();
    assert_ne!(a.id, b.id);
}

#[test]
fn decision_needs_at_least_three_samples() {
    let mut bot = RealTradingBot::new();
    bot.record_price(sample("BTCUSDT", 100, 0));
    bot.record_price(sample("BTCUSDT", 90, 1));
    assert!(bot.decide_order("BTCUSDT", 0, &empty_book("BTCUSDT"), 0).is_none());
}

#[test]
fn decision_on_unknown_instrument_is_none() {
    let bot = RealTradingBot::new();
    assert!(bot.decide_order("BTCUSDT", 0, &empty_book("BTCUSDT"), 0).is_none());
}

#[test]
fn failed_venue_call_restores_pending_and_touches_no_position() {
    let mut bot = bot_with_falling_history();
    let (order, target) = bot
        .decide_order("BTCUSDT", 0, &empty_book("BTCUSDT"), 0)
        .expect("an approved order");
    bot.order_executor.record_pending(order.clone());
    assert_eq!(bot.order_executor.pending().len(), 1);
    let r = bot.settle_submission(&order, target, Err("venue refused".to_string()));
    assert_eq!(r.unwrap_err(), "venue refused");
    assert!(bot.order_executor.pending().is_empty());
    assert!(bot.risk_manager.get_position("BTCUSDT").is_none());
}

#[test]
fn successful_venue_call_keeps_pending_and_applies_the_fill() {
    let mut bot = bot_with_falling_history();
    let (order, target) = bot
        .decide_order("BTCUSDT", 0, &empty_book("BTCUSDT"), 0)
        .expect("an approved order");
    assert_eq!(target, 90 * SCALE);
    bot.order_executor.record_pending(order.clone());
    let r = bot.settle_submission(&order, target, Ok("venue-1".to_string()));
    assert_eq!(r.unwrap(), "venue-1");
    assert_eq!(bot.order_executor.pending().len(), 1);
    let p = bot.risk_manager.get_position("BTCUSDT").expect("position created");
    // A sell of 0.001 units at 90.
    assert_eq!(p.quantity, -(SCALE / 1000));
    assert_eq!(p.avg_price, 90 * SCALE);
}
