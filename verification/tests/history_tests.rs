use tradebot::history::PriceHistoryStore;
use tradebot::types::{Price, SCALE};

fn sample(symbol: &str, price_units: i64, seq: u64) -> Price {
    Price {
        symbol: symbol.to_string(),
        price: price_units * SCALE,
        timestamp: 1_700_000_000 + seq,
        volume: 2000 * SCALE,
    }
}

#[test]
fn store_keeps_at_most_bound_most_recent_in_arrival_order() {
    let mut store = PriceHistoryStore::new(100);
    for i in 0..105i64 {
        store.record(sample("BTCUSDT", 100 + i, i as u64));
    }
    let history = store.history_of("BTCUSDT").expect("history exists");
    assert_eq!(history.len(), 100);
    // The five oldest insertions were evicted: the first kept sample is
    // the sixth inserted, the last is the newest.
    assert_eq!(history[0].price, (100 + 5) * SCALE);
    assert_eq!(history[99].price, (100 + 104) * SCALE);
    for k in 0..100usize {
        assert_eq!(history[k].price, (105 + k as i64) * SCALE);
    }
}

#[test]
fn store_under_bound_keeps_everything() {
    let mut store = PriceHistoryStore::new(100);
    for i in 0..7i64 {
        store.record(sample("ETHUSDT", 50 + i, i as u64));
    }
    let history = store.history_of("ETHUSDT").expect("history exists");
    assert_eq!(history.len(), 7);
    assert_eq!(history[0].price, 50 * SCALE);
    assert_eq!(history[6].price, 56 * SCALE);
}

#[test]
fn store_separates_instruments() {
    let mut store = PriceHistoryStore::new_default();
    store.record(sample("BTCUSDT", 100, 0));
    store.record(sample("ETHUSDT", 20, 1));
    store.record(sample("BTCUSDT", 101, 2));
    assert_eq!(store.history_of("BTCUSDT").unwrap().len(), 2);
    assert_eq!(store.history_of("ETHUSDT").unwrap().len(), 1);
    assert!(store.history_of("SOLUSDT").is_none());
}

#[test]
fn default_bound_is_one_hundred() {
    let mut store = PriceHistoryStore::new_default();
    for i in 0..101i64 {
        store.record(sample("BTCUSDT", 100, i as u64));
    }
    assert_eq!(store.history_of("BTCUSDT").unwrap().len(), 100);
}
