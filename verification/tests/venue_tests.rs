use tradebot::types::SCALE;
use tradebot::util::fresh_order_id;
use tradebot::venue::{
    generate_signature, orderbook_from_binance, price_from_binance, testnet_selected,
    venue_base_url, volume_from_ticker, BinanceOrderBook, BinancePrice, BinanceTicker,
};

#[test]
fn signature_matches_the_known_hmac_sha256_vector() {
    // HMAC-SHA-256("key", "The quick brown fox jumps over the lazy dog")
    let sig = generate_signature("key", "The quick brown fox jumps over the lazy dog");
    assert_eq!(
        sig,
        "f7bc83f430538424b13298e6aa6fb143ef4d59a14946175997479dbc2d1a3cd8"
    );
}

#[test]
fn signature_depends_on_the_key() {
    let a = generate_signature("key-a", "payload");
    let b = generate_signature("key-b", "payload");
    assert_eq!(a.len(), 64);
    assert_eq!(b.len(), 64);
    assert_ne!(a, b);
}

#[test]
fn price_ticker_decodes_to_a_sample() {
    let bp = BinancePrice {
        symbol: "BTCUSDT".to_string(),
        price: "97000.55".to_string(),
    };
    let p = price_from_binance(&bp, 2000 * SCALE, 1_700_000_000).unwrap();
    assert_eq!(p.symbol, "BTCUSDT");
    assert_eq!(p.price, 97000 * SCALE + 55 * SCALE / 100);
    assert_eq!(p.volume, 2000 * SCALE);
    assert_eq!(p.timestamp, 1_700_000_000);
}

#[test]
fn unparseable_price_is_an_error() {
    let bp = BinancePrice {
        symbol: "BTCUSDT".to_string(),
        price: "not-a-number".to_string(),
    };
    assert!(price_from_binance(&bp, 0, 0).is_err());
}

#[test]
fn ticker_volume_decodes() {
    let t = BinanceTicker {
        symbol: "BTCUSDT".to_string(),
        price: "97000".to_string(),
        volume: "1234.5".to_string(),
    };
    assert_eq!(volume_from_ticker(&t).unwrap(), 1234 * SCALE + SCALE / 2);
    let bad = BinanceTicker {
        symbol: "BTCUSDT".to_string(),
        price: "97000".to_string(),
        volume: "??".to_string(),
    };
    assert!(volume_from_ticker(&bad).is_err());
}

#[test]
fn depth_snapshot_decodes_level_by_level() {
    let ob = BinanceOrderBook {
        lastUpdateId: 42,
        bids: vec![
            ("100.5".to_string(), "2".to_string()),
            ("100.4".to_string(), "1.5".to_string()),
        ],
        asks: vec![("100.6".to_string(), "3".to_string())],
    };
    let book = orderbook_from_binance(&ob, "BTCUSDT", 7).unwrap();
    assert_eq!(book.symbol, "BTCUSDT");
    assert_eq!(book.timestamp, 7);
    assert_eq!(book.bids, vec![
        (100 * SCALE + SCALE / 2, 2 * SCALE),
        (100 * SCALE + 4 * SCALE / 10, SCALE + SCALE / 2),
    ]);
    assert_eq!(book.asks, vec![(100 * SCALE + 6 * SCALE / 10, 3 * SCALE)]);
}

#[test]
fn depth_snapshot_with_a_bad_level_is_an_error() {
    let ob = BinanceOrderBook {
        lastUpdateId: 42,
        bids: vec![("100.5".to_string(), "oops".to_string())],
        asks: Vec::new(),
    };
    assert!(orderbook_from_binance(&ob, "BTCUSDT", 7).is_err());
}

#[test]
fn mode_selection_and_endpoints() {
    assert!(testnet_selected("true"));
    assert!(!testnet_selected("false"));
    assert!(!testnet_selected(""));
    assert!(!testnet_selected("TRUE"));
    assert_eq!(venue_base_url(true), "https://testnet.binance.vision");
    assert_eq!(venue_base_url(false), "https://api.binance.com");
}

#[test]
fn order_ids_are_hyphenated_uuids() {
    let a = fresh_order_id();
    let b = fresh_order_id();
    assert_eq!(a.len(), 36);
    assert_eq!(a.as_bytes()[8], b'-');
    assert_eq!(a.as_bytes()[13], b'-');
    assert_eq!(a.as_bytes()[18], b'-');
    assert_eq!(a.as_bytes()[23], b'-');
    assert_ne!(a, b);
}
