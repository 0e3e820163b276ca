use tradebot::executor::RealOrderExecutor;
use tradebot::types::{Order, OrderSide, OrderType, SCALE};

fn order(id: &str) -> Order {
    Order {
        id: id.to_string(),
        symbol: "BTCUSDT".to_string(),
        side: OrderSide::Buy,
        order_type: OrderType::Market,
        quantity: SCALE / 1000,
        price: None,
        timestamp: 1_700_000_000,
    }
}

fn pending_ids(ex: &RealOrderExecutor) -> Vec<String> {
    ex.pending().iter().map(|o| o.id.clone()).collect()
}

#[test]
fn successful_submission_keeps_the_pending_record() {
    let mut ex = RealOrderExecutor::new();
    ex.record_pending(order("a-1"));
    let r = ex.resolve_submission("a-1", Ok("venue-77".to_string()));
    assert_eq!(r.unwrap(), "venue-77");
    assert_eq!(pending_ids(&ex), vec!["a-1".to_string()]);
}

#[test]
fn failed_submission_rolls_back_exactly_to_the_previous_pending_set() {
    let mut ex = RealOrderExecutor::new();
    ex.record_pending(order("a-1"));
    ex.record_pending(order("a-2"));
    let before = pending_ids(&ex);
    ex.record_pending(order("a-3"));
    let r = ex.resolve_submission("a-3", Err("venue down".to_string()));
    assert_eq!(r.unwrap_err(), "venue down");
    assert_eq!(pending_ids(&ex), before);
}

#[test]
fn cancel_removes_the_order_by_id() {
    let mut ex = RealOrderExecutor::new();
    ex.record_pending(order("a-1"));
    ex.record_pending(order("a-2"));
    assert!(ex.cancel_order("BTCUSDT", "a-1").is_ok());
    assert_eq!(pending_ids(&ex), vec!["a-2".to_string()]);
}

#[test]
fn cancel_of_absent_id_is_a_successful_noop() {
    let mut ex = RealOrderExecutor::new();
    ex.record_pending(order("a-1"));
    ex.record_pending(order("a-2"));
    let before = pending_ids(&ex);
    let r = ex.cancel_order("BTCUSDT", "never-seen");
    assert!(r.is_ok());
    assert_eq!(pending_ids(&ex), before);
}

#[test]
fn cancelling_the_same_id_twice_changes_nothing_further() {
    let mut ex = RealOrderExecutor::new();
    ex.record_pending(order("a-1"));
    ex.record_pending(order("a-2"));
    assert!(ex.cancel_order("BTCUSDT", "a-1").is_ok());
    let after_first = pending_ids(&ex);
    let r = ex.cancel_order("BTCUSDT", "a-1");
    assert!(r.is_ok());
    assert_eq!(pending_ids(&ex), after_first);
}

#[test]
fn cancel_on_empty_list_still_succeeds() {
    let mut ex = RealOrderExecutor::new();
    assert!(ex.cancel_order("BTCUSDT", "anything").is_ok());
    assert!(ex.pending().is_empty());
}
