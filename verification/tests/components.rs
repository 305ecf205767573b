// Tests of the store, the registry and the common types, used directly.

use moon_rust_core::types::OrderParams;
use moon_rust_core::types::OrderResult;
use moon_rust_core::types::OrderSide;
use moon_rust_core::types::OrderStatus;
use moon_rust_core::types::PriceData;
use moon_rust_core::AlertRegistry;
use moon_rust_core::MonitorError;
use moon_rust_core::PriceStore;

fn snapshot(token: &str, price: u64, timestamp: i64) -> PriceData {
    PriceData {
        token: token.to_string(),
        price,
        timestamp,
        volume_24h: None,
        change_24h: None,
    }
}

#[test]
fn test_price_store_upsert_replaces() {
    let mut store = PriceStore::new();
    store.upsert(snapshot("SOL", 100, 0));
    store.upsert(snapshot("BTC", 500, 1));
    store.upsert(snapshot("SOL", 120, 2));

    let sol = store.get(&"SOL".to_string()).unwrap();
    assert_eq!(sol.price, 120);
    assert_eq!(sol.timestamp, 2);
    assert!(store.get(&"ETH".to_string()).is_none());

    let mut tokens = store.tokens();
    tokens.sort();
    assert_eq!(tokens, vec!["BTC".to_string(), "SOL".to_string()]);
}

#[test]
fn test_registry_register_evaluate_unregister() {
    let mut registry = AlertRegistry::new();
    assert_eq!(
        registry.register("SOL".to_string(), 0),
        Err(MonitorError::InvalidThreshold)
    );
    registry.register("SOL".to_string(), 200).unwrap();

    // Seeding observation.
    assert!(registry.evaluate_and_advance(&"SOL".to_string(), 100).is_none());
    // Below threshold.
    assert!(registry.evaluate_and_advance(&"SOL".to_string(), 101).is_none());
    // Crossing.
    let fire = registry.evaluate_and_advance(&"SOL".to_string(), 103).unwrap();
    assert_eq!(fire.old_reference_price, 100);
    assert_eq!(fire.change_bps, 300);

    // No rule: no evaluation.
    assert!(registry.evaluate_and_advance(&"BTC".to_string(), 1).is_none());

    registry.unregister(&"SOL".to_string());
    assert!(registry.list_tokens().is_empty());
    assert!(registry.evaluate_and_advance(&"SOL".to_string(), 1_000_000).is_none());
}

#[test]
fn test_monitor_error_variants() {
    assert_eq!(MonitorError::InvalidPrice, MonitorError::InvalidPrice);
    assert_ne!(MonitorError::InvalidPrice, MonitorError::InvalidThreshold);
}

#[test]
fn test_order_types_hold_their_fields() {
    let params = OrderParams {
        token: "SOL".to_string(),
        side: OrderSide::Buy,
        amount: 2_500,
        price: None,
    };
    assert_eq!(params.side, OrderSide::Buy);
    assert_ne!(OrderSide::Buy, OrderSide::Sell);

    let result = OrderResult {
        order_id: "order-1".to_string(),
        status: OrderStatus::Filled,
        filled_amount: 2_500,
        average_price: 14_550,
        latency_ms: 42,
    };
    assert_eq!(result.status, OrderStatus::Filled);
    assert_ne!(OrderStatus::Pending, OrderStatus::Cancelled);
    let copied = result.status;
    assert_eq!(copied, OrderStatus::Filled);
}
