// Tests of the monitoring engine through its public interface.
//
// Prices are fixed-point integers in a caller-chosen unit; thresholds and
// reported changes are in hundredths of a percent (basis points), so a
// threshold of 2% is written 200.

use moon_rust_core::types::MonitorError;
use moon_rust_core::PriceMonitor;

#[test]
fn test_price_monitor_basic() {
    let mut monitor = PriceMonitor::new();

    // Add alert: 2% threshold.
    assert!(monitor.add_alert("SOL".to_string(), 200).is_ok());

    // First update.
    let result = monitor.update_price("SOL".to_string(), 100, 0, None, None);
    assert!(result.is_ok());
    assert!(result.unwrap().is_none()); // No alert on first update

    // Small change (should not trigger): 1% < 2%.
    let result = monitor.update_price("SOL".to_string(), 101, 1, None, None);
    assert!(result.is_ok());
    assert!(result.unwrap().is_none());

    // Large change (should trigger): 3% >= 2%.
    let result = monitor.update_price("SOL".to_string(), 103, 2, None, None);
    assert!(result.is_ok());
    assert!(result.unwrap().is_some());
}

#[test]
fn test_get_price() {
    let mut monitor = PriceMonitor::new();
    // 145.50 in hundredths of a dollar.
    monitor.update_price("SOL".to_string(), 14550, 0, None, None).unwrap();

    let price = monitor.get_price(&"SOL".to_string());
    assert_eq!(price, Some(14550));

    let missing = monitor.get_price(&"BTC".to_string());
    assert_eq!(missing, None);
}

#[test]
fn test_registered_token_monitored_until_unregistered() {
    let mut monitor = PriceMonitor::new();
    monitor.add_alert("SOL".to_string(), 200).unwrap();
    assert!(monitor.get_monitored_tokens().contains(&"SOL".to_string()));

    // Ingestion does not add or remove monitored tokens.
    monitor.update_price("SOL".to_string(), 100, 0, None, None).unwrap();
    monitor.update_price("BTC".to_string(), 500, 1, None, None).unwrap();
    let tokens = monitor.get_monitored_tokens();
    assert!(tokens.contains(&"SOL".to_string()));
    assert_eq!(tokens.len(), 1);

    monitor.remove_alert(&"SOL".to_string());
    assert!(monitor.get_monitored_tokens().is_empty());
}

#[test]
fn test_first_ingest_never_alerts() {
    let mut monitor = PriceMonitor::new();
    monitor.add_alert("SOL".to_string(), 200).unwrap();
    // However extreme the first observed price, it only seeds the baseline.
    let result = monitor.update_price("SOL".to_string(), 1_000_000, 0, None, None).unwrap();
    assert!(result.is_none());
    assert_eq!(monitor.get_price(&"SOL".to_string()), Some(1_000_000));
}

#[test]
fn test_below_threshold_keeps_reference() {
    let mut monitor = PriceMonitor::new();
    monitor.add_alert("SOL".to_string(), 200).unwrap();
    monitor.update_price("SOL".to_string(), 100, 0, None, None).unwrap();

    // 1% < 2%: no alert, reference stays 100.
    let result = monitor.update_price("SOL".to_string(), 101, 1, None, None).unwrap();
    assert!(result.is_none());

    // 2% from the unchanged reference 100 (not from 101): fires exactly at
    // the threshold.
    let result = monitor.update_price("SOL".to_string(), 102, 2, None, None).unwrap();
    let event = result.unwrap();
    assert_eq!(event.old_reference_price, 100);
    assert_eq!(event.change_bps, 200);
}

#[test]
fn test_crossing_fires_and_rebaselines() {
    let mut monitor = PriceMonitor::new();
    monitor.add_alert("SOL".to_string(), 200).unwrap();
    monitor.update_price("SOL".to_string(), 100, 0, None, None).unwrap();
    assert!(monitor.update_price("SOL".to_string(), 101, 1, None, None).unwrap().is_none());

    // 3% >= 2%: exactly one alert, with the exact change from reference 100.
    let event = monitor.update_price("SOL".to_string(), 103, 2, None, None).unwrap().unwrap();
    assert_eq!(event.token, "SOL".to_string());
    assert_eq!(event.old_reference_price, 100);
    assert_eq!(event.new_price, 103);
    assert_eq!(event.change_bps, 300); // 3.00%
    assert_eq!(event.triggered_at, 2);

    // Re-baselined to 103: 104 is a 0.97% move, below the threshold.
    let result = monitor.update_price("SOL".to_string(), 104, 3, None, None).unwrap();
    assert!(result.is_none());
}

#[test]
fn test_unregister_unknown_token_is_noop() {
    let mut monitor = PriceMonitor::new();
    monitor.remove_alert(&"GHOST".to_string());
    assert!(monitor.get_monitored_tokens().is_empty());

    monitor.add_alert("SOL".to_string(), 200).unwrap();
    monitor.remove_alert(&"GHOST".to_string());
    assert_eq!(monitor.get_monitored_tokens(), vec!["SOL".to_string()]);
}

#[test]
fn test_serialized_run_fires_exactly_once() {
    // A serialized run of increasing prices that crosses the threshold
    // exactly once produces exactly one alert event.
    let mut monitor = PriceMonitor::new();
    monitor.add_alert("SOL".to_string(), 200).unwrap();
    let prices: [u64; 4] = [100, 101, 103, 104];
    let mut alerts = 0;
    for (i, p) in prices.iter().enumerate() {
        let result = monitor.update_price("SOL".to_string(), *p, i as i64, None, None).unwrap();
        if result.is_some() {
            alerts += 1;
        }
    }
    assert_eq!(alerts, 1);
    assert_eq!(monitor.drain_alerts().len(), 1);
}

#[test]
fn test_invalid_price_rejected_and_state_untouched() {
    let mut monitor = PriceMonitor::new();
    monitor.update_price("SOL".to_string(), 14550, 0, None, None).unwrap();

    let result = monitor.update_price("SOL".to_string(), 0, 1, None, None);
    assert_eq!(result, Err(MonitorError::InvalidPrice));
    assert_eq!(monitor.get_price(&"SOL".to_string()), Some(14550));

    let mut fresh = PriceMonitor::new();
    assert_eq!(
        fresh.update_price("SOL".to_string(), 0, 0, None, None),
        Err(MonitorError::InvalidPrice)
    );
    assert_eq!(fresh.get_price(&"SOL".to_string()), None);
}

#[test]
fn test_invalid_threshold_rejected_no_rule_created() {
    let mut monitor = PriceMonitor::new();
    assert_eq!(
        monitor.add_alert("SOL".to_string(), 0),
        Err(MonitorError::InvalidThreshold)
    );
    assert!(monitor.get_monitored_tokens().is_empty());

    // With no rule, even a huge move never alerts.
    assert!(monitor.update_price("SOL".to_string(), 100, 0, None, None).unwrap().is_none());
    assert!(monitor.update_price("SOL".to_string(), 1000, 1, None, None).unwrap().is_none());
}

#[test]
fn test_reregistering_resets_reference() {
    let mut monitor = PriceMonitor::new();
    monitor.add_alert("SOL".to_string(), 200).unwrap();
    monitor.update_price("SOL".to_string(), 100, 0, None, None).unwrap();

    // Replacing the rule discards the prior reference price.
    monitor.add_alert("SOL".to_string(), 200).unwrap();
    let result = monitor.update_price("SOL".to_string(), 200, 1, None, None).unwrap();
    assert!(result.is_none()); // seeding again, not a 100% move
}

#[test]
fn test_negative_change_exact_value() {
    let mut monitor = PriceMonitor::new();
    monitor.add_alert("SOL".to_string(), 1000).unwrap(); // 10%
    monitor.update_price("SOL".to_string(), 200, 0, None, None).unwrap();

    // 200 -> 150 is -25.00%.
    let event = monitor.update_price("SOL".to_string(), 150, 1, None, None).unwrap().unwrap();
    assert_eq!(event.change_bps, -2500);
    assert_eq!(event.old_reference_price, 200);
}

#[test]
fn test_change_rounds_towards_zero() {
    let mut monitor = PriceMonitor::new();
    monitor.add_alert("SOL".to_string(), 200).unwrap();
    monitor.update_price("SOL".to_string(), 300, 0, None, None).unwrap();

    // 300 -> 310 is 3.333...%, reported as 333 (rounded towards zero).
    let event = monitor.update_price("SOL".to_string(), 310, 1, None, None).unwrap().unwrap();
    assert_eq!(event.change_bps, 333);
}

#[test]
fn test_update_price_now_stamps_with_clock() {
    let mut monitor = PriceMonitor::new();
    monitor.add_alert("SOL".to_string(), 200).unwrap();

    let before_ms = std::time::SystemTime::now()
        .duration_since(std::time::UNIX_EPOCH)
        .unwrap()
        .as_millis() as i64;
    assert!(monitor
        .update_price_now("SOL".to_string(), 100, None, None)
        .unwrap()
        .is_none());
    let event = monitor
        .update_price_now("SOL".to_string(), 103, None, None)
        .unwrap()
        .unwrap();
    let after_ms = std::time::SystemTime::now()
        .duration_since(std::time::UNIX_EPOCH)
        .unwrap()
        .as_millis() as i64;

    assert_eq!(event.old_reference_price, 100);
    assert_eq!(event.change_bps, 300);
    assert!(event.triggered_at >= before_ms && event.triggered_at <= after_ms);
    assert_eq!(monitor.get_price(&"SOL".to_string()), Some(103));
}

#[test]
fn test_snapshot_keeps_optional_fields() {
    let mut monitor = PriceMonitor::new();
    monitor
        .update_price("SOL".to_string(), 14550, 7, Some(1_000_000), Some(-150))
        .unwrap();
    let snapshot = monitor.get_snapshot(&"SOL".to_string()).unwrap();
    assert_eq!(snapshot.token, "SOL".to_string());
    assert_eq!(snapshot.price, 14550);
    assert_eq!(snapshot.timestamp, 7);
    assert_eq!(snapshot.volume_24h, Some(1_000_000));
    assert_eq!(snapshot.change_24h, Some(-150));
}
