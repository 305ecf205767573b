// Tests of the bounded alert sink: delivery, capacity, drop counting.

use moon_rust_core::AlertEvent;
use moon_rust_core::AlertSink;
use moon_rust_core::PriceMonitor;

fn sample_event(tag: i64) -> AlertEvent {
    AlertEvent {
        token: "SOL".to_string(),
        old_reference_price: 100,
        new_price: 103,
        change_bps: 300,
        triggered_at: tag,
    }
}

#[test]
fn test_sink_publish_and_drain_in_order() {
    let mut sink = AlertSink::new(8);
    assert_eq!(sink.capacity(), 8);
    assert_eq!(sink.len(), 0);

    sink.publish(sample_event(1));
    sink.publish(sample_event(2));
    assert_eq!(sink.len(), 2);

    let drained = sink.drain();
    assert_eq!(drained.len(), 2);
    assert_eq!(drained[0].triggered_at, 1);
    assert_eq!(drained[1].triggered_at, 2);
    assert_eq!(sink.len(), 0);
    assert_eq!(sink.dropped_count(), 0);

    // A second drain hands out nothing: a late consumer does not see past
    // events.
    assert!(sink.drain().is_empty());
}

#[test]
fn test_sink_full_drops_and_counts() {
    let mut sink = AlertSink::new(1);
    sink.publish(sample_event(1));
    sink.publish(sample_event(2));
    sink.publish(sample_event(3));

    assert_eq!(sink.dropped_count(), 2);
    let drained = sink.drain();
    assert_eq!(drained.len(), 1);
    assert_eq!(drained[0].triggered_at, 1);

    // Draining makes room again; the drop counter stays.
    sink.publish(sample_event(4));
    assert_eq!(sink.len(), 1);
    assert_eq!(sink.dropped_count(), 2);
}

#[test]
fn test_engine_sink_backpressure_never_fails_ingestion() {
    let mut monitor = PriceMonitor::with_sink_capacity(2);
    monitor.add_alert("SOL".to_string(), 1).unwrap(); // 0.01%
    monitor.update_price("SOL".to_string(), 100, 0, None, None).unwrap();

    // Three fires into a sink of capacity two: every ingestion still
    // succeeds and returns its event.
    for (i, p) in [200u64, 400, 800].iter().enumerate() {
        let result = monitor
            .update_price("SOL".to_string(), *p, (i + 1) as i64, None, None)
            .unwrap();
        assert!(result.is_some());
    }

    assert_eq!(monitor.dropped_alert_count(), 1);
    let buffered = monitor.drain_alerts();
    assert_eq!(buffered.len(), 2);
    assert_eq!(buffered[0].new_price, 200);
    assert_eq!(buffered[1].new_price, 400);
}
