//! The monitoring engine: ingestion, rule evaluation, alert delivery.
//!
//! On each ingested update the engine validates the price, replaces the
//! stored snapshot, runs the evaluate-and-advance algorithm on the token's
//! rule, and, when the rule fires, returns the alert event and publishes a
//! copy to the bounded sink. Updates for one token serialize on the engine
//! value; a caller that shards engines by token may run shards in parallel.

use vstd::prelude::*;

use crate::alert_registry::change_bps;
use crate::alert_registry::evaluate_model;
use crate::alert_registry::register_model;
use crate::alert_registry::rule_fires;
use crate::alert_registry::AlertRegistry;
use crate::alert_sink::bump_dropped;
use crate::alert_sink::AlertSink;
use crate::alert_sink::SinkModel;
use crate::alert_sink::DEFAULT_SINK_CAPACITY;
use crate::price_store::PriceStore;
use crate::types::AlertEvent;
use crate::types::AlertEventModel;
use crate::types::MonitorError;
use crate::types::PriceData;
use crate::types::RuleModel;
use crate::types::SnapshotModel;

verus! {

/// Mathematical image of a [`PriceMonitor`]: latest snapshots, alert rules,
/// and the sink of fired alerts.
pub struct MonitorModel {
    pub prices: Map<Seq<char>, SnapshotModel>,
    pub alerts: Map<Seq<char>, RuleModel>,
    pub sink: SinkModel,
}

/// An optional `u64` as an optional integer.
pub open spec fn opt_u64_model(o: Option<u64>) -> Option<int> {
    match o {
        Some(v) => Some(v as int),
        None => None,
    }
}

/// An optional `i64` as an optional integer.
pub open spec fn opt_i64_model(o: Option<i64>) -> Option<int> {
    match o {
        Some(v) => Some(v as int),
        None => None,
    }
}

/// The snapshot a valid update stores.
pub open spec fn ingest_snapshot(
    token: Seq<char>,
    price: int,
    timestamp: int,
    volume_24h: Option<int>,
    change_24h: Option<int>,
) -> SnapshotModel {
    SnapshotModel {
        token: token,
        price: price,
        timestamp: timestamp,
        volume_24h: volume_24h,
        change_24h: change_24h,
    }
}

/// The alert event a firing update produces: the old reference, the new
/// price, the exact change in hundredths of a percent, and the update's
/// timestamp.
pub open spec fn fired_event_model(
    alerts: Map<Seq<char>, RuleModel>,
    token: Seq<char>,
    price: int,
    timestamp: int,
) -> AlertEventModel {
    AlertEventModel {
        token: token,
        old_reference_price: alerts[token].last_price,
        new_price: price,
        change_bps: change_bps(alerts[token].last_price, price),
        triggered_at: timestamp,
    }
}

/// What one ingestion call does: how the engine moves from `pre` to `post`
/// and what it returns.
///
/// A zero price is rejected with `InvalidPrice` and nothing changes. For a
/// positive price the snapshot replaces the stored one unconditionally, the
/// token's rule is evaluated and advanced, and exactly when the rule fires
/// the alert event is returned and a copy lands in the sink — appended when
/// there is room, dropped and counted otherwise.
pub open spec fn ingest_transition(
    pre: MonitorModel,
    post: MonitorModel,
    r: Result<Option<AlertEvent>, MonitorError>,
    token: Seq<char>,
    price: int,
    timestamp: int,
    volume_24h: Option<int>,
    change_24h: Option<int>,
) -> bool {
    &&& (price == 0 ==> r == Err::<Option<AlertEvent>, MonitorError>(MonitorError::InvalidPrice)
        && post == pre)
    &&& (price > 0 ==> {
        &&& r is Ok
        &&& post.prices == pre.prices.insert(
            token,
            ingest_snapshot(token, price, timestamp, volume_24h, change_24h),
        )
        &&& post.alerts == evaluate_model(pre.alerts, token, price)
        &&& (r matches Ok(a) ==> {
            &&& a is Some <==> rule_fires(pre.alerts, token, price)
            &&& (a matches Some(ev) ==> ev@ == fired_event_model(
                pre.alerts,
                token,
                price,
                timestamp,
            ))
        })
    })
    &&& (price > 0 && !rule_fires(pre.alerts, token, price) ==> post.sink == pre.sink)
    &&& (price > 0 && rule_fires(pre.alerts, token, price) && pre.sink.events.len()
        < pre.sink.capacity ==> post.sink == (SinkModel {
        events: pre.sink.events.push(fired_event_model(pre.alerts, token, price, timestamp)),
        capacity: pre.sink.capacity,
        dropped: pre.sink.dropped,
    }))
    &&& (price > 0 && rule_fires(pre.alerts, token, price) && pre.sink.events.len()
        >= pre.sink.capacity ==> post.sink == (SinkModel {
        events: pre.sink.events,
        capacity: pre.sink.capacity,
        dropped: bump_dropped(pre.sink.dropped),
    }))
}

/// Relies on chrono::Utc::now, read as epoch milliseconds, for stamping
/// updates that arrive without a timestamp. The clock's value depends on
/// the moment of the call, so nothing is assumed of it.
#[verifier::external_body]
fn now_millis() -> i64 {
    chrono::Utc::now().timestamp_millis()
}

/// The monitoring engine: price store, alert registry, alert sink.
pub struct PriceMonitor {
    store: PriceStore,
    registry: AlertRegistry,
    sink: AlertSink,
}

impl View for PriceMonitor {
    type V = MonitorModel;

    closed spec fn view(&self) -> MonitorModel {
        MonitorModel { prices: self.store@, alerts: self.registry@, sink: self.sink@ }
    }
}

impl PriceMonitor {
    /// Internal invariant of the engine's parts.
    pub closed spec fn wf(&self) -> bool {
        &&& self.store.wf()
        &&& self.registry.wf()
    }

    /// A fresh engine with no snapshots, no rules, and an empty sink of the
    /// default capacity.
    pub fn new() -> (r: Self)
        ensures
            r.wf(),
            r@.prices == Map::<Seq<char>, SnapshotModel>::empty(),
            r@.alerts == Map::<Seq<char>, RuleModel>::empty(),
            r@.sink == (SinkModel {
                events: Seq::<AlertEventModel>::empty(),
                capacity: DEFAULT_SINK_CAPACITY as int,
                dropped: 0,
            }),
    {
        PriceMonitor::with_sink_capacity(DEFAULT_SINK_CAPACITY)
    }

    /// A fresh engine whose sink holds at most `sink_capacity` undrained
    /// alerts.
    pub fn with_sink_capacity(sink_capacity: usize) -> (r: Self)
        ensures
            r.wf(),
            r@.prices == Map::<Seq<char>, SnapshotModel>::empty(),
            r@.alerts == Map::<Seq<char>, RuleModel>::empty(),
            r@.sink == (SinkModel {
                events: Seq::<AlertEventModel>::empty(),
                capacity: sink_capacity as int,
                dropped: 0,
            }),
    {
        PriceMonitor {
            store: PriceStore::new(),
            registry: AlertRegistry::new(),
            sink: AlertSink::new(sink_capacity),
        }
    }

    /// Starts monitoring `token`: creates or replaces its rule, with the
    /// reference price reset to unset. Rejected with `InvalidThreshold`
    /// exactly when `threshold_bps` is zero, and then no rule is created or
    /// replaced.
    pub fn add_alert(&mut self, token: String, threshold_bps: u64) -> (r: Result<
        (),
        MonitorError,
    >)
        requires
            old(self).wf(),
        ensures
            final(self).wf(),
            final(self)@.prices == old(self)@.prices,
            final(self)@.sink == old(self)@.sink,
            threshold_bps == 0 ==> r == Err::<(), MonitorError>(MonitorError::InvalidThreshold)
                && final(self)@.alerts == old(self)@.alerts,
            threshold_bps > 0 ==> r == Ok::<(), MonitorError>(()) && final(self)@.alerts
                == register_model(old(self)@.alerts, token@, threshold_bps as int),
    {
        self.registry.register(token, threshold_bps)
    }

    /// Stops monitoring `token`. A no-op for an unknown token, never an
    /// error.
    pub fn remove_alert(&mut self, token: &String)
        requires
            old(self).wf(),
        ensures
            final(self).wf(),
            final(self)@.prices == old(self)@.prices,
            final(self)@.sink == old(self)@.sink,
            final(self)@.alerts == old(self)@.alerts.remove(token@),
    {
        self.registry.unregister(token);
    }

    /// Ingests one price update.
    ///
    /// A zero price is rejected with `InvalidPrice` and nothing changes.
    /// For a positive price the snapshot is stored unconditionally, the
    /// token's rule is evaluated and advanced, and exactly when the rule
    /// fires the alert event is returned and a copy is published to the
    /// sink (dropped there, with the drop counted, if the sink is full —
    /// delivery never fails ingestion).
    pub fn update_price(
        &mut self,
        token: String,
        price: u64,
        timestamp: i64,
        volume_24h: Option<u64>,
        change_24h: Option<i64>,
    ) -> (r: Result<Option<AlertEvent>, MonitorError>)
        requires
            old(self).wf(),
        ensures
            final(self).wf(),
            ingest_transition(
                old(self)@,
                final(self)@,
                r,
                token@,
                price as int,
                timestamp as int,
                opt_u64_model(volume_24h),
                opt_i64_model(change_24h),
            ),
    {
        if price == 0 {
            return Err(MonitorError::InvalidPrice);
        }
        let snapshot = PriceData {
            token: token.clone(),
            price,
            timestamp,
            volume_24h,
            change_24h,
        };
        self.store.upsert(snapshot);
        match self.registry.evaluate_and_advance(&token, price) {
            None => Ok(None),
            Some(fire) => {
                let published = AlertEvent {
                    token: token.clone(),
                    old_reference_price: fire.old_reference_price,
                    new_price: price,
                    change_bps: fire.change_bps,
                    triggered_at: timestamp,
                };
                let returned = AlertEvent {
                    token,
                    old_reference_price: fire.old_reference_price,
                    new_price: price,
                    change_bps: fire.change_bps,
                    triggered_at: timestamp,
                };
                self.sink.publish(published);
                Ok(Some(returned))
            },
        }
    }

    /// Ingests one price update stamped with the wall clock, for feeds
    /// whose ticks carry no timestamp of their own. Apart from the
    /// timestamp, which is whatever the clock returned, it does exactly
    /// what [`PriceMonitor::update_price`] does.
    pub fn update_price_now(
        &mut self,
        token: String,
        price: u64,
        volume_24h: Option<u64>,
        change_24h: Option<i64>,
    ) -> (r: Result<Option<AlertEvent>, MonitorError>)
        requires
            old(self).wf(),
        ensures
            final(self).wf(),
            exists|timestamp: int|
                #[trigger] ingest_transition(
                    old(self)@,
                    final(self)@,
                    r,
                    token@,
                    price as int,
                    timestamp,
                    opt_u64_model(volume_24h),
                    opt_i64_model(change_24h),
                ),
    {
        let timestamp = now_millis();
        self.update_price(token, price, timestamp, volume_24h, change_24h)
    }

    /// The latest ingested price for `token`, if any update for it was
    /// accepted.
    pub fn get_price(&self, token: &String) -> (r: Option<u64>)
        requires
            self.wf(),
        ensures
            r is Some <==> self@.prices.contains_key(token@),
            r matches Some(p) ==> p as int == self@.prices[token@].price,
    {
        match self.store.get(token) {
            Some(data) => Some(data.price),
            None => None,
        }
    }

    /// The latest stored snapshot for `token`, if any.
    pub fn get_snapshot(&self, token: &String) -> (r: Option<&PriceData>)
        requires
            self.wf(),
        ensures
            r is Some <==> self@.prices.contains_key(token@),
            r matches Some(d) ==> d@ == self@.prices[token@],
    {
        self.store.get(token)
    }

    /// The set of tokens with an alert rule, one copy each.
    pub fn get_monitored_tokens(&self) -> (r: Vec<String>)
        requires
            self.wf(),
        ensures
            forall|i: int| 0 <= i < r@.len() ==> self@.alerts.contains_key(#[trigger] r@[i]@),
            forall|k: Seq<char>| #[trigger]
                self@.alerts.contains_key(k) ==> exists|i: int|
                    0 <= i < r@.len() && r@[i]@ == k,
            forall|i: int, j: int| 0 <= i < j < r@.len() ==> r@[i]@ != r@[j]@,
    {
        self.registry.list_tokens()
    }

    /// Hands out the alerts buffered in the sink, oldest first, and empties
    /// the buffer.
    pub fn drain_alerts(&mut self) -> (r: Vec<AlertEvent>)
        requires
            old(self).wf(),
        ensures
            final(self).wf(),
            r@.map_values(|e: AlertEvent| e@) == old(self)@.sink.events,
            final(self)@.sink == (SinkModel {
                events: Seq::<AlertEventModel>::empty(),
                capacity: old(self)@.sink.capacity,
                dropped: old(self)@.sink.dropped,
            }),
            final(self)@.prices == old(self)@.prices,
            final(self)@.alerts == old(self)@.alerts,
    {
        self.sink.drain()
    }

    /// How many alerts were dropped because the sink was full.
    pub fn dropped_alert_count(&self) -> (r: u64)
        ensures
            r as int == self@.sink.dropped,
    {
        self.sink.dropped_count()
    }
}

impl Default for PriceMonitor {
    /// Same as [`PriceMonitor::new`].
    fn default() -> (r: Self)
        ensures
            r.wf(),
            r@.prices == Map::<Seq<char>, SnapshotModel>::empty(),
            r@.alerts == Map::<Seq<char>, RuleModel>::empty(),
            r@.sink == (SinkModel {
                events: Seq::<AlertEventModel>::empty(),
                capacity: DEFAULT_SINK_CAPACITY as int,
                dropped: 0,
            }),
    {
        PriceMonitor::new()
    }
}

} // verus!
