//! Real-time market-data monitoring engine.
//!
//! The engine ingests a stream of price updates for many tokens, keeps the
//! latest snapshot per token, evaluates per-token percentage-change alert
//! rules on every update, and hands fired alerts to a bounded sink.
//!
//! Prices are fixed-point integers in a unit chosen by the caller (the
//! threshold test is scale-invariant); thresholds and reported changes are in
//! hundredths of a percent (basis points). This keeps every quantity exact.

pub mod alert_registry;
pub mod alert_sink;
pub mod laws;
pub mod price_monitor;
pub mod price_store;
pub mod types;

pub use alert_registry::AlertRegistry;
pub use alert_sink::AlertSink;
pub use price_monitor::PriceMonitor;
pub use price_store::PriceStore;
pub use types::AlertEvent;
pub use types::MonitorError;
pub use types::OrderParams;
pub use types::OrderResult;
pub use types::OrderSide;
pub use types::OrderStatus;
pub use types::PriceAlert;
pub use types::PriceData;
