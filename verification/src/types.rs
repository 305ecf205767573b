//! Common data types of the monitoring engine.
//!
//! All monetary quantities are fixed-point integers: a price is a `u64` in a
//! unit chosen by the caller (for example hundredths of a dollar), a
//! threshold or a percentage change is in hundredths of a percent (basis
//! points). Timestamps are epoch milliseconds supplied by the feed.

use vstd::prelude::*;

verus! {

/// Why the engine rejected an input.
#[derive(Clone, Copy, Debug, PartialEq, Eq, Structural)]
pub enum MonitorError {
    /// A price update with price zero: prices must be strictly positive.
    InvalidPrice,
    /// An alert registration with threshold zero: thresholds must be
    /// strictly positive.
    InvalidThreshold,
}

/// Latest known price snapshot for a token.
#[derive(Clone, Debug)]
pub struct PriceData {
    pub token: String,
    /// Strictly positive fixed-point price.
    pub price: u64,
    /// Epoch milliseconds at which the price was observed.
    pub timestamp: i64,
    /// Optional 24-hour volume, in the same fixed-point unit.
    pub volume_24h: Option<u64>,
    /// Optional 24-hour change, in basis points.
    pub change_24h: Option<i64>,
}

/// Mathematical image of a [`PriceData`] value.
pub struct SnapshotModel {
    pub token: Seq<char>,
    pub price: int,
    pub timestamp: int,
    pub volume_24h: Option<int>,
    pub change_24h: Option<int>,
}

impl View for PriceData {
    type V = SnapshotModel;

    open spec fn view(&self) -> SnapshotModel {
        SnapshotModel {
            token: self.token@,
            price: self.price as int,
            timestamp: self.timestamp as int,
            volume_24h: match self.volume_24h {
                Some(v) => Some(v as int),
                None => None,
            },
            change_24h: match self.change_24h {
                Some(c) => Some(c as int),
                None => None,
            },
        }
    }
}

/// Alert rule for one token: fire when the price moves, in either direction,
/// at least `threshold_bps` hundredths of a percent away from `last_price`.
///
/// `last_price` is the reference price the rule measures against; zero means
/// "unset, awaiting the first observation". It advances to the triggering
/// price each time the rule fires, so later alerts measure from the last
/// alert point.
#[derive(Clone, Debug)]
pub struct PriceAlert {
    pub token: String,
    /// Strictly positive threshold in hundredths of a percent.
    pub threshold_bps: u64,
    /// Reference price; zero while no price has been observed.
    pub last_price: u64,
    pub active: bool,
}

/// Mathematical image of a [`PriceAlert`] value.
pub struct RuleModel {
    pub token: Seq<char>,
    pub threshold_bps: int,
    pub last_price: int,
    pub active: bool,
}

impl View for PriceAlert {
    type V = RuleModel;

    open spec fn view(&self) -> RuleModel {
        RuleModel {
            token: self.token@,
            threshold_bps: self.threshold_bps as int,
            last_price: self.last_price as int,
            active: self.active,
        }
    }
}

/// One fired alert, handed to the alert sink and returned to the caller of
/// the ingestion path.
#[derive(Clone, Debug, PartialEq, Eq)]
pub struct AlertEvent {
    pub token: String,
    /// The reference price the change was measured against.
    pub old_reference_price: u64,
    /// The price that triggered the alert; it becomes the new reference.
    pub new_price: u64,
    /// Signed change from the reference, in hundredths of a percent,
    /// rounded towards zero.
    pub change_bps: i128,
    /// Epoch milliseconds of the triggering update.
    pub triggered_at: i64,
}

/// Mathematical image of an [`AlertEvent`] value.
pub struct AlertEventModel {
    pub token: Seq<char>,
    pub old_reference_price: int,
    pub new_price: int,
    pub change_bps: int,
    pub triggered_at: int,
}

impl View for AlertEvent {
    type V = AlertEventModel;

    open spec fn view(&self) -> AlertEventModel {
        AlertEventModel {
            token: self.token@,
            old_reference_price: self.old_reference_price as int,
            new_price: self.new_price as int,
            change_bps: self.change_bps as int,
            triggered_at: self.triggered_at as int,
        }
    }
}

/// Side of an order.
#[derive(Clone, Copy, Debug, PartialEq, Eq, Structural)]
pub enum OrderSide {
    Buy,
    Sell,
}

/// Lifecycle state of an order.
#[derive(Clone, Copy, Debug, PartialEq, Eq, Structural)]
pub enum OrderStatus {
    Pending,
    PartiallyFilled,
    Filled,
    Cancelled,
    Failed,
}

/// Parameters of an order request.
#[derive(Clone, Debug)]
pub struct OrderParams {
    pub token: String,
    pub side: OrderSide,
    /// Fixed-point amount.
    pub amount: u64,
    /// Fixed-point limit price; `None` for market orders.
    pub price: Option<u64>,
}

/// Outcome of an order request.
#[derive(Clone, Debug)]
pub struct OrderResult {
    pub order_id: String,
    pub status: OrderStatus,
    /// Fixed-point filled amount.
    pub filled_amount: u64,
    /// Fixed-point average fill price.
    pub average_price: u64,
    pub latency_ms: u64,
}

} // verus!
