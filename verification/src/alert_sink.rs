//! Bounded sink of fired alerts.
//!
//! Publishing never blocks and never fails: when the buffer is full the
//! event is dropped and a drop counter is bumped, so monitoring cannot
//! back-pressure the ingestion path. A consumer drains the buffered events;
//! a late consumer does not receive events drained before it arrived.

use vstd::prelude::*;

use crate::types::AlertEvent;
use crate::types::AlertEventModel;

verus! {

/// Buffer size the engine uses when none is chosen.
pub const DEFAULT_SINK_CAPACITY: usize = 1024;

/// Mathematical image of an [`AlertSink`]: the buffered events in arrival
/// order, the bound, and how many events were dropped for want of room.
pub struct SinkModel {
    pub events: Seq<AlertEventModel>,
    pub capacity: int,
    pub dropped: int,
}

/// The drop counter after one more drop: it saturates rather than wraps.
pub open spec fn bump_dropped(d: int) -> int {
    if d < u64::MAX {
        d + 1
    } else {
        d
    }
}

/// Bounded buffer of alert events with a drop counter.
pub struct AlertSink {
    events: Vec<AlertEvent>,
    capacity: usize,
    dropped: u64,
}

impl View for AlertSink {
    type V = SinkModel;

    closed spec fn view(&self) -> SinkModel {
        SinkModel {
            events: self.events@.map_values(|e: AlertEvent| e@),
            capacity: self.capacity as int,
            dropped: self.dropped as int,
        }
    }
}

impl AlertSink {
    /// An empty sink that holds at most `capacity` undrained events.
    pub fn new(capacity: usize) -> (r: Self)
        ensures
            r@ == (SinkModel {
                events: Seq::<AlertEventModel>::empty(),
                capacity: capacity as int,
                dropped: 0,
            }),
    {
        let r = AlertSink { events: Vec::new(), capacity, dropped: 0 };
        proof {
            assert(r.events@.map_values(|e: AlertEvent| e@) =~= Seq::<AlertEventModel>::empty());
        }
        r
    }

    /// Appends the event when there is room; otherwise drops it and bumps
    /// the drop counter. Never an error for the caller.
    pub fn publish(&mut self, event: AlertEvent)
        ensures
            old(self)@.events.len() < old(self)@.capacity ==> final(self)@ == (SinkModel {
                events: old(self)@.events.push(event@),
                capacity: old(self)@.capacity,
                dropped: old(self)@.dropped,
            }),
            old(self)@.events.len() >= old(self)@.capacity ==> final(self)@ == (SinkModel {
                events: old(self)@.events,
                capacity: old(self)@.capacity,
                dropped: bump_dropped(old(self)@.dropped),
            }),
    {
        if self.events.len() < self.capacity {
            let ghost e0 = self.events@;
            self.events.push(event);
            proof {
                assert(self.events@.map_values(|e: AlertEvent| e@) =~= e0.map_values(
                    |e: AlertEvent| e@,
                ).push(event@));
            }
        } else {
            if self.dropped < u64::MAX {
                self.dropped = self.dropped + 1;
            }
        }
    }

    /// Hands out the buffered events in arrival order and empties the
    /// buffer; the capacity and the drop counter stay.
    pub fn drain(&mut self) -> (r: Vec<AlertEvent>)
        ensures
            r@.map_values(|e: AlertEvent| e@) == old(self)@.events,
            final(self)@ == (SinkModel {
                events: Seq::<AlertEventModel>::empty(),
                capacity: old(self)@.capacity,
                dropped: old(self)@.dropped,
            }),
    {
        let mut taken: Vec<AlertEvent> = Vec::new();
        core::mem::swap(&mut taken, &mut self.events);
        proof {
            assert(self.events@.map_values(|e: AlertEvent| e@) =~= Seq::<
                AlertEventModel,
            >::empty());
        }
        taken
    }

    /// How many events are buffered.
    pub fn len(&self) -> (r: usize)
        ensures
            r as int == self@.events.len(),
    {
        self.events.len()
    }

    /// The buffer bound.
    pub fn capacity(&self) -> (r: usize)
        ensures
            r as int == self@.capacity,
    {
        self.capacity
    }

    /// How many events were dropped because the buffer was full.
    pub fn dropped_count(&self) -> (r: u64)
        ensures
            r as int == self@.dropped,
    {
        self.dropped
    }
}

} // verus!
