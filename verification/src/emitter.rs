//! The target-side emission path.
//!
//! Every record carries the time since the previous record, so the emitter
//! owns the last timestamp; the clock is a 32-bit microsecond counter whose
//! wrap-around the delta subtraction absorbs. When the transport cannot
//! accept a record the event is dropped and counted, and the next record to
//! go out is preceded by a synthetic data-loss event carrying the count; if
//! that synthetic record is itself refused, the count is restored and tried
//! again later.

use vstd::prelude::*;

use crate::protocol::event_payload::wf_event;
use crate::protocol::EventPayload;
use crate::time_delta::TimeDelta;
use crate::tracing::{spec_record_bytes, write_tracing_event};

verus! {

/// The delta between two readings of a wrapping 32-bit microsecond clock.
pub open spec fn spec_wrapping_delta(now: u32, last: u32) -> u32 {
    if now >= last {
        (now - last) as u32
    } else {
        (0x1_0000_0000 + now - last) as u32
    }
}

/// The serialization side of the target: the last emitted timestamp and the
/// count of events dropped on a full transport.
pub struct TraceEmitter {
    /// The clock reading of the last emitted record.
    pub last_timestamp: u32,
    /// How many events were dropped since the last successful write.
    pub dropped_events: u32,
}

impl TraceEmitter {
    /// A fresh emitter: deltas count from clock zero, nothing dropped.
    pub fn new() -> (r: TraceEmitter)
        ensures
            r.last_timestamp == 0,
            r.dropped_events == 0,
    {
        TraceEmitter { last_timestamp: 0, dropped_events: 0 }
    }

    /// Serialize one record at the given clock reading: the delta since the
    /// last record, then the event. The reading becomes the new last
    /// timestamp.
    pub fn make_record(&mut self, event: &EventPayload, now_us: u32) -> (r: Vec<u8>)
        requires
            wf_event(event@),
        ensures
            r@ == spec_record_bytes(
                spec_wrapping_delta(now_us, old(self).last_timestamp),
                event@,
            ),
            final(self).last_timestamp == now_us,
            final(self).dropped_events == old(self).dropped_events,
    {
        let delta = if now_us >= self.last_timestamp {
            now_us - self.last_timestamp
        } else {
            let diff: u64 = 0x1_0000_0000u64 + now_us as u64 - self.last_timestamp as u64;
            diff as u32
        };
        assert(delta == spec_wrapping_delta(now_us, self.last_timestamp));
        self.last_timestamp = now_us;
        write_tracing_event(TimeDelta::new(delta), event)
    }

    /// The transport refused a record: count the dropped event. The count
    /// stops at its maximum rather than wrapping.
    pub fn note_transport_full(&mut self)
        ensures
            final(self).last_timestamp == old(self).last_timestamp,
            final(self).dropped_events == if old(self).dropped_events < u32::MAX {
                (old(self).dropped_events + 1) as u32
            } else {
                u32::MAX
            },
    {
        if self.dropped_events < u32::MAX {
            self.dropped_events = self.dropped_events + 1;
        }
    }

    /// If events were dropped, produce the synthetic data-loss record that
    /// must precede the next data, clearing the count; the caller restores
    /// the count if this record cannot be written either.
    pub fn take_data_loss_record(&mut self, now_us: u32) -> (r: Option<(Vec<u8>, u32)>)
        ensures
            match r {
                Some((bytes, count)) => {
                    &&& old(self).dropped_events > 0
                    &&& count == old(self).dropped_events
                    &&& bytes@ == spec_record_bytes(
                        spec_wrapping_delta(now_us, old(self).last_timestamp),
                        crate::protocol::event_payload::EventView::DataLoss {
                            dropped_events: count,
                        },
                    )
                    &&& final(self).dropped_events == 0
                    &&& final(self).last_timestamp == now_us
                },
                None => old(self).dropped_events == 0 && *final(self) == *old(self),
            },
    {
        if self.dropped_events == 0 {
            return None;
        }
        let count = self.dropped_events;
        self.dropped_events = 0;
        let event = EventPayload::DataLossEvent { dropped_events: count };
        let bytes = self.make_record(&event, now_us);
        Some((bytes, count))
    }

    /// A synthetic data-loss record could not be written: restore its count
    /// so it is retried later. The count stops at its maximum.
    pub fn restore_dropped(&mut self, count: u32)
        ensures
            final(self).last_timestamp == old(self).last_timestamp,
            final(self).dropped_events == if old(self).dropped_events + count <= u32::MAX {
                (old(self).dropped_events + count) as u32
            } else {
                u32::MAX
            },
    {
        if count <= u32::MAX - self.dropped_events {
            self.dropped_events = self.dropped_events + count;
        } else {
            self.dropped_events = u32::MAX;
        }
    }
}

} // verus!
