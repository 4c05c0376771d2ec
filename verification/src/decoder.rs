//! Host stream decoder.
//!
//! The decoder reassembles the raw byte stream into timestamped events. It
//! keeps a growable byte buffer, the running absolute timestamp (each record
//! carries a delta), and the dictionary of value-monitor types learned from
//! type definitions. Truncated records stay buffered for the next feed; any
//! other decode failure advances the cursor one byte to resynchronize, and
//! is counted so callers see that bytes were skipped.

use vstd::prelude::*;

use crate::buffer::BufferReader;
use crate::protocol::event_payload::EventView;
use crate::protocol::typedef_payload::TypeDefView;
use crate::protocol::{
    DecodeError, EventPayload, MonitorTypeDirectory, TypeDefinitionPayload,
};
use crate::tracing::{read_tracing_event, spec_read_record};

verus! {

/// One decoded event with its absolute timestamp in microseconds.
pub struct TracingItem {
    timestamp_us: u64,
    payload: EventPayload,
}

impl View for TracingItem {
    type V = (u64, EventView);

    closed spec fn view(&self) -> (u64, EventView) {
        (self.timestamp_us, self.payload@)
    }
}

impl TracingItem {
    /// Pair a timestamp with a decoded event.
    pub fn new(timestamp_us: u64, payload: EventPayload) -> (r: TracingItem)
        ensures
            r@ == (timestamp_us, payload@),
    {
        TracingItem { timestamp_us, payload }
    }

    /// The absolute timestamp in microseconds.
    pub fn timestamp(&self) -> (r: u64)
        ensures
            r == self@.0,
    {
        self.timestamp_us
    }

    /// The decoded event.
    pub fn payload(&self) -> (r: &EventPayload)
        ensures
            r@ == self@.1,
    {
        &self.payload
    }
}

/// The timestamps of decoded items.
pub open spec fn spec_items_of(items: Seq<TracingItem>) -> Seq<(u64, EventView)> {
    items.map_values(|it: TracingItem| it@)
}

/// Adding a delta to the running timestamp, stopping at the top of the
/// 64-bit range.
pub open spec fn spec_sat_add(last: u64, delta: u32) -> u64 {
    if last + delta <= u64::MAX {
        (last + delta) as u64
    } else {
        u64::MAX
    }
}

/// Counting skipped bytes, stopping at the top of the 64-bit range.
pub open spec fn spec_sat_count(count: u64, more: nat) -> u64 {
    if count + more <= u64::MAX {
        (count + more) as u64
    } else {
        u64::MAX
    }
}

/// The dictionary after seeing one event: a value-monitor type definition
/// registers its type, everything else leaves the dictionary alone.
pub open spec fn spec_learn_types(types: Seq<Option<u8>>, v: EventView) -> Seq<Option<u8>> {
    match v {
        EventView::TypeDefinition(TypeDefView::ValueMonitor { value_id, type_id, .. }) => types
            .update(value_id as int, Some(type_id)),
        _ => types,
    }
}

/// What one decode pass over `bytes` produces, starting from the given
/// dictionary and running timestamp.
pub struct DecodeRun {
    /// The decoded items in wire order, timestamps absolute.
    pub items: Seq<(u64, EventView)>,
    /// How many bytes the pass consumed.
    pub consumed: int,
    /// The dictionary after the pass.
    pub types: Seq<Option<u8>>,
    /// The running timestamp after the pass.
    pub last: u64,
    /// How many bytes were skipped to resynchronize.
    pub skipped: nat,
}

/// One decode pass: records are read until the input is exhausted or ends in
/// a truncated record; a record that fails any other way costs one skipped
/// byte.
pub open spec fn spec_decode(bytes: Seq<u8>, types: Seq<Option<u8>>, last: u64) -> DecodeRun
    decreases bytes.len(),
{
    match spec_read_record(bytes, types) {
        Ok(((delta, v), n)) => {
            if 1 <= n <= bytes.len() {
                let ts = spec_sat_add(last, delta);
                let learned = spec_learn_types(types, v);
                let rest = spec_decode(bytes.skip(n), learned, ts);
                DecodeRun {
                    items: seq![(ts, v)] + rest.items,
                    consumed: n + rest.consumed,
                    types: rest.types,
                    last: rest.last,
                    skipped: rest.skipped,
                }
            } else {
                DecodeRun { items: Seq::empty(), consumed: 0, types, last, skipped: 0 }
            }
        },
        Err(DecodeError::TruncatedInput) => DecodeRun {
            items: Seq::empty(),
            consumed: 0,
            types,
            last,
            skipped: 0,
        },
        Err(_) => {
            if bytes.len() >= 1 {
                let rest = spec_decode(bytes.skip(1), types, last);
                DecodeRun {
                    items: rest.items,
                    consumed: 1 + rest.consumed,
                    types: rest.types,
                    last: rest.last,
                    skipped: 1 + rest.skipped,
                }
            } else {
                DecodeRun { items: Seq::empty(), consumed: 0, types, last, skipped: 0 }
            }
        },
    }
}

/// Event round trip through the decoder: a decode pass over the encoding
/// of one well-formed event, under a dictionary whose entry for a sampled
/// value monitor matches the sample, yields exactly that event, timestamped
/// with the running time advanced by the (clamped) delta, and consumes the
/// whole encoding.
pub proof fn lemma_decode_round_trip(
    delta: u32,
    v: EventView,
    types: Seq<Option<u8>>,
    last: u64,
)
    requires
        crate::protocol::event_payload::wf_event(v),
        types.len() == 256,
        match v {
            EventView::MonitorValue { value_id, value } => types[value_id as int] == Some(
                crate::protocol::monitor_value_payload::spec_value_type_id(value),
            ),
            _ => true,
        },
    ensures
        ({
            let bytes = crate::tracing::spec_record_bytes(delta, v);
            let run = spec_decode(bytes, types, last);
            let ts = spec_sat_add(last, crate::time_delta::spec_clamped_delta(delta));
            &&& run.items == seq![(ts, v)]
            &&& run.consumed == bytes.len()
            &&& run.types == spec_learn_types(types, v)
            &&& run.last == ts
            &&& run.skipped == 0
        }),
{
    let bytes = crate::tracing::spec_record_bytes(delta, v);
    crate::tracing::lemma_record_round_trip(delta, v, Seq::empty(), types);
    assert(bytes + Seq::<u8>::empty() =~= bytes);
    let n = bytes.len() as int;
    let ts = spec_sat_add(last, crate::time_delta::spec_clamped_delta(delta));
    let learned = spec_learn_types(types, v);
    assert(bytes.skip(n) =~= Seq::<u8>::empty());
    let rest = spec_decode(bytes.skip(n), learned, ts);
    assert(rest.items =~= Seq::<(u64, EventView)>::empty());
    assert(spec_decode(bytes, types, last).items =~= seq![(ts, v)] + rest.items);
    assert(seq![(ts, v)] + rest.items =~= seq![(ts, v)]);
}

/// Host stream decoder: buffers raw bytes, yields timestamped events.
pub struct TraceDataDecoder {
    internal_buffer: Vec<u8>,
    monitors: MonitorTypeDirectory,
    last_timestamp_us: u64,
    skipped_bytes: u64,
}

impl TraceDataDecoder {
    /// The bytes waiting to be decoded.
    pub closed spec fn spec_buffer(&self) -> Seq<u8> {
        self.internal_buffer@
    }

    /// The learned value-monitor type dictionary.
    pub closed spec fn spec_monitors(&self) -> Seq<Option<u8>> {
        self.monitors@
    }

    /// The running absolute timestamp in microseconds.
    pub closed spec fn spec_last_timestamp(&self) -> u64 {
        self.last_timestamp_us
    }

    /// How many corrupt bytes have been skipped over the decoder's life.
    pub closed spec fn spec_skipped_bytes(&self) -> u64 {
        self.skipped_bytes
    }

    /// The dictionary always has one slot per possible monitor ID.
    pub open spec fn wf(&self) -> bool {
        self.spec_monitors().len() == 256
    }

    /// A fresh decoder: empty buffer, empty dictionary, timestamp zero.
    pub fn new() -> (r: TraceDataDecoder)
        ensures
            r.wf(),
            r.spec_buffer() == Seq::<u8>::empty(),
            forall|i: int| 0 <= i < 256 ==> r.spec_monitors()[i] is None,
            r.spec_last_timestamp() == 0,
            r.spec_skipped_bytes() == 0,
    {
        TraceDataDecoder {
            internal_buffer: Vec::new(),
            monitors: MonitorTypeDirectory::new(),
            last_timestamp_us: 0,
            skipped_bytes: 0,
        }
    }

    /// Append raw bytes from the transport to the internal buffer.
    pub fn feed(&mut self, data: &[u8])
        requires
            old(self).wf(),
        ensures
            final(self).wf(),
            final(self).spec_buffer() == old(self).spec_buffer() + data@,
            final(self).spec_monitors() == old(self).spec_monitors(),
            final(self).spec_last_timestamp() == old(self).spec_last_timestamp(),
            final(self).spec_skipped_bytes() == old(self).spec_skipped_bytes(),
    {
        let mut i: usize = 0;
        while i < data.len()
            invariant
                i <= data@.len(),
                self.internal_buffer@ == old(self).internal_buffer@ + data@.subrange(0, i as int),
                self.monitors == old(self).monitors,
                self.last_timestamp_us == old(self).last_timestamp_us,
                self.skipped_bytes == old(self).skipped_bytes,
            decreases data@.len() - i,
        {
            self.internal_buffer.push(data[i]);
            i = i + 1;
            assert(self.internal_buffer@ =~= old(self).internal_buffer@ + data@.subrange(
                0,
                i as int,
            ));
        }
        assert(self.internal_buffer@ =~= old(self).internal_buffer@ + data@);
    }

    /// Decode as many complete records as the buffer holds. Decoded events
    /// are returned in wire order with absolute timestamps; a trailing
    /// truncated record stays buffered; corrupt bytes are skipped one at a
    /// time and counted.
    #[verifier::rlimit(100)]
    #[verifier::spinoff_prover]
    pub fn decode(&mut self) -> (items: Vec<TracingItem>)
        requires
            old(self).wf(),
        ensures
            final(self).wf(),
            ({
                let run = spec_decode(
                    old(self).spec_buffer(),
                    old(self).spec_monitors(),
                    old(self).spec_last_timestamp(),
                );
                &&& spec_items_of(items@) == run.items
                &&& final(self).spec_buffer() == old(self).spec_buffer().skip(run.consumed)
                &&& final(self).spec_monitors() == run.types
                &&& final(self).spec_last_timestamp() == run.last
                &&& final(self).spec_skipped_bytes() == spec_sat_count(
                    old(self).spec_skipped_bytes(),
                    run.skipped,
                )
            }),
    {
        let ghost buf0 = self.internal_buffer@;
        let ghost types0 = self.monitors@;
        let ghost last0 = self.last_timestamp_us;
        let ghost skip0 = self.skipped_bytes;
        let ghost run0 = spec_decode(buf0, types0, last0);
        let mut items: Vec<TracingItem> = Vec::new();
        let mut pos: usize = 0;
        let ghost mut g_skipped: nat = 0;
        proof {
            assert(buf0.skip(0) =~= buf0);
            let rest = spec_decode(buf0, types0, last0);
            assert(spec_items_of(items@) + rest.items =~= rest.items);
        }
        loop
            invariant
                self.wf(),
                self.internal_buffer@ == buf0,
                pos <= buf0.len(),
                ({
                    let rest = spec_decode(
                        buf0.skip(pos as int),
                        self.monitors@,
                        self.last_timestamp_us,
                    );
                    &&& run0.items == spec_items_of(items@) + rest.items
                    &&& run0.consumed == pos + rest.consumed
                    &&& run0.types == rest.types
                    &&& run0.last == rest.last
                    &&& run0.skipped == g_skipped + rest.skipped
                }),
                self.skipped_bytes == spec_sat_count(skip0, g_skipped),
                run0 == spec_decode(buf0, types0, last0),
            ensures
                pos <= buf0.len(),
                spec_read_record(buf0.skip(pos as int), self.monitors@) == Err::<
                    ((u32, EventView), int),
                    _,
                >(DecodeError::TruncatedInput),
            decreases buf0.len() - pos,
        {
            let ghost types_pre = self.monitors@;
            let ghost last_pre = self.last_timestamp_us;
            let ghost chunk = buf0.skip(pos as int);
            let ghost rest_pre = spec_decode(chunk, types_pre, last_pre);
            let buffer_len = self.internal_buffer.len();
            let mut reader = BufferReader::new_at(self.internal_buffer.as_slice(), pos);
            assert(chunk =~= reader@.subrange(pos as int, reader@.len() as int));
            let outcome = read_tracing_event(&mut reader, &self.monitors);
            match outcome {
                Ok((td, payload)) => {
                    let new_pos = reader.get_position();
                    let ghost n = new_pos - pos;
                    assert(spec_read_record(chunk, types_pre) == Ok::<_, DecodeError>(
                        ((td.spec_delta_us(), payload@), n as int),
                    ));
                    let delta64 = td.get_delta_us() as u64;
                    let ts = if self.last_timestamp_us <= u64::MAX - delta64 {
                        self.last_timestamp_us + delta64
                    } else {
                        u64::MAX
                    };
                    self.last_timestamp_us = ts;
                    assert(ts == spec_sat_add(last_pre, td.spec_delta_us()));
                    match &payload {
                        EventPayload::TypeDefinition(
                            TypeDefinitionPayload::ValueMonitor { value_id, type_id, .. },
                        ) => {
                            self.monitors.register(*value_id, *type_id);
                        },
                        _ => {},
                    }
                    assert(self.monitors@ == spec_learn_types(types_pre, payload@));
                    let ghost payload_view = payload@;
                    let ghost items_pre = items@;
                    items.push(TracingItem { timestamp_us: ts, payload });
                    pos = new_pos;
                    proof {
                        let rest_post = spec_decode(
                            buf0.skip(pos as int),
                            self.monitors@,
                            self.last_timestamp_us,
                        );
                        assert(chunk.skip(n as int) =~= buf0.skip(pos as int));
                        assert(rest_pre.items == seq![(ts, payload_view)] + rest_post.items);
                        assert(spec_items_of(items@) =~= spec_items_of(items_pre) + seq![
                            (ts, payload_view),
                        ]) by {
                            assert(items@.last()@ == (ts, payload_view));
                        }
                        assert(spec_items_of(items@) + rest_post.items =~= spec_items_of(
                            items_pre,
                        ) + rest_pre.items);
                    }
                },
                Err(e) => {
                    match e {
                        DecodeError::TruncatedInput => {
                            assert(spec_read_record(chunk, types_pre) == Err::<
                                ((u32, EventView), int),
                                _,
                            >(DecodeError::TruncatedInput));
                            assert(chunk =~= buf0.skip(pos as int));
                            break;
                        },
                        _ => {
                            assert(spec_read_record(chunk, types_pre) == Err::<
                                ((u32, EventView), int),
                                _,
                            >(e));
                            assert(chunk.len() >= 1);
                            let ghost rest_post = spec_decode(
                                buf0.skip(pos as int + 1),
                                types_pre,
                                last_pre,
                            );
                            proof {
                                assert(chunk.skip(1) =~= buf0.skip(pos as int + 1));
                                assert(rest_pre.items == rest_post.items);
                                assert(rest_pre.consumed == 1 + rest_post.consumed);
                                assert(rest_pre.skipped == 1 + rest_post.skipped);
                            }
                            pos = pos + 1;
                            proof {
                                g_skipped = g_skipped + 1;
                            }
                            if self.skipped_bytes < u64::MAX {
                                self.skipped_bytes = self.skipped_bytes + 1;
                            }
                        },
                    }
                },
            }
        }
        let remaining = {
            let slice = self.internal_buffer.as_slice();
            vstd::slice::slice_to_vec(vstd::slice::slice_subrange(slice, pos, slice.len()))
        };
        self.internal_buffer = remaining;
        proof {
            let rest = spec_decode(buf0.skip(pos as int), self.monitors@, self.last_timestamp_us);
            assert(rest.items =~= Seq::<(u64, EventView)>::empty());
            assert(run0.items =~= spec_items_of(items@));
            assert(self.internal_buffer@ =~= buf0.skip(run0.consumed));
        }
        items
    }

    /// How many corrupt bytes have been skipped to resynchronize.
    pub fn corrupt_bytes_skipped(&self) -> (r: u64)
        ensures
            r == self.spec_skipped_bytes(),
    {
        self.skipped_bytes
    }

    /// The running absolute timestamp in microseconds.
    pub fn last_timestamp_us(&self) -> (r: u64)
        ensures
            r == self.spec_last_timestamp(),
    {
        self.last_timestamp_us
    }
}

} // verus!
