//! Whole records on the wire: a time delta followed by one event.

use vstd::prelude::*;

use crate::buffer::{BufferReader, BufferWriter};
use crate::protocol::event_payload::{
    lemma_event_len_bound, lemma_event_round_trip, spec_event_bytes, spec_read_event, wf_event,
    EventView,
};
use crate::protocol::{DecodeError, EventPayload, MonitorTypeDirectory};
use crate::time_delta::{
    lemma_time_delta_round_trip, spec_clamped_delta, spec_delta_bytes, spec_read_delta, TimeDelta,
};

verus! {

/// The wire bytes of one record: the delta, then the event.
pub open spec fn spec_record_bytes(delta: u32, v: EventView) -> Seq<u8> {
    spec_delta_bytes(delta) + spec_event_bytes(v)
}

/// Reading one record from the front of `bytes`: the delta, the event, and
/// the bytes consumed, or why the read failed.
pub open spec fn spec_read_record(bytes: Seq<u8>, types: Seq<Option<u8>>) -> Result<
    ((u32, EventView), int),
    DecodeError,
> {
    match spec_read_delta(bytes) {
        None => Err(DecodeError::TruncatedInput),
        Some((delta, n)) => match spec_read_event(bytes.skip(n), types) {
            Ok((v, m)) => Ok(((delta, v), n + m)),
            Err(e) => Err(e),
        },
    }
}

/// Record round trip: reading back an encoded record recovers the clamped
/// delta and the event and consumes exactly the encoding.
pub proof fn lemma_record_round_trip(delta: u32, v: EventView, rest: Seq<u8>, types: Seq<Option<u8>>)
    requires
        wf_event(v),
        types.len() == 256,
        match v {
            EventView::MonitorValue { value_id, value } => types[value_id as int] == Some(
                crate::protocol::monitor_value_payload::spec_value_type_id(value),
            ),
            _ => true,
        },
    ensures
        spec_read_record(spec_record_bytes(delta, v) + rest, types) == Ok::<_, DecodeError>(
            ((spec_clamped_delta(delta), v), spec_record_bytes(delta, v).len() as int),
        ),
{
    let all = spec_record_bytes(delta, v) + rest;
    let dn = spec_delta_bytes(delta).len() as int;
    assert(all =~= spec_delta_bytes(delta) + (spec_event_bytes(v) + rest));
    lemma_time_delta_round_trip(delta, spec_event_bytes(v) + rest);
    assert(all.skip(dn) =~= spec_event_bytes(v) + rest);
    lemma_event_round_trip(v, rest, types);
}

/// Serialize one record: the time delta, then the event.
pub fn write_tracing_event(delta: TimeDelta, event: &EventPayload) -> (r: Vec<u8>)
    requires
        wf_event(event@),
    ensures
        r@ == spec_record_bytes(delta.spec_delta_us(), event@),
{
    proof {
        lemma_event_len_bound(event@);
    }
    let mut buffer = BufferWriter::new();
    delta.write_bytes(&mut buffer);
    event.write_bytes(&mut buffer);
    let mut out: Vec<u8> = Vec::new();
    let slice = buffer.as_slice();
    let mut i: usize = 0;
    while i < slice.len()
        invariant
            i <= slice@.len(),
            out@ == slice@.subrange(0, i as int),
        decreases slice@.len() - i,
    {
        out.push(slice[i]);
        i = i + 1;
        assert(out@ =~= slice@.subrange(0, i as int));
    }
    assert(out@ =~= slice@);
    out
}

/// Read one record from the reader: its time delta and its event.
pub fn read_tracing_event(reader: &mut BufferReader, types: &MonitorTypeDirectory) -> (r: Result<
    (TimeDelta, EventPayload),
    DecodeError,
>)
    requires
        old(reader).wf(),
        types.wf(),
    ensures
        final(reader)@ == old(reader)@,
        final(reader).wf(),
        final(reader).spec_position() >= old(reader).spec_position(),
        ({
            let rem = old(reader)@.subrange(old(reader).spec_position(), old(reader)@.len() as int);
            match r {
                Ok((td, ev)) => final(reader).spec_position() > old(reader).spec_position()
                    && spec_read_record(rem, types@) == Ok::<_, DecodeError>(
                    (
                        (td.spec_delta_us(), ev@),
                        final(reader).spec_position() - old(reader).spec_position(),
                    ),
                ),
                Err(e) => spec_read_record(rem, types@) == Err::<((u32, EventView), int), _>(e),
            }
        }),
{
    let ghost rem = old(reader)@.subrange(old(reader).spec_position(), old(reader)@.len() as int);
    let timestamp = match TimeDelta::read_bytes(reader) {
        Some(td) => td,
        None => {
            return Err(DecodeError::TruncatedInput);
        },
    };
    let ghost dn = reader.spec_position() - old(reader).spec_position();
    let event_type = match reader.read_byte() {
        Some(b) => b,
        None => {
            proof {
                assert(rem.skip(dn) =~= Seq::<u8>::empty());
                assert(spec_read_event(rem.skip(dn), types@) == Err::<(EventView, int), _>(
                    DecodeError::TruncatedInput,
                ));
            }
            return Err(DecodeError::TruncatedInput);
        },
    };
    let ghost after_delta = rem.skip(dn);
    assert(after_delta[0] == event_type);
    let ghost after_header = old(reader)@.subrange(
        old(reader).spec_position() + dn + 1,
        old(reader)@.len() as int,
    );
    assert(after_delta =~= seq![event_type] + after_header);
    match EventPayload::from_bytes(event_type, reader, types) {
        Ok(event) => Ok((timestamp, event)),
        Err(e) => Err(e),
    }
}

} // verus!
