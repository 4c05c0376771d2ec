//! Lifecycle event payloads and the event header byte.
//!
//! Every event starts with a header byte packing a 5-bit event kind in the
//! upper bits and a 3-bit short executor ID in the lower bits; the executor
//! field is meaningful only for kinds that name an executor. Core identity
//! for task and monitor events is encoded in the kind itself, because a core
//! switch cannot be inferred later from the stream.

use vstd::prelude::*;

use crate::buffer::{BufferReader, BufferWriter, BUFFER_CAPACITY};
use crate::protocol::monitor_value_payload::{
    lemma_value_round_trip, spec_read_value, spec_value_bytes, spec_value_type_id,
    MonitorTypeDirectory, MonitorValuePayload,
};
use crate::protocol::typedef_payload::{
    lemma_typedef_len_bound, lemma_typedef_round_trip, spec_read_typedef, spec_typedef_bytes,
    wf_typedef, TypeDefView, TypeDefinitionPayload,
};
use crate::protocol::{
    lemma_le2_round_trip, lemma_le4_round_trip, read_u16_le, read_u32_le, spec_le2, spec_le4,
    write_u16_le, write_u32_le, DecodeError,
};

verus! {

/// One lifecycle event payload.
#[derive(Debug, Clone, PartialEq, Eq)]
pub enum EventPayload {
    /// A task became ready to be polled (its waker was called). No core is
    /// attached: wakeups often run in interrupt handlers that are not
    /// attributed to a core, and no executor either, so the event stays as
    /// short as wakeups are frequent.
    EmbassyTaskReady { task_id: u16 },
    /// A task's poll began on core 0. The executor's short ID rides in the
    /// header byte so the host can attribute the task.
    EmbassyTaskExecBeginCore0 { task_id: u16, executor_id: u8 },
    /// A task's poll began on core 1.
    EmbassyTaskExecBeginCore1 { task_id: u16, executor_id: u8 },
    /// A task's poll ended on core 0; the executor is known from the poll
    /// begin, and its short ID is shorter to transmit than the task ID.
    EmbassyTaskExecEndCore0 { executor_id: u8 },
    /// A task's poll ended on core 1.
    EmbassyTaskExecEndCore1 { executor_id: u8 },
    /// An executor started polling tasks.
    EmbassyExecutorPollStart { executor_id: u8 },
    /// An executor ran out of tasks to poll.
    EmbassyExecutorIdle { executor_id: u8 },
    /// A function or scope monitor opened on core 0.
    MonitorStartCore0 { monitor_id: u8 },
    /// A function or scope monitor opened on core 1.
    MonitorStartCore1 { monitor_id: u8 },
    /// The innermost open code monitor on core 0 closed; the monitor ID is
    /// inferred from nesting on the host.
    MonitorEndCore0,
    /// The innermost open code monitor on core 1 closed.
    MonitorEndCore1,
    /// A value monitor reported a sample.
    MonitorValue { value_id: u8, value: MonitorValuePayload },
    /// A type-definition record.
    TypeDefinition(TypeDefinitionPayload),
    /// The target dropped this many events because its transport was full;
    /// the host resynchronizes when it sees this.
    DataLossEvent { dropped_events: u32 },
}

/// The mathematical image of an event payload.
pub enum EventView {
    TaskReady { task_id: u16 },
    TaskExecBeginCore0 { task_id: u16, executor_id: u8 },
    TaskExecBeginCore1 { task_id: u16, executor_id: u8 },
    TaskExecEndCore0 { executor_id: u8 },
    TaskExecEndCore1 { executor_id: u8 },
    ExecutorPollStart { executor_id: u8 },
    ExecutorIdle { executor_id: u8 },
    MonitorStartCore0 { monitor_id: u8 },
    MonitorStartCore1 { monitor_id: u8 },
    MonitorEndCore0,
    MonitorEndCore1,
    MonitorValue { value_id: u8, value: MonitorValuePayload },
    TypeDefinition(TypeDefView),
    DataLoss { dropped_events: u32 },
}

impl View for EventPayload {
    type V = EventView;

    open spec fn view(&self) -> EventView {
        match self {
            EventPayload::EmbassyTaskReady { task_id } => EventView::TaskReady {
                task_id: *task_id,
            },
            EventPayload::EmbassyTaskExecBeginCore0 { task_id, executor_id } => {
                EventView::TaskExecBeginCore0 { task_id: *task_id, executor_id: *executor_id }
            },
            EventPayload::EmbassyTaskExecBeginCore1 { task_id, executor_id } => {
                EventView::TaskExecBeginCore1 { task_id: *task_id, executor_id: *executor_id }
            },
            EventPayload::EmbassyTaskExecEndCore0 { executor_id } => EventView::TaskExecEndCore0 {
                executor_id: *executor_id,
            },
            EventPayload::EmbassyTaskExecEndCore1 { executor_id } => EventView::TaskExecEndCore1 {
                executor_id: *executor_id,
            },
            EventPayload::EmbassyExecutorPollStart { executor_id } => {
                EventView::ExecutorPollStart { executor_id: *executor_id }
            },
            EventPayload::EmbassyExecutorIdle { executor_id } => EventView::ExecutorIdle {
                executor_id: *executor_id,
            },
            EventPayload::MonitorStartCore0 { monitor_id } => EventView::MonitorStartCore0 {
                monitor_id: *monitor_id,
            },
            EventPayload::MonitorStartCore1 { monitor_id } => EventView::MonitorStartCore1 {
                monitor_id: *monitor_id,
            },
            EventPayload::MonitorEndCore0 => EventView::MonitorEndCore0,
            EventPayload::MonitorEndCore1 => EventView::MonitorEndCore1,
            EventPayload::MonitorValue { value_id, value } => EventView::MonitorValue {
                value_id: *value_id,
                value: *value,
            },
            EventPayload::TypeDefinition(t) => EventView::TypeDefinition(t@),
            EventPayload::DataLossEvent { dropped_events } => EventView::DataLoss {
                dropped_events: *dropped_events,
            },
        }
    }
}

/// The 5-bit event kind of an event.
pub open spec fn spec_event_id(v: EventView) -> u8 {
    match v {
        EventView::TaskReady { .. } => 0,
        EventView::TaskExecBeginCore0 { .. } => 1,
        EventView::TaskExecBeginCore1 { .. } => 2,
        EventView::TaskExecEndCore0 { .. } => 3,
        EventView::TaskExecEndCore1 { .. } => 4,
        EventView::ExecutorPollStart { .. } => 5,
        EventView::ExecutorIdle { .. } => 6,
        EventView::MonitorStartCore0 { .. } => 7,
        EventView::MonitorStartCore1 { .. } => 8,
        EventView::MonitorEndCore0 => 9,
        EventView::MonitorEndCore1 => 10,
        EventView::MonitorValue { .. } => 11,
        EventView::TypeDefinition(_) => 12,
        EventView::DataLoss { .. } => 13,
    }
}

/// The executor short ID an event names, if its kind names one.
pub open spec fn spec_event_executor(v: EventView) -> Option<u8> {
    match v {
        EventView::TaskExecBeginCore0 { executor_id, .. } => Some(executor_id),
        EventView::TaskExecBeginCore1 { executor_id, .. } => Some(executor_id),
        EventView::TaskExecEndCore0 { executor_id } => Some(executor_id),
        EventView::TaskExecEndCore1 { executor_id } => Some(executor_id),
        EventView::ExecutorPollStart { executor_id } => Some(executor_id),
        EventView::ExecutorIdle { executor_id } => Some(executor_id),
        _ => None,
    }
}

/// An event the protocol can carry: executor short IDs fit in 3 bits and
/// embedded type definitions are well-formed.
pub open spec fn wf_event(v: EventView) -> bool {
    &&& match spec_event_executor(v) {
        Some(e) => e < 8,
        None => true,
    }
    &&& match v {
        EventView::TypeDefinition(t) => wf_typedef(t),
        _ => true,
    }
}

/// The header byte: the event kind in the upper five bits, the executor
/// short ID (zero when the kind names none) in the lower three.
pub open spec fn spec_event_header(v: EventView) -> u8 {
    ((spec_event_id(v) << 3) | match spec_event_executor(v) {
        Some(e) => e,
        None => 0,
    }) as u8
}

/// The wire bytes of an event: its header byte followed by its payload.
pub open spec fn spec_event_bytes(v: EventView) -> Seq<u8> {
    seq![spec_event_header(v)] + match v {
        EventView::TaskReady { task_id } => spec_le2(task_id),
        EventView::TaskExecBeginCore0 { task_id, .. } => spec_le2(task_id),
        EventView::TaskExecBeginCore1 { task_id, .. } => spec_le2(task_id),
        EventView::TaskExecEndCore0 { .. } => Seq::empty(),
        EventView::TaskExecEndCore1 { .. } => Seq::empty(),
        EventView::ExecutorPollStart { .. } => Seq::empty(),
        EventView::ExecutorIdle { .. } => Seq::empty(),
        EventView::MonitorStartCore0 { monitor_id } => seq![monitor_id],
        EventView::MonitorStartCore1 { monitor_id } => seq![monitor_id],
        EventView::MonitorEndCore0 => Seq::empty(),
        EventView::MonitorEndCore1 => Seq::empty(),
        EventView::MonitorValue { value_id, value } => seq![value_id] + spec_value_bytes(value),
        EventView::TypeDefinition(t) => spec_typedef_bytes(t),
        EventView::DataLoss { dropped_events } => spec_le4(dropped_events),
    }
}

/// A well-formed event never takes more than 25 wire bytes, so one record
/// (time delta plus event) always fits the 32-byte buffer.
pub proof fn lemma_event_len_bound(v: EventView)
    requires
        wf_event(v),
    ensures
        spec_event_bytes(v).len() <= 25,
{
    match v {
        EventView::TypeDefinition(t) => {
            lemma_typedef_len_bound(t);
        },
        _ => {},
    }
}

/// Reading an event from the front of `bytes`, with `types` the registered
/// value-monitor types: the event's view and the bytes consumed, or why the
/// read failed.
pub open spec fn spec_read_event(bytes: Seq<u8>, types: Seq<Option<u8>>) -> Result<
    (EventView, int),
    DecodeError,
> {
    if bytes.len() == 0 {
        Err(DecodeError::TruncatedInput)
    } else {
        let header = bytes[0];
        let id = header >> 3;
        let ex = (header & 0x07) as u8;
        let body = bytes.skip(1);
        if id == 0 {
            if body.len() < 2 {
                Err(DecodeError::TruncatedInput)
            } else {
                Ok((EventView::TaskReady { task_id: crate::protocol::spec_u16_of(body[0], body[1]) }, 3))
            }
        } else if id == 1 || id == 2 {
            if body.len() < 2 {
                Err(DecodeError::TruncatedInput)
            } else {
                let task_id = crate::protocol::spec_u16_of(body[0], body[1]);
                if id == 1 {
                    Ok((EventView::TaskExecBeginCore0 { task_id, executor_id: ex }, 3))
                } else {
                    Ok((EventView::TaskExecBeginCore1 { task_id, executor_id: ex }, 3))
                }
            }
        } else if id == 3 {
            Ok((EventView::TaskExecEndCore0 { executor_id: ex }, 1))
        } else if id == 4 {
            Ok((EventView::TaskExecEndCore1 { executor_id: ex }, 1))
        } else if id == 5 {
            Ok((EventView::ExecutorPollStart { executor_id: ex }, 1))
        } else if id == 6 {
            Ok((EventView::ExecutorIdle { executor_id: ex }, 1))
        } else if id == 7 || id == 8 {
            if body.len() < 1 {
                Err(DecodeError::TruncatedInput)
            } else {
                if id == 7 {
                    Ok((EventView::MonitorStartCore0 { monitor_id: body[0] }, 2))
                } else {
                    Ok((EventView::MonitorStartCore1 { monitor_id: body[0] }, 2))
                }
            }
        } else if id == 9 {
            Ok((EventView::MonitorEndCore0, 1))
        } else if id == 10 {
            Ok((EventView::MonitorEndCore1, 1))
        } else if id == 11 {
            if body.len() < 1 {
                Err(DecodeError::TruncatedInput)
            } else {
                let value_id = body[0];
                match types[value_id as int] {
                    None => Err(DecodeError::UnknownMonitor),
                    Some(type_id) => match spec_read_value(type_id, body.skip(1)) {
                        Ok((value, n)) => Ok((EventView::MonitorValue { value_id, value }, 2 + n)),
                        Err(e) => Err(e),
                    },
                }
            }
        } else if id == 12 {
            match spec_read_typedef(body) {
                Ok((t, n)) => Ok((EventView::TypeDefinition(t), 1 + n)),
                Err(e) => Err(e),
            }
        } else if id == 13 {
            if body.len() < 4 {
                Err(DecodeError::TruncatedInput)
            } else {
                Ok(
                    (
                        EventView::DataLoss {
                            dropped_events: crate::protocol::spec_u32_of(
                                body[0],
                                body[1],
                                body[2],
                                body[3],
                            ),
                        },
                        5,
                    ),
                )
            }
        } else {
            Err(DecodeError::UnknownEventKind)
        }
    }
}

/// The header byte of a well-formed event decomposes back into its kind and
/// executor bits.
proof fn lemma_header_decompose(id: u8, ex: u8)
    requires
        id <= 13,
        ex < 8,
    ensures
        (((id << 3) | ex) as u8) >> 3 == id,
        (((id << 3) | ex) as u8) & 0x07 == ex,
{
    assert((((id << 3) | ex) as u8) >> 3 == id && (((id << 3) | ex) as u8) & 0x07 == ex)
        by (bit_vector)
        requires
            id <= 13,
            ex < 8,
    ;
}

/// Event round trip: reading back an encoded well-formed event, under a
/// type directory whose entry for a sampled value monitor matches the
/// sample's type, consumes exactly the encoding and recovers the event.
pub proof fn lemma_event_round_trip(v: EventView, rest: Seq<u8>, types: Seq<Option<u8>>)
    requires
        wf_event(v),
        types.len() == 256,
        match v {
            EventView::MonitorValue { value_id, value } => types[value_id as int] == Some(
                spec_value_type_id(value),
            ),
            _ => true,
        },
    ensures
        spec_read_event(spec_event_bytes(v) + rest, types) == Ok::<_, DecodeError>(
            (v, spec_event_bytes(v).len() as int),
        ),
{
    let enc = spec_event_bytes(v);
    let all = enc + rest;
    let id = spec_event_id(v);
    let ex = match spec_event_executor(v) {
        Some(e) => e,
        None => 0u8,
    };
    lemma_header_decompose(id, ex);
    assert(all[0] == spec_event_header(v));
    let body = all.skip(1);
    match v {
        EventView::TaskReady { task_id } => {
            assert(body[0] == spec_le2(task_id)[0] && body[1] == spec_le2(task_id)[1]);
            lemma_le2_round_trip(task_id);
        },
        EventView::TaskExecBeginCore0 { task_id, .. } => {
            assert(body[0] == spec_le2(task_id)[0] && body[1] == spec_le2(task_id)[1]);
            lemma_le2_round_trip(task_id);
        },
        EventView::TaskExecBeginCore1 { task_id, .. } => {
            assert(body[0] == spec_le2(task_id)[0] && body[1] == spec_le2(task_id)[1]);
            lemma_le2_round_trip(task_id);
        },
        EventView::TaskExecEndCore0 { .. } => {},
        EventView::TaskExecEndCore1 { .. } => {},
        EventView::ExecutorPollStart { .. } => {},
        EventView::ExecutorIdle { .. } => {},
        EventView::MonitorStartCore0 { monitor_id } => {
            assert(body[0] == monitor_id);
        },
        EventView::MonitorStartCore1 { monitor_id } => {
            assert(body[0] == monitor_id);
        },
        EventView::MonitorEndCore0 => {},
        EventView::MonitorEndCore1 => {},
        EventView::MonitorValue { value_id, value } => {
            assert(body[0] == value_id);
            assert(body.skip(1) =~= spec_value_bytes(value) + rest);
            lemma_value_round_trip(value, rest);
        },
        EventView::TypeDefinition(t) => {
            assert(body =~= spec_typedef_bytes(t) + rest);
            lemma_typedef_round_trip(t, rest);
        },
        EventView::DataLoss { dropped_events } => {
            assert(forall|i: int| 0 <= i < 4 ==> body[i] == spec_le4(dropped_events)[i]);
            lemma_le4_round_trip(dropped_events);
        },
    }
}

impl EventPayload {
    /// The 5-bit event kind of this event.
    pub fn event_id(&self) -> (r: u8)
        ensures
            r == spec_event_id(self@),
    {
        match self {
            EventPayload::EmbassyTaskReady { .. } => 0,
            EventPayload::EmbassyTaskExecBeginCore0 { .. } => 1,
            EventPayload::EmbassyTaskExecBeginCore1 { .. } => 2,
            EventPayload::EmbassyTaskExecEndCore0 { .. } => 3,
            EventPayload::EmbassyTaskExecEndCore1 { .. } => 4,
            EventPayload::EmbassyExecutorPollStart { .. } => 5,
            EventPayload::EmbassyExecutorIdle { .. } => 6,
            EventPayload::MonitorStartCore0 { .. } => 7,
            EventPayload::MonitorStartCore1 { .. } => 8,
            EventPayload::MonitorEndCore0 => 9,
            EventPayload::MonitorEndCore1 => 10,
            EventPayload::MonitorValue { .. } => 11,
            EventPayload::TypeDefinition(_) => 12,
            EventPayload::DataLossEvent { .. } => 13,
        }
    }

    /// The executor short ID this event names, if its kind names one.
    pub fn get_executor_id(&self) -> (r: Option<u8>)
        ensures
            r == spec_event_executor(self@),
    {
        match self {
            EventPayload::EmbassyTaskExecBeginCore0 { executor_id, .. } => Some(*executor_id),
            EventPayload::EmbassyTaskExecBeginCore1 { executor_id, .. } => Some(*executor_id),
            EventPayload::EmbassyTaskExecEndCore0 { executor_id } => Some(*executor_id),
            EventPayload::EmbassyTaskExecEndCore1 { executor_id } => Some(*executor_id),
            EventPayload::EmbassyExecutorPollStart { executor_id } => Some(*executor_id),
            EventPayload::EmbassyExecutorIdle { executor_id } => Some(*executor_id),
            _ => None,
        }
    }

    /// Append the event's wire bytes — header byte, then payload — to the
    /// writer.
    pub fn write_bytes(&self, writer: &mut BufferWriter)
        requires
            wf_event(self@),
            old(writer)@.len() + spec_event_bytes(self@).len() <= BUFFER_CAPACITY,
        ensures
            final(writer)@ == old(writer)@ + spec_event_bytes(self@),
    {
        proof {
            lemma_event_len_bound(self@);
        }
        let executor_short_id = match self.get_executor_id() {
            Some(e) => e,
            None => 0,
        };
        let event_type = (self.event_id() << 3) | executor_short_id;
        writer.write_byte(event_type);
        match self {
            EventPayload::EmbassyTaskReady { task_id } => {
                write_u16_le(writer, *task_id);
                assert(writer@ =~= old(writer)@ + spec_event_bytes(self@));
            },
            EventPayload::EmbassyTaskExecBeginCore0 { task_id, .. } => {
                write_u16_le(writer, *task_id);
                assert(writer@ =~= old(writer)@ + spec_event_bytes(self@));
            },
            EventPayload::EmbassyTaskExecBeginCore1 { task_id, .. } => {
                write_u16_le(writer, *task_id);
                assert(writer@ =~= old(writer)@ + spec_event_bytes(self@));
            },
            EventPayload::EmbassyTaskExecEndCore0 { .. } => {
                assert(writer@ =~= old(writer)@ + spec_event_bytes(self@));
            },
            EventPayload::EmbassyTaskExecEndCore1 { .. } => {
                assert(writer@ =~= old(writer)@ + spec_event_bytes(self@));
            },
            EventPayload::EmbassyExecutorPollStart { .. } => {
                assert(writer@ =~= old(writer)@ + spec_event_bytes(self@));
            },
            EventPayload::EmbassyExecutorIdle { .. } => {
                assert(writer@ =~= old(writer)@ + spec_event_bytes(self@));
            },
            EventPayload::MonitorStartCore0 { monitor_id } => {
                writer.write_byte(*monitor_id);
                assert(writer@ =~= old(writer)@ + spec_event_bytes(self@));
            },
            EventPayload::MonitorStartCore1 { monitor_id } => {
                writer.write_byte(*monitor_id);
                assert(writer@ =~= old(writer)@ + spec_event_bytes(self@));
            },
            EventPayload::MonitorEndCore0 => {
                assert(writer@ =~= old(writer)@ + spec_event_bytes(self@));
            },
            EventPayload::MonitorEndCore1 => {
                assert(writer@ =~= old(writer)@ + spec_event_bytes(self@));
            },
            EventPayload::MonitorValue { value_id, value } => {
                writer.write_byte(*value_id);
                value.write_bytes(writer);
                assert(writer@ =~= old(writer)@ + spec_event_bytes(self@));
            },
            EventPayload::TypeDefinition(def) => {
                def.write_bytes(writer);
                assert(writer@ =~= old(writer)@ + spec_event_bytes(self@));
            },
            EventPayload::DataLossEvent { dropped_events } => {
                write_u32_le(writer, *dropped_events);
                assert(writer@ =~= old(writer)@ + spec_event_bytes(self@));
            },
        }
    }

    /// Read an event's payload given its already-read header byte, with the
    /// directory of registered value-monitor types for samples.
    pub fn from_bytes(event_type: u8, reader: &mut BufferReader, types: &MonitorTypeDirectory) -> (r:
        Result<EventPayload, DecodeError>)
        requires
            old(reader).wf(),
            types.wf(),
        ensures
            final(reader)@ == old(reader)@,
            final(reader).wf(),
            final(reader).spec_position() >= old(reader).spec_position(),
            ({
                let full = seq![event_type] + old(reader)@.subrange(
                    old(reader).spec_position(),
                    old(reader)@.len() as int,
                );
                match r {
                    Ok(e) => spec_read_event(full, types@) == Ok::<_, DecodeError>(
                        (e@, 1 + final(reader).spec_position() - old(reader).spec_position()),
                    ),
                    Err(e) => spec_read_event(full, types@) == Err::<(EventView, int), _>(e),
                }
            }),
    {
        let ghost rem = old(reader)@.subrange(old(reader).spec_position(), old(reader)@.len() as int);
        let ghost full = seq![event_type] + rem;
        assert(full[0] == event_type);
        assert(full.skip(1) =~= rem);
        let event_id = event_type >> 3;
        let executor_short_id = event_type & 0x07;
        assert(executor_short_id < 8) by (bit_vector)
            requires
                executor_short_id == event_type & 0x07,
        ;
        match event_id {
            0 => {
                match read_u16_le(reader) {
                    Some(task_id) => Ok(EventPayload::EmbassyTaskReady { task_id }),
                    None => Err(DecodeError::TruncatedInput),
                }
            },
            1 => {
                match read_u16_le(reader) {
                    Some(task_id) => Ok(
                        EventPayload::EmbassyTaskExecBeginCore0 {
                            task_id,
                            executor_id: executor_short_id,
                        },
                    ),
                    None => Err(DecodeError::TruncatedInput),
                }
            },
            2 => {
                match read_u16_le(reader) {
                    Some(task_id) => Ok(
                        EventPayload::EmbassyTaskExecBeginCore1 {
                            task_id,
                            executor_id: executor_short_id,
                        },
                    ),
                    None => Err(DecodeError::TruncatedInput),
                }
            },
            3 => Ok(EventPayload::EmbassyTaskExecEndCore0 { executor_id: executor_short_id }),
            4 => Ok(EventPayload::EmbassyTaskExecEndCore1 { executor_id: executor_short_id }),
            5 => Ok(EventPayload::EmbassyExecutorPollStart { executor_id: executor_short_id }),
            6 => Ok(EventPayload::EmbassyExecutorIdle { executor_id: executor_short_id }),
            7 => {
                match reader.read_byte() {
                    Some(monitor_id) => Ok(EventPayload::MonitorStartCore0 { monitor_id }),
                    None => Err(DecodeError::TruncatedInput),
                }
            },
            8 => {
                match reader.read_byte() {
                    Some(monitor_id) => Ok(EventPayload::MonitorStartCore1 { monitor_id }),
                    None => Err(DecodeError::TruncatedInput),
                }
            },
            9 => Ok(EventPayload::MonitorEndCore0),
            10 => Ok(EventPayload::MonitorEndCore1),
            11 => {
                let value_id = match reader.read_byte() {
                    Some(b) => b,
                    None => {
                        return Err(DecodeError::TruncatedInput);
                    },
                };
                assert(rem[0] == value_id);
                let type_id = match types.lookup(value_id) {
                    Some(t) => t,
                    None => {
                        return Err(DecodeError::UnknownMonitor);
                    },
                };
                let ghost value_bytes = rem.skip(1);
                assert(value_bytes =~= old(reader)@.subrange(
                    old(reader).spec_position() + 1,
                    old(reader)@.len() as int,
                ));
                match MonitorValuePayload::from_bytes(type_id, reader) {
                    Ok(value) => Ok(EventPayload::MonitorValue { value_id, value }),
                    Err(e) => Err(e),
                }
            },
            12 => {
                match TypeDefinitionPayload::from_bytes(reader) {
                    Ok(def) => Ok(EventPayload::TypeDefinition(def)),
                    Err(e) => Err(e),
                }
            },
            13 => {
                match read_u32_le(reader) {
                    Some(dropped_events) => Ok(EventPayload::DataLossEvent { dropped_events }),
                    None => Err(DecodeError::TruncatedInput),
                }
            },
            _ => Err(DecodeError::UnknownEventKind),
        }
    }
}

} // verus!
