//! The reconstruction engine: both cores, the learned monitor names, and
//! the stream of trace records the engine publishes.
//!
//! The engine consumes decoded events in wire order. A data-loss event, or
//! any illegal transition a core refuses, desynchronizes the engine: every
//! open scope is closed at that instant and both cores restart from
//! scratch, so any valid stream that follows reopens executors and tasks
//! cleanly.

use vstd::prelude::*;
use vstd::string::StringExecFns;

use crate::compressed_task_id;
use crate::core_tracing::{
    spec_exec_idx, spec_running_idx, spec_some_exec_has_task, spec_some_exec_running,
    spec_some_exec_with_id, spec_some_running_other, spec_the_exec, CoreTracing,
};
use crate::decoder::TracingItem;
use crate::defmt_line::DefmtLine;
use crate::elf_map::{spec_lookup, spec_short_name, FirmwareAddressMap};
use crate::errors::TraceError;
use crate::executor::{
    spec_exec_is_running, spec_has_task, spec_monitor_end_rel, spec_monitor_start_rel,
    spec_prev_as_state, spec_prev_of, spec_prev_rec, spec_ready_rel, spec_some_task_running,
    spec_spawn_rel, spec_task_end_rel, spec_the_task, ExecutorState,
};
use crate::protocol::event_payload::EventView;
use crate::protocol::typedef_payload::TypeDefView;
use crate::protocol::{EventPayload, TypeDefinitionPayload};
use crate::spec_compressed_task_id;
use crate::strfmt::{hex_string, spec_dec_chars, spec_hex_chars};
use crate::task::{spec_monitor_stack, spec_names, TaskState};
use crate::trace_event::{
    spec_out, InstantScope, TraceEventView, TracingEvent, CORE_OVERVIEW_PID, VALUE_MONITOR_PID,
};

verus! {

/// A fresh 256-entry name table with no names registered.
fn new_name_table() -> (r: Vec<Option<String>>)
    ensures
        r@.len() == 256,
        forall|i: int| 0 <= i < 256 ==> r@[i] is None,
{
    let mut names: Vec<Option<String>> = Vec::new();
    let mut i: usize = 0;
    while i < 256
        invariant
            i <= 256,
            names@.len() == i,
            forall|j: int| 0 <= j < i ==> names@[j] is None,
        decreases 256 - i,
    {
        names.push(None);
        i = i + 1;
    }
    names
}

/// The name a resolvable address carries: its symbol with any pool suffix
/// cut, or the given prefix followed by the address in upper-case
/// hexadecimal.
pub open spec fn spec_resolved_name(
    symbols: Seq<(u64, Seq<char>)>,
    addr: u32,
    prefix: Seq<char>,
) -> Seq<char> {
    match spec_lookup(symbols, addr as u64) {
        Some(s) => spec_short_name(s),
        None => prefix + spec_hex_chars(addr as nat),
    }
}

/// The naming metadata a task-creation record emits: the executor process
/// and the task thread, both resolved against the symbol table.
pub open spec fn spec_task_created_metadata(
    symbols: Seq<(u64, Seq<char>)>,
    task_id: u32,
    executor_id_long: u32,
    executor_id_short: u8,
) -> Seq<TraceEventView> {
    seq![
        TraceEventView::Metadata {
            name: "process_name"@,
            cat: Some("embassy_executor"@),
            pid: (executor_id_short & 0x07) as u32,
            tid: Some(0),
            args: seq![
                ("executor_id_long"@, spec_dec_chars(executor_id_long as nat)),
                ("name"@, spec_resolved_name(symbols, executor_id_long, "Executor 0x"@)),
            ],
        },
        TraceEventView::Metadata {
            name: "thread_name"@,
            cat: Some("embassy_task"@),
            pid: (executor_id_short & 0x07) as u32,
            tid: Some(spec_compressed_task_id(task_id) as u32),
            args: seq![
                ("task_id_long"@, spec_dec_chars(task_id as nat)),
                ("name"@, spec_resolved_name(symbols, task_id, "Task 0x"@)),
            ],
        },
    ]
}

/// The naming metadata a task-ended record emits: the executor and the
/// task named directly, resolved against the symbol table.
pub open spec fn spec_task_ended_metadata(
    symbols: Seq<(u64, Seq<char>)>,
    task_id: u32,
    executor_id_long: u32,
    executor_id_short: u8,
) -> Seq<TraceEventView> {
    seq![
        TraceEventView::Metadata {
            name: spec_resolved_name(symbols, executor_id_long, "Executor 0x"@),
            cat: Some("embassy_executor"@),
            pid: (executor_id_short & 0x07) as u32,
            tid: None,
            args: seq![("executor_id_long"@, spec_dec_chars(executor_id_long as nat))],
        },
        TraceEventView::Metadata {
            name: spec_resolved_name(symbols, task_id, "Task 0x"@),
            cat: Some("embassy_task"@),
            pid: (executor_id_short & 0x07) as u32,
            tid: Some(spec_compressed_task_id(task_id) as u32),
            args: seq![("task_id"@, spec_dec_chars(task_id as nat))],
        },
    ]
}

/// One core's share of a task creation: the executor tracking the short ID
/// (if any) records the task as Spawned, everything else on the core
/// untouched.
pub open spec fn spec_core_spawned(c0: CoreTracing, c1: CoreTracing, short: u8, ctid: u16, ts: u64) -> bool {
    &&& (!spec_some_exec_with_id(c0.executors@, short) ==> c1.executors@ == c0.executors@)
    &&& (spec_some_exec_with_id(c0.executors@, short) ==> ({
        let ei = spec_exec_idx(c0.executors@, short);
        &&& c1.executors@ == c0.executors@.update(ei, c1.executors@[ei])
        &&& exists|o0: Seq<TraceEventView>, o1: Seq<TraceEventView>|
            #[trigger] spec_spawn_rel(c0.executors@[ei], c1.executors@[ei], ctid, ts, o0, o1)
    }))
}

/// One core's share of a task ending: the executor tracking the short ID
/// (if any) applies its task-end step for the task, everything else on the
/// core untouched.
pub open spec fn spec_core_task_ended(
    c0: CoreTracing,
    c1: CoreTracing,
    short: u8,
    ctid: u16,
    ts: u64,
) -> bool {
    &&& (!spec_some_exec_with_id(c0.executors@, short) ==> c1.executors@ == c0.executors@)
    &&& (spec_some_exec_with_id(c0.executors@, short) ==> ({
        let ei = spec_exec_idx(c0.executors@, short);
        &&& c1.executors@ == c0.executors@.update(ei, c1.executors@[ei])
        &&& exists|o0: Seq<TraceEventView>, o1: Seq<TraceEventView>|
            #[trigger] spec_task_end_rel(
                c0.executors@[ei],
                c1.executors@[ei],
                Ok::<(), TraceError>(()),
                ctid,
                ts,
                o0,
                o1,
            )
    }))
}

/// The metadata a fresh engine opens its stream with: the overview process
/// with its two core threads, and the value-monitor process.
pub open spec fn spec_initial_metadata() -> Seq<TraceEventView> {
    seq![
        TraceEventView::Metadata {
            name: "process_name"@,
            cat: Some("core_overview"@),
            pid: CORE_OVERVIEW_PID,
            tid: None,
            args: seq![("name"@, "Core Overview"@)],
        },
        TraceEventView::Metadata {
            name: "thread_name"@,
            cat: Some("core_overview"@),
            pid: CORE_OVERVIEW_PID,
            tid: Some(1u32),
            args: seq![("name"@, "Core 0"@)],
        },
        TraceEventView::Metadata {
            name: "thread_name"@,
            cat: Some("core_overview"@),
            pid: CORE_OVERVIEW_PID,
            tid: Some(2u32),
            args: seq![("name"@, "Core 1"@)],
        },
        TraceEventView::Metadata {
            name: "process_name"@,
            cat: Some("core_overview"@),
            pid: VALUE_MONITOR_PID,
            tid: None,
            args: seq![("name"@, "Metrics"@)],
        },
    ]
}

/// One core's share of a wakeup: the first executor tracking the task (if
/// any) applies its ready step, everything else on the core untouched.
pub open spec fn spec_core_ready(c0: CoreTracing, c1: CoreTracing, task_id: u16, ts: u64) -> bool {
    &&& (!spec_some_exec_has_task(c0.executors@, task_id) ==> c1.executors@ == c0.executors@)
    &&& (spec_some_exec_has_task(c0.executors@, task_id) ==> exists|i: int|
        {
            &&& 0 <= i < c0.executors@.len()
            &&& spec_has_task((#[trigger] c0.executors@[i]).tasks@, task_id)
            &&& forall|j: int|
                0 <= j < i ==> !spec_has_task((#[trigger] c0.executors@[j]).tasks@, task_id)
            &&& c1.executors@ == c0.executors@.update(i, c1.executors@[i])
            &&& exists|o0: Seq<TraceEventView>, o1: Seq<TraceEventView>|
                #[trigger] spec_ready_rel(
                    c0.executors@[i],
                    c1.executors@[i],
                    Ok::<(), TraceError>(()),
                    task_id,
                    ts,
                    o0,
                    o1,
                )
        })
}

/// One core's share of a poll start: unknown executors leave the core
/// untouched; a known one goes to Scheduling, any displaced running
/// executor enters Preempted, and the bare-core monitors are flushed and
/// saved exactly when another executor was displaced.
pub open spec fn spec_core_poll_start(c0: CoreTracing, c1: CoreTracing, short: u8, ts: u64) -> bool {
    &&& (!spec_some_exec_with_id(c0.executors@, short) ==> c1.executors@ == c0.executors@
        && c1.monitor_stack@ == c0.monitor_stack@ && c1.preempted_monitors
        == c0.preempted_monitors)
    &&& (spec_some_exec_with_id(c0.executors@, short) ==> ({
        let ei = spec_exec_idx(c0.executors@, short);
        &&& c1.executors@.len() == c0.executors@.len()
        &&& forall|j: int|
            0 <= j < c0.executors@.len() ==> (#[trigger] c1.executors@[j]).executor_id
                == c0.executors@[j].executor_id
        &&& forall|j: int|
            0 <= j < c0.executors@.len() && (#[trigger] c0.executors@[j]).executor_id == short
                ==> c1.executors@[j].current_state == ExecutorState::Scheduling
        &&& forall|j: int|
            0 <= j < c0.executors@.len() && j != ei ==> ((#[trigger] c1.executors@[j]).current_state
                == c0.executors@[j].current_state || (spec_exec_is_running(
                c0.executors@[j].current_state,
            ) && c1.executors@[j].current_state == (ExecutorState::Preempted {
                by_executor_id: short,
                prev_state: spec_prev_of(c0.executors@[j].current_state),
            })))
        &&& (!spec_some_running_other(c0.executors@, short) ==> c1.monitor_stack@
            == c0.monitor_stack@ && c1.preempted_monitors == c0.preempted_monitors)
        &&& (spec_some_running_other(c0.executors@, short) ==> c1.monitor_stack@.len() == 0
            && spec_names(c1.preempted_monitors@) == spec_names(c0.preempted_monitors@)
            + spec_monitor_stack(c0.monitor_stack@).map_values(|p: (Seq<char>, u64)| p.0))
    }))
}

/// One core's share of an executor going idle: unknown executors leave the
/// core untouched; a known one goes to Idle, and when nothing else runs
/// and some executor was preempted by it, that executor is restored to its
/// recorded state with the saved bare-core monitors re-pushed.
pub open spec fn spec_core_idle(c0: CoreTracing, c1: CoreTracing, short: u8, ts: u64) -> bool {
    &&& (!spec_some_exec_with_id(c0.executors@, short) ==> c1.executors@ == c0.executors@
        && c1.monitor_stack@ == c0.monitor_stack@ && c1.preempted_monitors
        == c0.preempted_monitors)
    &&& (spec_some_exec_with_id(c0.executors@, short) ==> ({
        let ei = spec_exec_idx(c0.executors@, short);
        &&& c1.executors@.len() == c0.executors@.len()
        &&& forall|j: int|
            0 <= j < c0.executors@.len() ==> (#[trigger] c1.executors@[j]).executor_id
                == c0.executors@[j].executor_id
        &&& c1.executors@[ei].current_state == ExecutorState::Idle
    }))
    &&& (spec_some_exec_with_id(c0.executors@, short) && (forall|j: int|
        0 <= j < c0.executors@.len() && j != spec_exec_idx(c0.executors@, short)
            ==> !spec_exec_is_running((#[trigger] c0.executors@[j]).current_state)) && (exists|j: int|
        0 <= j < c0.executors@.len() && j != spec_exec_idx(c0.executors@, short) && ((
        #[trigger] c0.executors@[j]).current_state matches ExecutorState::Preempted {
            by_executor_id,
            ..
        } && by_executor_id == short)) ==> (exists|j: int|
        {
            &&& 0 <= j < c0.executors@.len()
            &&& ((#[trigger] c0.executors@[j]).current_state matches ExecutorState::Preempted {
                by_executor_id,
                ..
            } && by_executor_id == short)
            &&& c1.executors@[j].current_state == spec_prev_as_state(
                spec_prev_rec(c0.executors@[j].current_state),
            )
        }) && c1.preempted_monitors@.len() == 0 && spec_monitor_stack(c1.monitor_stack@)
        == spec_monitor_stack(c0.monitor_stack@) + spec_names(c0.preempted_monitors@).map_values(
        |n: Seq<char>| (n, ts),
    ))
}

/// Everything one type definition does to the engine: name registrations
/// go to the right table, task creations and endings emit their naming
/// metadata and reach both cores.
pub open spec fn spec_typedef_effect(
    i0: TracingInstance,
    i1: TracingInstance,
    td: TypeDefView,
    ts: u64,
    r: Result<(), TraceError>,
) -> bool {
    match td {
        TypeDefView::ValueMonitor { value_id, name, .. } => {
            &&& r is Ok
            &&& i1.spec_value_names() == i0.spec_value_names().update(
                value_id as int,
                i1.spec_value_names()[value_id as int],
            )
            &&& match i1.spec_value_names()[value_id as int] {
                Some(n) => n@ == name,
                None => false,
            }
            &&& i1.spec_code_names() == i0.spec_code_names()
            &&& i1.core_0 == i0.core_0
            &&& i1.core_1 == i0.core_1
            &&& i1.spec_events() == i0.spec_events()
        },
        TypeDefView::ScopeMonitor { monitor_id, name } => {
            &&& r is Ok
            &&& i1.spec_code_names() == i0.spec_code_names().update(
                monitor_id as int,
                i1.spec_code_names()[monitor_id as int],
            )
            &&& match i1.spec_code_names()[monitor_id as int] {
                Some(n) => n@ == name,
                None => false,
            }
            &&& i1.spec_value_names() == i0.spec_value_names()
            &&& i1.core_0 == i0.core_0
            &&& i1.core_1 == i0.core_1
            &&& i1.spec_events() == i0.spec_events()
        },
        TypeDefView::FunctionMonitor { monitor_id, fn_address } => {
            &&& r is Ok
            &&& i1.spec_code_names() == i0.spec_code_names().update(
                monitor_id as int,
                i1.spec_code_names()[monitor_id as int],
            )
            &&& match i1.spec_code_names()[monitor_id as int] {
                Some(n) => n@ == spec_resolved_name(i0.symbols@, fn_address, "Function 0x"@),
                None => false,
            }
            &&& i1.spec_value_names() == i0.spec_value_names()
            &&& i1.core_0 == i0.core_0
            &&& i1.core_1 == i0.core_1
            &&& i1.spec_events() == i0.spec_events()
        },
        TypeDefView::TaskCreated { task_id, executor_id_long, executor_id_short } => {
            let meta = spec_task_created_metadata(
                i0.symbols@,
                task_id,
                executor_id_long,
                executor_id_short,
            );
            let ctid = spec_compressed_task_id(task_id);
            let short = (executor_id_short & 0x07) as u8;
            &&& i1.spec_value_names() == i0.spec_value_names()
            &&& i1.spec_code_names() == i0.spec_code_names()
            &&& spec_out(i1.spec_events()).len() >= spec_out(i0.spec_events()).len() + 2
            &&& spec_out(i1.spec_events())[spec_out(i0.spec_events()).len() as int] == meta[0]
            &&& spec_out(i1.spec_events())[spec_out(i0.spec_events()).len() as int + 1] == meta[1]
            &&& (r is Ok ==> forall|j: int|
                0 <= j < i0.core_0.executors@.len() && (#[trigger] i0.core_0.executors@[j]).executor_id
                    == short ==> crate::executor::spec_has_task(
                    i1.core_0.executors@[j].tasks@,
                    ctid,
                ))
            &&& (r is Ok ==> forall|j: int|
                0 <= j < i0.core_1.executors@.len() && (#[trigger] i0.core_1.executors@[j]).executor_id
                    == short ==> crate::executor::spec_has_task(
                    i1.core_1.executors@[j].tasks@,
                    ctid,
                ))
            &&& (r is Ok ==> spec_core_spawned(i0.core_0, i1.core_0, short, ctid, ts)
                && spec_core_spawned(i0.core_1, i1.core_1, short, ctid, ts))
        },
        TypeDefView::TaskEnded { task_id, executor_id_long, executor_id_short } => {
            let meta = spec_task_ended_metadata(
                i0.symbols@,
                task_id,
                executor_id_long,
                executor_id_short,
            );
            let ctid = spec_compressed_task_id(task_id);
            let short = (executor_id_short & 0x07) as u8;
            &&& i1.spec_value_names() == i0.spec_value_names()
            &&& i1.spec_code_names() == i0.spec_code_names()
            &&& spec_out(i1.spec_events()).len() >= spec_out(i0.spec_events()).len() + 2
            &&& spec_out(i1.spec_events())[spec_out(i0.spec_events()).len() as int] == meta[0]
            &&& spec_out(i1.spec_events())[spec_out(i0.spec_events()).len() as int + 1] == meta[1]
            &&& i1.core_0.monitor_stack@ == i0.core_0.monitor_stack@
            &&& i1.core_1.monitor_stack@ == i0.core_1.monitor_stack@
            &&& (r is Ok ==> spec_core_task_ended(i0.core_0, i1.core_0, short, ctid, ts)
                && spec_core_task_ended(i0.core_1, i1.core_1, short, ctid, ts))
        },
    }
}

/// Everything one decoded event does to the engine, by payload kind.
pub open spec fn spec_payload_effect(
    i0: TracingInstance,
    i1: TracingInstance,
    pv: EventView,
    timestamp: u64,
    r: Result<(), TraceError>,
) -> bool {
            match pv {
                EventView::TypeDefinition(td) => spec_typedef_effect(
                    i0,
                    i1,
                    td,
                    timestamp,
                    r,
                ),
                EventView::DataLoss { .. } => r is Ok && i1.core_0 == i0.core_0
                    && i1.core_1 == i0.core_1 && i1.spec_events() == i0.spec_events(),
                EventView::MonitorValue { value_id, value } => r is Ok && i1.core_0
                    == i0.core_0 && i1.core_1 == i0.core_1 && (match i0.spec_value_names()[value_id as int] {
                    Some(n) => spec_out(i1.spec_events()) == spec_out(
                        i0.spec_events(),
                    ) + seq![
                        TraceEventView::Counter {
                            name: n@,
                            pid: Some(VALUE_MONITOR_PID),
                            ts: timestamp,
                            value,
                        },
                    ],
                    None => i1.spec_events() == i0.spec_events(),
                }),
                EventView::MonitorStartCore0 { monitor_id } => r is Ok && i1.core_1
                    == i0.core_1 && i1.spec_events() == i0.spec_events()
                    && (match i0.spec_code_names()[monitor_id as int] {
                    Some(n) => {
                        &&& (spec_some_exec_running(i0.core_0.executors@) ==> ({
                            let ri = spec_running_idx(i0.core_0.executors@);
                            &&& i1.core_0.executors@ == i0.core_0.executors@.update(
                                ri,
                                i1.core_0.executors@[ri],
                            )
                            &&& spec_monitor_start_rel(
                                i0.core_0.executors@[ri],
                                i1.core_0.executors@[ri],
                                n@,
                                timestamp,
                            )
                            &&& i1.core_0.monitor_stack@ == i0.core_0.monitor_stack@
                        }))
                        &&& (!spec_some_exec_running(i0.core_0.executors@) ==> i1.core_0.executors@
                            == i0.core_0.executors@ && spec_monitor_stack(
                            i1.core_0.monitor_stack@,
                        ) == spec_monitor_stack(i0.core_0.monitor_stack@).push(
                            (n@, timestamp),
                        ))
                    },
                    None => i1.core_0 == i0.core_0,
                }),
                EventView::MonitorStartCore1 { monitor_id } => r is Ok && i1.core_0
                    == i0.core_0 && i1.spec_events() == i0.spec_events()
                    && (match i0.spec_code_names()[monitor_id as int] {
                    Some(n) => {
                        &&& (spec_some_exec_running(i0.core_1.executors@) ==> ({
                            let ri = spec_running_idx(i0.core_1.executors@);
                            &&& i1.core_1.executors@ == i0.core_1.executors@.update(
                                ri,
                                i1.core_1.executors@[ri],
                            )
                            &&& spec_monitor_start_rel(
                                i0.core_1.executors@[ri],
                                i1.core_1.executors@[ri],
                                n@,
                                timestamp,
                            )
                            &&& i1.core_1.monitor_stack@ == i0.core_1.monitor_stack@
                        }))
                        &&& (!spec_some_exec_running(i0.core_1.executors@) ==> i1.core_1.executors@
                            == i0.core_1.executors@ && spec_monitor_stack(
                            i1.core_1.monitor_stack@,
                        ) == spec_monitor_stack(i0.core_1.monitor_stack@).push(
                            (n@, timestamp),
                        ))
                    },
                    None => i1.core_1 == i0.core_1,
                }),
                EventView::MonitorEndCore0 => r is Ok && i1.core_1 == i0.core_1
                    && (spec_some_exec_running(i0.core_0.executors@) ==> ({
                    let ri = spec_running_idx(i0.core_0.executors@);
                    &&& i1.core_0.executors@ == i0.core_0.executors@.update(
                        ri,
                        i1.core_0.executors@[ri],
                    )
                    &&& spec_monitor_end_rel(
                        i0.core_0.executors@[ri],
                        i1.core_0.executors@[ri],
                        timestamp,
                        spec_out(i0.spec_events()),
                        spec_out(i1.spec_events()),
                    )
                })),
                EventView::MonitorEndCore1 => r is Ok && i1.core_0 == i0.core_0
                    && (spec_some_exec_running(i0.core_1.executors@) ==> ({
                    let ri = spec_running_idx(i0.core_1.executors@);
                    &&& i1.core_1.executors@ == i0.core_1.executors@.update(
                        ri,
                        i1.core_1.executors@[ri],
                    )
                    &&& spec_monitor_end_rel(
                        i0.core_1.executors@[ri],
                        i1.core_1.executors@[ri],
                        timestamp,
                        spec_out(i0.spec_events()),
                        spec_out(i1.spec_events()),
                    )
                })),
                EventView::TaskExecBeginCore0 { task_id, executor_id } => ({
                    let short = (executor_id & 0x07) as u8;
                    &&& i1.core_1 == i0.core_1
                    &&& (r is Err <==> spec_some_exec_with_id(i0.core_0.executors@, short)
                        && ({
                        let e0 = spec_the_exec(i0.core_0.executors@, short);
                        spec_some_task_running(e0.tasks@) || (spec_has_task(e0.tasks@, task_id)
                            && spec_the_task(e0.tasks@, task_id).state != TaskState::Ready)
                    }))
                    &&& (r is Ok ==> exists|i: int|
                        0 <= i < i1.core_0.executors@.len() && (#[trigger] i1.core_0.executors@[i]).executor_id
                            == short && i1.core_0.executors@[i].current_state
                            == (ExecutorState::Polling { task_id }))
                }),
                EventView::TaskExecBeginCore1 { task_id, executor_id } => ({
                    let short = (executor_id & 0x07) as u8;
                    &&& i1.core_0 == i0.core_0
                    &&& (r is Err <==> spec_some_exec_with_id(i0.core_1.executors@, short)
                        && ({
                        let e0 = spec_the_exec(i0.core_1.executors@, short);
                        spec_some_task_running(e0.tasks@) || (spec_has_task(e0.tasks@, task_id)
                            && spec_the_task(e0.tasks@, task_id).state != TaskState::Ready)
                    }))
                    &&& (r is Ok ==> exists|i: int|
                        0 <= i < i1.core_1.executors@.len() && (#[trigger] i1.core_1.executors@[i]).executor_id
                            == short && i1.core_1.executors@[i].current_state
                            == (ExecutorState::Polling { task_id }))
                }),
                EventView::TaskExecEndCore0 { executor_id } => i1.core_1 == i0.core_1,
                EventView::TaskExecEndCore1 { executor_id } => i1.core_0 == i0.core_0,
                EventView::ExecutorPollStart { executor_id } => r is Ok && spec_core_poll_start(
                    i0.core_0,
                    i1.core_0,
                    (executor_id & 0x07) as u8,
                    timestamp,
                ) && spec_core_poll_start(
                    i0.core_1,
                    i1.core_1,
                    (executor_id & 0x07) as u8,
                    timestamp,
                ),
                EventView::ExecutorIdle { executor_id } => r is Ok && spec_core_idle(
                    i0.core_0,
                    i1.core_0,
                    (executor_id & 0x07) as u8,
                    timestamp,
                ) && spec_core_idle(
                    i0.core_1,
                    i1.core_1,
                    (executor_id & 0x07) as u8,
                    timestamp,
                ),
                EventView::TaskReady { task_id } => r is Ok ==> spec_core_ready(
                    i0.core_0,
                    i1.core_0,
                    task_id,
                    timestamp,
                ) && spec_core_ready(i0.core_1, i1.core_1, task_id, timestamp),
            }
}

/// The reconstruction engine.
pub struct TracingInstance {
    /// The timestamp of the last event fed in, in microseconds.
    pub latest_timestamp: u64,
    /// Core 0's state tree.
    pub core_0: CoreTracing,
    /// Core 1's state tree.
    pub core_1: CoreTracing,
    /// The symbol table used to name executors, tasks and functions.
    pub symbols: FirmwareAddressMap,
    /// Names of value monitors, by monitor ID.
    pub monitor_value_names: Vec<Option<String>>,
    /// Names of code (function or scope) monitors, by monitor ID.
    pub monitor_code_names: Vec<Option<String>>,
    /// The trace records published so far and not yet taken.
    pub out: Vec<TracingEvent>,
}

impl TracingInstance {
    /// The records published and not yet taken.
    pub open spec fn spec_events(&self) -> Seq<TracingEvent> {
        self.out@
    }

    /// The registered value-monitor names.
    pub open spec fn spec_value_names(&self) -> Seq<Option<String>> {
        self.monitor_value_names@
    }

    /// The registered code-monitor names.
    pub open spec fn spec_code_names(&self) -> Seq<Option<String>> {
        self.monitor_code_names@
    }

    /// Structural soundness: each core is sound, sits on its own core
    /// number, and remembers nothing later than the last event fed in; the
    /// name tables have one slot per monitor ID.
    pub open spec fn wf(&self) -> bool {
        &&& self.core_0.wf()
        &&& self.core_0.core_id == 0
        &&& self.core_1.wf()
        &&& self.core_1.core_id == 1
        &&& self.core_0.bounded_by(self.latest_timestamp)
        &&& self.core_1.bounded_by(self.latest_timestamp)
        &&& self.spec_value_names().len() == 256
        &&& self.spec_code_names().len() == 256
    }

    /// A fresh engine over the given symbol table. The published records
    /// open with exactly the metadata naming the overview process, its two
    /// core lanes, and the value-monitor process; no monitor name is
    /// registered yet.
    pub fn new(symbols: FirmwareAddressMap) -> (r: TracingInstance)
        ensures
            r.wf(),
            r.latest_timestamp == 0,
            r.core_0.executors@.len() == 0,
            r.core_1.executors@.len() == 0,
            r.core_0.monitor_stack@.len() == 0,
            r.core_1.monitor_stack@.len() == 0,
            r.symbols == symbols,
            spec_out(r.spec_events()) == spec_initial_metadata(),
            forall|i: int| 0 <= i < 256 ==> r.spec_value_names()[i] is None,
            forall|i: int| 0 <= i < 256 ==> r.spec_code_names()[i] is None,
    {
        let mut out: Vec<TracingEvent> = Vec::new();
        let mut args0: Vec<(String, String)> = Vec::new();
        args0.push((String::from_str("name"), String::from_str("Core Overview")));
        out.push(
            TracingEvent::Metadata {
                name: String::from_str("process_name"),
                cat: Some(String::from_str("core_overview")),
                pid: CORE_OVERVIEW_PID,
                tid: None,
                args: args0,
            },
        );
        let mut args1: Vec<(String, String)> = Vec::new();
        args1.push((String::from_str("name"), String::from_str("Core 0")));
        out.push(
            TracingEvent::Metadata {
                name: String::from_str("thread_name"),
                cat: Some(String::from_str("core_overview")),
                pid: CORE_OVERVIEW_PID,
                tid: Some(1),
                args: args1,
            },
        );
        let mut args2: Vec<(String, String)> = Vec::new();
        args2.push((String::from_str("name"), String::from_str("Core 1")));
        out.push(
            TracingEvent::Metadata {
                name: String::from_str("thread_name"),
                cat: Some(String::from_str("core_overview")),
                pid: CORE_OVERVIEW_PID,
                tid: Some(2),
                args: args2,
            },
        );
        let mut args3: Vec<(String, String)> = Vec::new();
        args3.push((String::from_str("name"), String::from_str("Metrics")));
        out.push(
            TracingEvent::Metadata {
                name: String::from_str("process_name"),
                cat: Some(String::from_str("core_overview")),
                pid: VALUE_MONITOR_PID,
                tid: None,
                args: args3,
            },
        );
        proof {
            let meta = spec_initial_metadata();
            assert(spec_out(out@)[0].arrow_Metadata_args() =~= meta[0].arrow_Metadata_args());
            assert(spec_out(out@)[1].arrow_Metadata_args() =~= meta[1].arrow_Metadata_args());
            assert(spec_out(out@)[2].arrow_Metadata_args() =~= meta[2].arrow_Metadata_args());
            assert(spec_out(out@)[3].arrow_Metadata_args() =~= meta[3].arrow_Metadata_args());
            assert(spec_out(out@)[0] =~= meta[0]);
            assert(spec_out(out@)[1] =~= meta[1]);
            assert(spec_out(out@)[2] =~= meta[2]);
            assert(spec_out(out@)[3] =~= meta[3]);
            assert(spec_out(out@) =~= meta);
        }
        TracingInstance {
            latest_timestamp: 0,
            core_0: CoreTracing::new(0),
            core_1: CoreTracing::new(1),
            symbols,
            monitor_value_names: new_name_table(),
            monitor_code_names: new_name_table(),
            out,
        }
    }

    /// Take the records published so far, leaving the engine's queue empty.
    pub fn take_events(&mut self) -> (r: Vec<TracingEvent>)
        ensures
            r@ == old(self).spec_events(),
            final(self).spec_events().len() == 0,
            final(self).wf() == old(self).wf(),
            final(self).latest_timestamp == old(self).latest_timestamp,
            final(self).core_0 == old(self).core_0,
            final(self).core_1 == old(self).core_1,
    {
        let mut taken: Vec<TracingEvent> = Vec::new();
        core::mem::swap(&mut self.out, &mut taken);
        taken
    }

    /// The name for an executor address: its symbol, or a hexadecimal
    /// fallback.
    fn executor_name(&self, executor_id_long: u32) -> (r: String)
        ensures
            r@ == spec_resolved_name(self.symbols@, executor_id_long, "Executor 0x"@),
    {
        match self.symbols.get_symbol_name(executor_id_long as u64) {
            Some(name) => name,
            None => {
                let mut s = String::from_str("Executor 0x");
                let hex = hex_string(executor_id_long as u64);
                s.append(hex.as_str());
                s
            },
        }
    }

    /// The name for a task address: its symbol, or a hexadecimal fallback.
    fn task_name(&self, task_id: u32) -> (r: String)
        ensures
            r@ == spec_resolved_name(self.symbols@, task_id, "Task 0x"@),
    {
        match self.symbols.get_symbol_name(task_id as u64) {
            Some(name) => name,
            None => {
                let mut s = String::from_str("Task 0x");
                let hex = hex_string(task_id as u64);
                s.append(hex.as_str());
                s
            },
        }
    }

    /// The name for a monitored function address: its symbol, or a
    /// hexadecimal fallback.
    fn function_name(&self, fn_address: u32) -> (r: String)
        ensures
            r@ == spec_resolved_name(self.symbols@, fn_address, "Function 0x"@), {
        match self.symbols.get_symbol_name(fn_address as u64) {
            Some(name) => name,
            None => {
                let mut s = String::from_str("Function 0x");
                let hex = hex_string(fn_address as u64);
                s.append(hex.as_str());
                s
            },
        }
    }

    /// Handle a type-definition record: emit naming metadata, register
    /// monitor names, and feed task creations and endings to both cores.
    fn handle_typedef(&mut self, typedef: &TypeDefinitionPayload, timestamp: u64) -> (r: Result<
        (),
        TraceError,
    >)
        requires
            old(self).wf(),
            old(self).latest_timestamp <= timestamp,
        ensures
            spec_typedef_effect(*old(self), *final(self), typedef@, timestamp, r),
            final(self).core_0.wf(),
            final(self).core_0.core_id == 0,
            final(self).core_1.wf(),
            final(self).core_1.core_id == 1,
            final(self).core_0.bounded_by(timestamp),
            final(self).core_1.bounded_by(timestamp),
            final(self).spec_value_names().len() == 256,
            final(self).spec_code_names().len() == 256,
            final(self).latest_timestamp == old(self).latest_timestamp,
    {
        proof {
            self.core_0.lemma_bounded_mono(self.latest_timestamp, timestamp);
            self.core_1.lemma_bounded_mono(self.latest_timestamp, timestamp);
        }
        match typedef {
            TypeDefinitionPayload::EmbassyTaskCreated {
                task_id,
                executor_id_long,
                executor_id_short,
            } => {
                let ghost meta = spec_task_created_metadata(
                    old(self).symbols@,
                    *task_id,
                    *executor_id_long,
                    *executor_id_short,
                );
                let ghost len0 = spec_out(old(self).out@).len() as int;
                let short = *executor_id_short & 0x07;
                let ctid = compressed_task_id(*task_id);
                let mut exec_args: Vec<(String, String)> = Vec::new();
                exec_args.push(
                    (String::from_str("executor_id_long"), crate::strfmt::dec_string(
                        *executor_id_long as u64,
                    )),
                );
                exec_args.push((String::from_str("name"), self.executor_name(*executor_id_long)));
                self.out.push(
                    TracingEvent::Metadata {
                        name: String::from_str("process_name"),
                        cat: Some(String::from_str("embassy_executor")),
                        pid: short as u32,
                        tid: Some(0),
                        args: exec_args,
                    },
                );
                proof {
                    assert(spec_out(self.out@)[len0].arrow_Metadata_args() =~= meta[0].arrow_Metadata_args());
                    assert(spec_out(self.out@)[len0] =~= meta[0]);
                }
                let mut task_args: Vec<(String, String)> = Vec::new();
                task_args.push(
                    (String::from_str("task_id_long"), crate::strfmt::dec_string(*task_id as u64)),
                );
                task_args.push((String::from_str("name"), self.task_name(*task_id)));
                self.out.push(
                    TracingEvent::Metadata {
                        name: String::from_str("thread_name"),
                        cat: Some(String::from_str("embassy_task")),
                        pid: short as u32,
                        tid: Some(ctid as u32),
                        args: task_args,
                    },
                );
                proof {
                    assert(spec_out(self.out@)[len0] == meta[0]);
                    assert(spec_out(self.out@)[len0 + 1].arrow_Metadata_args()
                        =~= meta[1].arrow_Metadata_args());
                    assert(spec_out(self.out@)[len0 + 1] =~= meta[1]);
                }
                let ghost out_meta = spec_out(self.out@);
                let ghost c0_pre = self.core_0;
                let r0 = self.core_0.on_task_new_spawned(short, ctid, timestamp, &mut self.out);
                let ghost out_after0 = spec_out(self.out@);
                proof {
                    crate::trace_event::lemma_prefix_index(out_meta, spec_out(self.out@), len0);
                    crate::trace_event::lemma_prefix_index(
                        out_meta,
                        spec_out(self.out@),
                        len0 + 1,
                    );
                }
                if r0.is_err() {
                    return r0;
                }
                let ghost out_mid2 = spec_out(self.out@);
                let ghost c1_pre = self.core_1;
                let r1 = self.core_1.on_task_new_spawned(short, ctid, timestamp, &mut self.out);
                proof {
                    crate::trace_event::lemma_prefix_index(out_mid2, spec_out(self.out@), len0);
                    crate::trace_event::lemma_prefix_index(
                        out_mid2,
                        spec_out(self.out@),
                        len0 + 1,
                    );
                    assert(c0_pre == old(self).core_0);
                    assert(c1_pre == old(self).core_1);
                    if spec_some_exec_with_id(old(self).core_0.executors@, short) {
                        let ei = spec_exec_idx(old(self).core_0.executors@, short);
                        assert(spec_spawn_rel(
                            old(self).core_0.executors@[ei],
                            self.core_0.executors@[ei],
                            ctid,
                            timestamp,
                            out_meta,
                            out_after0,
                        ));
                    }
                    if spec_some_exec_with_id(old(self).core_1.executors@, short) {
                        let ei = spec_exec_idx(old(self).core_1.executors@, short);
                        assert(spec_spawn_rel(
                            old(self).core_1.executors@[ei],
                            self.core_1.executors@[ei],
                            ctid,
                            timestamp,
                            out_mid2,
                            spec_out(self.out@),
                        ));
                    }
                    assert(spec_core_spawned(old(self).core_0, self.core_0, short, ctid, timestamp));
                    assert(spec_core_spawned(old(self).core_1, self.core_1, short, ctid, timestamp));
                }
                r1
            },
            TypeDefinitionPayload::EmbassyTaskEnded {
                task_id,
                executor_id_long,
                executor_id_short,
            } => {
                let ghost meta = spec_task_ended_metadata(
                    old(self).symbols@,
                    *task_id,
                    *executor_id_long,
                    *executor_id_short,
                );
                let ghost len0 = spec_out(old(self).out@).len() as int;
                let short = *executor_id_short & 0x07;
                let ctid = compressed_task_id(*task_id);
                let mut exec_args: Vec<(String, String)> = Vec::new();
                exec_args.push(
                    (String::from_str("executor_id_long"), crate::strfmt::dec_string(
                        *executor_id_long as u64,
                    )),
                );
                self.out.push(
                    TracingEvent::Metadata {
                        name: self.executor_name(*executor_id_long),
                        cat: Some(String::from_str("embassy_executor")),
                        pid: short as u32,
                        tid: None,
                        args: exec_args,
                    },
                );
                proof {
                    assert(spec_out(self.out@)[len0].arrow_Metadata_args()
                        =~= meta[0].arrow_Metadata_args());
                    assert(spec_out(self.out@)[len0] =~= meta[0]);
                }
                let mut task_args: Vec<(String, String)> = Vec::new();
                task_args.push(
                    (String::from_str("task_id"), crate::strfmt::dec_string(*task_id as u64)),
                );
                self.out.push(
                    TracingEvent::Metadata {
                        name: self.task_name(*task_id),
                        cat: Some(String::from_str("embassy_task")),
                        pid: short as u32,
                        tid: Some(ctid as u32),
                        args: task_args,
                    },
                );
                proof {
                    assert(spec_out(self.out@)[len0] == meta[0]);
                    assert(spec_out(self.out@)[len0 + 1].arrow_Metadata_args()
                        =~= meta[1].arrow_Metadata_args());
                    assert(spec_out(self.out@)[len0 + 1] =~= meta[1]);
                }
                let ghost out_meta = spec_out(self.out@);
                let ghost c0_pre = self.core_0;
                let r0 = self.core_0.on_task_end(short, ctid, timestamp, &mut self.out);
                let ghost out_after0 = spec_out(self.out@);
                proof {
                    crate::trace_event::lemma_prefix_index(out_meta, spec_out(self.out@), len0);
                    crate::trace_event::lemma_prefix_index(
                        out_meta,
                        spec_out(self.out@),
                        len0 + 1,
                    );
                }
                if r0.is_err() {
                    return r0;
                }
                let ghost out_mid2 = spec_out(self.out@);
                let ghost c1_pre = self.core_1;
                let r1 = self.core_1.on_task_end(short, ctid, timestamp, &mut self.out);
                proof {
                    crate::trace_event::lemma_prefix_index(out_mid2, spec_out(self.out@), len0);
                    crate::trace_event::lemma_prefix_index(
                        out_mid2,
                        spec_out(self.out@),
                        len0 + 1,
                    );
                    if r0 is Ok && r1 is Ok {
                        if spec_some_exec_with_id(old(self).core_0.executors@, short) {
                            let ei = spec_exec_idx(old(self).core_0.executors@, short);
                            assert(spec_task_end_rel(
                                old(self).core_0.executors@[ei],
                                self.core_0.executors@[ei],
                                Ok::<(), TraceError>(()),
                                ctid,
                                timestamp,
                                out_meta,
                                out_after0,
                            ));
                        }
                        if spec_some_exec_with_id(old(self).core_1.executors@, short) {
                            let ei = spec_exec_idx(old(self).core_1.executors@, short);
                            assert(spec_task_end_rel(
                                old(self).core_1.executors@[ei],
                                self.core_1.executors@[ei],
                                Ok::<(), TraceError>(()),
                                ctid,
                                timestamp,
                                out_mid2,
                                spec_out(self.out@),
                            ));
                        }
                        assert(spec_core_task_ended(
                            old(self).core_0,
                            self.core_0,
                            short,
                            ctid,
                            timestamp,
                        ));
                        assert(spec_core_task_ended(
                            old(self).core_1,
                            self.core_1,
                            short,
                            ctid,
                            timestamp,
                        ));
                    }
                }
                r1
            },
            TypeDefinitionPayload::ValueMonitor { value_id, name, .. } => {
                self.monitor_value_names[*value_id as usize] = Some(name.clone());
                proof {
                    assert(self.monitor_value_names@ =~= old(self).monitor_value_names@.update(
                        *value_id as int,
                        self.monitor_value_names@[*value_id as int],
                    ));
                }
                Ok(())
            },
            TypeDefinitionPayload::FunctionMonitor { monitor_id, fn_address } => {
                let fn_name = self.function_name(*fn_address);
                self.monitor_code_names[*monitor_id as usize] = Some(fn_name);
                proof {
                    assert(self.monitor_code_names@ =~= old(self).monitor_code_names@.update(
                        *monitor_id as int,
                        self.monitor_code_names@[*monitor_id as int],
                    ));
                }
                Ok(())
            },
            TypeDefinitionPayload::ScopeMonitor { monitor_id, name } => {
                self.monitor_code_names[*monitor_id as usize] = Some(name.clone());
                proof {
                    assert(self.monitor_code_names@ =~= old(self).monitor_code_names@.update(
                        *monitor_id as int,
                        self.monitor_code_names@[*monitor_id as int],
                    ));
                }
                Ok(())
            },
        }
    }

    /// Handle one decoded event: route it to the cores' state machines, the
    /// monitor dictionaries, or the counter lane.
    #[verifier::rlimit(100)]
    #[verifier::spinoff_prover]
    fn handle_event_payloads(&mut self, payload: &EventPayload, timestamp: u64) -> (r: Result<
        (),
        TraceError,
    >)
        requires
            old(self).wf(),
            old(self).latest_timestamp <= timestamp,
        ensures
            final(self).core_0.wf(),
            final(self).core_0.core_id == 0,
            final(self).core_1.wf(),
            final(self).core_1.core_id == 1,
            final(self).core_0.bounded_by(timestamp),
            final(self).core_1.bounded_by(timestamp),
            final(self).spec_value_names().len() == 256,
            final(self).spec_code_names().len() == 256,
            final(self).latest_timestamp == old(self).latest_timestamp,
            !(payload@ matches EventView::TypeDefinition(_)) ==> final(self).spec_value_names()
                == old(self).spec_value_names() && final(self).spec_code_names() == old(self).spec_code_names(),
            spec_payload_effect(*old(self), *final(self), payload@, timestamp, r),
    {
        proof {
            self.core_0.lemma_bounded_mono(self.latest_timestamp, timestamp);
            self.core_1.lemma_bounded_mono(self.latest_timestamp, timestamp);
        }
        match payload {
            EventPayload::EmbassyTaskReady { task_id } => {
                let ghost c0_pre = self.core_0;
                let ghost out0 = spec_out(self.out@);
                let r0 = self.core_0.on_task_ready_task(*task_id, timestamp, &mut self.out);
                let ghost out_after0 = spec_out(self.out@);
                if r0.is_err() {
                    return r0;
                }
                let ghost c1_pre = self.core_1;
                let ghost out_mid = spec_out(self.out@);
                let r1 = self.core_1.on_task_ready_task(*task_id, timestamp, &mut self.out);
                proof {
                    if r1 is Ok {
                        assert(r0 is Ok && r0->Ok_0 == ());
                        assert(r1 is Ok && r1->Ok_0 == ());
                        if spec_some_exec_has_task(c0_pre.executors@, *task_id) {
                            let wi = choose|i: int|
                                {
                                    &&& 0 <= i < c0_pre.executors@.len()
                                    &&& spec_has_task(
                                        (#[trigger] c0_pre.executors@[i]).tasks@,
                                        *task_id,
                                    )
                                    &&& forall|j: int|
                                        0 <= j < i ==> !spec_has_task(
                                            (#[trigger] c0_pre.executors@[j]).tasks@,
                                            *task_id,
                                        )
                                    &&& self.core_0.executors@ == c0_pre.executors@.update(
                                        i,
                                        self.core_0.executors@[i],
                                    )
                                    &&& spec_ready_rel(
                                        c0_pre.executors@[i],
                                        self.core_0.executors@[i],
                                        r0,
                                        *task_id,
                                        timestamp,
                                        out0,
                                        out_after0,
                                    )
                                };
                            assert(spec_ready_rel(
                                c0_pre.executors@[wi],
                                self.core_0.executors@[wi],
                                Ok::<(), TraceError>(()),
                                *task_id,
                                timestamp,
                                out0,
                                out_after0,
                            ));
                        }
                        assert(spec_core_ready(
                            old(self).core_0,
                            self.core_0,
                            *task_id,
                            timestamp,
                        ));
                        if spec_some_exec_has_task(c1_pre.executors@, *task_id) {
                            let wi = choose|i: int|
                                {
                                    &&& 0 <= i < c1_pre.executors@.len()
                                    &&& spec_has_task(
                                        (#[trigger] c1_pre.executors@[i]).tasks@,
                                        *task_id,
                                    )
                                    &&& forall|j: int|
                                        0 <= j < i ==> !spec_has_task(
                                            (#[trigger] c1_pre.executors@[j]).tasks@,
                                            *task_id,
                                        )
                                    &&& self.core_1.executors@ == c1_pre.executors@.update(
                                        i,
                                        self.core_1.executors@[i],
                                    )
                                    &&& spec_ready_rel(
                                        c1_pre.executors@[i],
                                        self.core_1.executors@[i],
                                        r1,
                                        *task_id,
                                        timestamp,
                                        out_mid,
                                        spec_out(self.out@),
                                    )
                                };
                            assert(spec_ready_rel(
                                c1_pre.executors@[wi],
                                self.core_1.executors@[wi],
                                Ok::<(), TraceError>(()),
                                *task_id,
                                timestamp,
                                out_mid,
                                spec_out(self.out@),
                            ));
                        }
                        assert(spec_core_ready(
                            old(self).core_1,
                            self.core_1,
                            *task_id,
                            timestamp,
                        ));
                    }
                }
                r1
            },
            EventPayload::EmbassyExecutorPollStart { executor_id } => {
                let ghost c0_pre = self.core_0;
                let r0 = self.core_0.on_executor_poll_start(
                    *executor_id & 0x07,
                    timestamp,
                    &mut self.out,
                );
                if r0.is_err() {
                    return r0;
                }
                let ghost c1_pre = self.core_1;
                let r1 = self.core_1.on_executor_poll_start(
                    *executor_id & 0x07,
                    timestamp,
                    &mut self.out,
                );
                proof {
                    assert(spec_core_poll_start(
                        old(self).core_0,
                        self.core_0,
                        *executor_id & 0x07,
                        timestamp,
                    ));
                    assert(spec_core_poll_start(
                        old(self).core_1,
                        self.core_1,
                        *executor_id & 0x07,
                        timestamp,
                    ));
                }
                r1
            },
            EventPayload::EmbassyExecutorIdle { executor_id } => {
                let ghost c0_pre = self.core_0;
                let r0 = self.core_0.on_executor_idle(
                    *executor_id & 0x07,
                    timestamp,
                    &mut self.out,
                );
                if r0.is_err() {
                    return r0;
                }
                let ghost c1_pre = self.core_1;
                let r1 = self.core_1.on_executor_idle(
                    *executor_id & 0x07,
                    timestamp,
                    &mut self.out,
                );
                proof {
                    assert(spec_core_idle(
                        old(self).core_0,
                        self.core_0,
                        *executor_id & 0x07,
                        timestamp,
                    ));
                    assert(spec_core_idle(
                        old(self).core_1,
                        self.core_1,
                        *executor_id & 0x07,
                        timestamp,
                    ));
                }
                r1
            },
            EventPayload::EmbassyTaskExecBeginCore0 { task_id, executor_id } => {
                let short = *executor_id & 0x07;
                assert(short < 8) by (bit_vector)
                    requires
                        short == *executor_id & 0x07,
                ;
                let r = self.core_0.on_task_exec_begin(short, *task_id, timestamp, &mut self.out);
                proof {
                    assert(spec_payload_effect(*old(self), *self, payload@, timestamp, r));
                }
                r
            },
            EventPayload::EmbassyTaskExecBeginCore1 { task_id, executor_id } => {
                let short = *executor_id & 0x07;
                assert(short < 8) by (bit_vector)
                    requires
                        short == *executor_id & 0x07,
                ;
                let r = self.core_1.on_task_exec_begin(short, *task_id, timestamp, &mut self.out);
                proof {
                    assert(spec_payload_effect(*old(self), *self, payload@, timestamp, r));
                }
                r
            },
            EventPayload::EmbassyTaskExecEndCore0 { executor_id } => {
                let r = self.core_0.on_task_exec_end(*executor_id & 0x07, timestamp, &mut self.out);
                proof {
                    assert(spec_payload_effect(*old(self), *self, payload@, timestamp, r));
                }
                r
            },
            EventPayload::EmbassyTaskExecEndCore1 { executor_id } => {
                let r = self.core_1.on_task_exec_end(*executor_id & 0x07, timestamp, &mut self.out);
                proof {
                    assert(spec_payload_effect(*old(self), *self, payload@, timestamp, r));
                }
                r
            },
            EventPayload::TypeDefinition(typedef) => {
                let r = self.handle_typedef(typedef, timestamp);
                proof {
                    assert(spec_payload_effect(*old(self), *self, payload@, timestamp, r));
                }
                r
            },
            EventPayload::DataLossEvent { .. } => {
                proof {
                    assert(spec_payload_effect(
                        *old(self),
                        *self,
                        payload@,
                        timestamp,
                        Ok::<(), TraceError>(()),
                    ));
                }
                Ok(())
            },
            EventPayload::MonitorStartCore0 { monitor_id } => {
                match &self.monitor_code_names[*monitor_id as usize] {
                    Some(name) => {
                        let n = name.clone();
                        self.core_0.monitor_start(n, timestamp);
                    },
                    None => {},
                }
                proof {
                    assert(spec_payload_effect(
                        *old(self),
                        *self,
                        payload@,
                        timestamp,
                        Ok::<(), TraceError>(()),
                    ));
                }
                Ok(())
            },
            EventPayload::MonitorStartCore1 { monitor_id } => {
                match &self.monitor_code_names[*monitor_id as usize] {
                    Some(name) => {
                        let n = name.clone();
                        self.core_1.monitor_start(n, timestamp);
                    },
                    None => {},
                }
                proof {
                    assert(spec_payload_effect(
                        *old(self),
                        *self,
                        payload@,
                        timestamp,
                        Ok::<(), TraceError>(()),
                    ));
                }
                Ok(())
            },
            EventPayload::MonitorEndCore0 => {
                self.core_0.monitor_end(timestamp, &mut self.out);
                proof {
                    assert(spec_payload_effect(
                        *old(self),
                        *self,
                        payload@,
                        timestamp,
                        Ok::<(), TraceError>(()),
                    ));
                }
                Ok(())
            },
            EventPayload::MonitorEndCore1 => {
                self.core_1.monitor_end(timestamp, &mut self.out);
                proof {
                    assert(spec_payload_effect(
                        *old(self),
                        *self,
                        payload@,
                        timestamp,
                        Ok::<(), TraceError>(()),
                    ));
                }
                Ok(())
            },
            EventPayload::MonitorValue { value_id, value } => {
                match &self.monitor_value_names[*value_id as usize] {
                    Some(name) => {
                        let n = name.clone();
                        let ghost nv = n@;
                        self.out.push(
                            TracingEvent::Counter {
                                name: n,
                                cat: None,
                                pid: Some(VALUE_MONITOR_PID),
                                ts: timestamp,
                                value: *value,
                            },
                        );
                        proof {
                            assert(spec_out(self.out@) =~= spec_out(old(self).out@) + seq![
                                TraceEventView::Counter {
                                    name: nv,
                                    pid: Some(VALUE_MONITOR_PID),
                                    ts: timestamp,
                                    value: *value,
                                },
                            ]);
                        }
                    },
                    None => {},
                }
                proof {
                    assert(spec_payload_effect(
                        *old(self),
                        *self,
                        payload@,
                        timestamp,
                        Ok::<(), TraceError>(()),
                    ));
                }
                Ok(())
            },
        }
    }

    /// Feed one decoded event. A data-loss event, or any transition a core
    /// refuses, desynchronizes the engine: every open scope ends at the
    /// event's timestamp and both cores restart from scratch; the caller is
    /// told that it happened. Otherwise the event takes exactly its
    /// per-payload effect.
    pub fn feed(&mut self, item: &TracingItem) -> (desynced: bool)
        requires
            old(self).wf(),
            old(self).latest_timestamp <= item@.0,
        ensures
            final(self).wf(),
            final(self).latest_timestamp == item@.0,
            (item@.1 matches EventView::DataLoss { .. }) ==> desynced,
            desynced ==> final(self).core_0.executors@.len() == 0
                && final(self).core_1.executors@.len() == 0 && final(self).core_0.monitor_stack@.len()
                == 0 && final(self).core_1.monitor_stack@.len() == 0,
            !desynced ==> spec_payload_effect(
                *old(self),
                *final(self),
                item@.1,
                item@.0,
                Ok::<(), TraceError>(()),
            ),
    {
        let timestamp = item.timestamp();
        match item.payload() {
            EventPayload::DataLossEvent { .. } => {
                self.on_desynchronize(timestamp);
                self.latest_timestamp = timestamp;
                return true;
            },
            _ => {},
        }
        let payload = item.payload();
        let ghost pre_latest = self.latest_timestamp;
        let res = self.handle_event_payloads(payload, timestamp);
        match res {
            Ok(_) => {
                self.latest_timestamp = timestamp;
                false
            },
            Err(_) => {
                proof {
                    assert(self.core_0.bounded_by(timestamp));
                }
                self.on_desynchronize_at(timestamp);
                self.latest_timestamp = timestamp;
                true
            },
        }
    }

    /// Desynchronize both cores at the given instant and restart them from
    /// scratch.
    pub fn on_desynchronize(&mut self, timestamp: u64)
        requires
            old(self).wf(),
            old(self).latest_timestamp <= timestamp,
        ensures
            final(self).wf(),
            final(self).latest_timestamp == old(self).latest_timestamp,
            final(self).core_0.executors@.len() == 0,
            final(self).core_1.executors@.len() == 0,
            final(self).core_0.monitor_stack@.len() == 0,
            final(self).core_1.monitor_stack@.len() == 0,
    {
        proof {
            self.core_0.lemma_bounded_mono(self.latest_timestamp, timestamp);
            self.core_1.lemma_bounded_mono(self.latest_timestamp, timestamp);
        }
        self.on_desynchronize_at(timestamp);
    }

    /// Desynchronize both cores, assuming their state is already bounded by
    /// the instant.
    fn on_desynchronize_at(&mut self, timestamp: u64)
        requires
            old(self).core_0.wf(),
            old(self).core_0.core_id == 0,
            old(self).core_1.wf(),
            old(self).core_1.core_id == 1,
            old(self).core_0.bounded_by(timestamp),
            old(self).core_1.bounded_by(timestamp),
            old(self).spec_value_names().len() == 256,
            old(self).spec_code_names().len() == 256,
        ensures
            final(self).wf(),
            final(self).latest_timestamp == old(self).latest_timestamp,
            final(self).core_0.executors@.len() == 0,
            final(self).core_1.executors@.len() == 0,
            final(self).core_0.monitor_stack@.len() == 0,
            final(self).core_1.monitor_stack@.len() == 0,
    {
        self.core_0.on_desynchronize(timestamp, &mut self.out);
        self.core_1.on_desynchronize(timestamp, &mut self.out);
        self.core_0 = CoreTracing::new(0);
        self.core_1 = CoreTracing::new(1);
    }

    /// Add a target log line to the trace as an instant event on the global
    /// lane. Lines without a timestamp are dropped.
    pub fn add_defmt_log(&mut self, log_line: &DefmtLine)
        requires
            old(self).wf(),
        ensures
            final(self).wf(),
            final(self).latest_timestamp == old(self).latest_timestamp,
    {
        match log_line.timestamp_us() {
            Some(timestamp) => {
                let level = log_line.log_level();
                let mut args: Vec<(String, String)> = Vec::new();
                args.push((String::from_str("level"), level.to_string()));
                self.out.push(
                    TracingEvent::Instant {
                        name: String::from_str(log_line.message()),
                        cat: Some(level.to_string()),
                        ts: timestamp,
                        pid: None,
                        tid: None,
                        scope: InstantScope::Global,
                        args,
                        cname: level.get_cname(),
                    },
                );
            },
            None => {},
        }
    }

    /// Engine teardown: every still-open scope on both cores is flushed up
    /// to the last observed timestamp.
    pub fn shutdown(&mut self)
        requires
            old(self).wf(),
        ensures
            final(self).wf(),
            final(self).latest_timestamp == old(self).latest_timestamp,
            final(self).core_0.monitor_stack@.len() == 0,
            final(self).core_1.monitor_stack@.len() == 0,
            final(self).core_0.executors@.len() == old(self).core_0.executors@.len(),
            final(self).core_1.executors@.len() == old(self).core_1.executors@.len(),
            forall|j: int, k: int|
                0 <= j < final(self).core_0.executors@.len() && 0 <= k < (
                #[trigger] final(self).core_0.executors@[j]).tasks@.len() ==> (
                #[trigger] final(self).core_0.executors@[j].tasks@[k]).current_monitors@.len()
                    == 0,
            forall|j: int, k: int|
                0 <= j < final(self).core_1.executors@.len() && 0 <= k < (
                #[trigger] final(self).core_1.executors@[j]).tasks@.len() ==> (
                #[trigger] final(self).core_1.executors@[j].tasks@[k]).current_monitors@.len()
                    == 0,
            spec_out(old(self).spec_events()).is_prefix_of(spec_out(final(self).spec_events())),
    {
        let ts = self.latest_timestamp;
        self.core_0.on_drop(ts, &mut self.out);
        let ghost out_mid = spec_out(self.out@);
        self.core_1.on_drop(ts, &mut self.out);
        proof {
            crate::trace_event::lemma_prefix_trans(
                spec_out(old(self).out@),
                out_mid,
                spec_out(self.out@),
            );
        }
    }
}

} // verus!
