use rustmeter::core_tracing::CoreTracing;
use rustmeter::decoder::TraceDataDecoder;
use rustmeter::decoder::TracingItem;
use rustmeter::elf_map::FirmwareAddressMap;
use rustmeter::executor::ExecutorState;
use rustmeter::executor::PreemptedPrevState;
use rustmeter::instance::TracingInstance;
use rustmeter::protocol::EventPayload;
use rustmeter::protocol::MonitorValuePayload;
use rustmeter::protocol::TypeDefinitionPayload;
use rustmeter::task::TaskState;
use rustmeter::time_delta::TimeDelta;
use rustmeter::trace_event::TracingEvent;
use rustmeter::tracing::write_tracing_event;

fn new_engine() -> TracingInstance {
    TracingInstance::new(FirmwareAddressMap::new_from_symbols(vec![]))
}

fn feed(engine: &mut TracingInstance, ts: u64, payload: EventPayload) {
    engine.feed(&TracingItem::new(ts, payload));
}

fn scope_monitor(monitor_id: u8, name: &str) -> EventPayload {
    EventPayload::TypeDefinition(TypeDefinitionPayload::ScopeMonitor {
        monitor_id,
        name: name.to_string(),
    })
}

fn find_complete(events: &[TracingEvent], name: &str) -> Vec<(u32, u32, u64, u64)> {
    let mut found = vec![];
    for ev in events {
        if let TracingEvent::Complete { name: n, pid, tid, ts, dur, .. } = ev {
            if n == name {
                found.push((*pid, *tid, *ts, *dur));
            }
        }
    }
    found
}

fn has_begin(events: &[TracingEvent], name: &str, pid: u32, tid: Option<u32>, ts: u64) -> bool {
    events.iter().any(|ev| match ev {
        TracingEvent::Begin { name: n, pid: p, tid: t, ts: s, .. } => {
            n == name && *p == pid && *t == tid && *s == ts
        }
        _ => false,
    })
}

fn executor_state(core: &CoreTracing, executor_id: u8) -> Option<ExecutorState> {
    core.executors
        .iter()
        .find(|e| e.executor_id == executor_id)
        .map(|e| e.current_state)
}

fn task_state(core: &CoreTracing, executor_id: u8, task_id: u16) -> Option<TaskState> {
    core.executors
        .iter()
        .find(|e| e.executor_id == executor_id)
        .and_then(|e| e.tasks.iter().find(|t| t.task_id == task_id))
        .map(|t| t.state)
}

#[test]
fn test_basic_poll_cycle() {
    let mut engine = new_engine();
    feed(&mut engine, 0, scope_monitor(7, "work"));
    feed(&mut engine, 0, EventPayload::EmbassyExecutorPollStart { executor_id: 1 });
    feed(
        &mut engine,
        10,
        EventPayload::EmbassyTaskExecBeginCore0 { task_id: 100, executor_id: 1 },
    );
    feed(&mut engine, 20, EventPayload::MonitorStartCore0 { monitor_id: 7 });
    feed(&mut engine, 30, EventPayload::MonitorEndCore0);
    feed(&mut engine, 40, EventPayload::EmbassyTaskExecEndCore0 { executor_id: 1 });
    feed(&mut engine, 50, EventPayload::EmbassyExecutorIdle { executor_id: 1 });

    assert_eq!(executor_state(&engine.core_0, 1), Some(ExecutorState::Idle));
    assert_eq!(task_state(&engine.core_0, 1, 100), Some(TaskState::Idle));

    let events = engine.take_events();
    // The monitored span is a Complete on the task's lane, exactly as long
    // as the time between start and end.
    assert_eq!(find_complete(&events, "work"), vec![(1, 100, 20, 10)]);
    // The executor scheduled after the poll, then went idle.
    assert!(has_begin(&events, "Scheduling", 1, Some(0), 40));
    assert!(has_begin(&events, "Idle", 1, Some(0), 50));
    // The task left Running at the poll's end.
    assert!(has_begin(&events, "Idle", 1, Some(100), 40));
}

#[test]
fn test_preemption_and_resume() {
    let mut engine = new_engine();
    feed(&mut engine, 0, scope_monitor(7, "a"));
    feed(
        &mut engine,
        10,
        EventPayload::EmbassyTaskExecBeginCore0 { task_id: 100, executor_id: 1 },
    );
    feed(&mut engine, 20, EventPayload::MonitorStartCore0 { monitor_id: 7 });
    // A higher-priority executor starts polling its own task on the same
    // core: executor 1 and task 100 are preempted, the open monitor is
    // flushed up to the preemption instant.
    feed(
        &mut engine,
        40,
        EventPayload::EmbassyTaskExecBeginCore0 { task_id: 200, executor_id: 2 },
    );
    assert_eq!(
        executor_state(&engine.core_0, 1),
        Some(ExecutorState::Preempted {
            by_executor_id: 2,
            prev_state: PreemptedPrevState::Polling { task_id: 100 },
        })
    );
    assert_eq!(
        task_state(&engine.core_0, 1, 100),
        Some(TaskState::Preempted { by_executor_id: 2 })
    );
    // At most one executor on the core is scheduling or polling.
    let running = engine
        .core_0
        .executors
        .iter()
        .filter(|e| {
            matches!(
                e.current_state,
                ExecutorState::Scheduling | ExecutorState::Polling { .. }
            )
        })
        .count();
    assert_eq!(running, 1);

    feed(&mut engine, 50, EventPayload::EmbassyTaskExecEndCore0 { executor_id: 2 });
    feed(&mut engine, 60, EventPayload::EmbassyExecutorIdle { executor_id: 2 });
    // The preemptor went idle: executor 1 resumes exactly where it was.
    assert_eq!(
        executor_state(&engine.core_0, 1),
        Some(ExecutorState::Polling { task_id: 100 })
    );
    assert_eq!(task_state(&engine.core_0, 1, 100), Some(TaskState::Running));

    feed(&mut engine, 70, EventPayload::MonitorEndCore0);

    let events = engine.take_events();
    let completes = find_complete(&events, "a");
    // The span was flushed at the preemption and reopened at the resume.
    assert_eq!(completes, vec![(1, 100, 20, 20), (1, 100, 60, 10)]);
    assert!(has_begin(&events, "Preempted (by 2)", 1, Some(100), 40));
    assert!(has_begin(&events, "Running", 1, Some(100), 60));
}

#[test]
fn test_reawaken_while_running() {
    let mut engine = new_engine();
    feed(
        &mut engine,
        0,
        EventPayload::EmbassyTaskExecBeginCore0 { task_id: 1, executor_id: 1 },
    );
    feed(&mut engine, 5, EventPayload::EmbassyTaskReady { task_id: 1 });
    feed(&mut engine, 10, EventPayload::EmbassyTaskExecEndCore0 { executor_id: 1 });
    // The task was awoken while it ran, so it is Ready again, not Idle.
    assert_eq!(task_state(&engine.core_0, 1, 1), Some(TaskState::Ready));
}

#[test]
fn test_data_loss_desynchronizes_and_recovers() {
    let mut engine = new_engine();
    feed(
        &mut engine,
        10,
        EventPayload::EmbassyTaskExecBeginCore0 { task_id: 100, executor_id: 1 },
    );
    assert_eq!(engine.core_0.executors.len(), 1);

    feed(&mut engine, 20, EventPayload::DataLossEvent { dropped_events: 3 });
    // The core restarted from scratch.
    assert_eq!(engine.core_0.executors.len(), 0);
    let events = engine.take_events();
    assert!(has_begin(&events, "Desynchronization", 0xFFFF_FFFE, Some(1), 20));

    // A valid sequence after the loss reopens executors and tasks cleanly.
    feed(
        &mut engine,
        30,
        EventPayload::EmbassyTaskExecBeginCore0 { task_id: 300, executor_id: 3 },
    );
    assert_eq!(
        executor_state(&engine.core_0, 3),
        Some(ExecutorState::Polling { task_id: 300 })
    );
    assert_eq!(task_state(&engine.core_0, 3, 300), Some(TaskState::Running));
}

#[test]
fn test_illegal_transition_desynchronizes() {
    let mut engine = new_engine();
    feed(
        &mut engine,
        10,
        EventPayload::EmbassyTaskExecBeginCore0 { task_id: 100, executor_id: 1 },
    );
    feed(&mut engine, 20, EventPayload::EmbassyTaskExecEndCore0 { executor_id: 1 });
    // Ending a poll while the executor is scheduling, not polling, is an
    // illegal transition: the engine desynchronizes the state instead of
    // crashing.
    feed(&mut engine, 30, EventPayload::EmbassyTaskExecEndCore0 { executor_id: 1 });
    assert_eq!(engine.core_0.executors.len(), 0);
}

#[test]
fn test_monitor_lifo_nesting() {
    let mut engine = new_engine();
    feed(&mut engine, 0, scope_monitor(1, "outer"));
    feed(&mut engine, 0, scope_monitor(2, "inner"));
    feed(
        &mut engine,
        0,
        EventPayload::EmbassyTaskExecBeginCore0 { task_id: 9, executor_id: 0 },
    );
    feed(&mut engine, 10, EventPayload::MonitorStartCore0 { monitor_id: 1 });
    feed(&mut engine, 20, EventPayload::MonitorStartCore0 { monitor_id: 2 });
    feed(&mut engine, 30, EventPayload::MonitorEndCore0);
    feed(&mut engine, 40, EventPayload::MonitorEndCore0);

    let events = engine.take_events();
    // LIFO unwinding: the inner span completes before the outer one, and
    // each span's duration is exactly its end minus its start.
    let mut monitor_completes = vec![];
    for ev in &events {
        if let TracingEvent::Complete { name, ts, dur, .. } = ev {
            monitor_completes.push((name.clone(), *ts, *dur));
        }
    }
    assert_eq!(
        monitor_completes,
        vec![("inner".to_string(), 20, 10), ("outer".to_string(), 10, 30)]
    );
}

#[test]
fn test_bare_core_monitor() {
    // A monitor outside any executor context lands on the core's own lane.
    let mut engine = new_engine();
    feed(&mut engine, 0, scope_monitor(1, "irq"));
    feed(&mut engine, 10, EventPayload::MonitorStartCore1 { monitor_id: 1 });
    feed(&mut engine, 25, EventPayload::MonitorEndCore1);
    let events = engine.take_events();
    assert_eq!(find_complete(&events, "irq"), vec![(0xFFFF_FFFE, 2, 10, 15)]);
}

#[test]
fn test_task_identity_unique_after_replay() {
    let mut engine = new_engine();
    // Two executors, two tasks each, driven through creations and polls.
    for (exec, task) in [(1u8, 100u16), (1, 101), (2, 200), (2, 201)] {
        feed(
            &mut engine,
            10,
            EventPayload::TypeDefinition(TypeDefinitionPayload::EmbassyTaskCreated {
                task_id: task as u32 * 4,
                executor_id_long: 0x2000_0000 + exec as u32,
                executor_id_short: exec,
            }),
        );
    }
    // Every (executor short ID, task ID) pair identifies exactly one task
    // trace per core.
    for core in [&engine.core_0, &engine.core_1] {
        let mut seen = vec![];
        for e in &core.executors {
            for t in &e.tasks {
                let key = (e.executor_id, t.task_id);
                assert!(!seen.contains(&key));
                seen.push(key);
            }
        }
    }
}

#[test]
fn test_value_monitor_typing() {
    // A u16 value monitor registered with id 5 sends sample 0xBEEF; the
    // decoder recovers integer 48879 and the engine emits a Counter.
    let mut decoder = TraceDataDecoder::new();
    decoder.feed(&write_tracing_event(
        TimeDelta::new(1),
        &EventPayload::TypeDefinition(TypeDefinitionPayload::ValueMonitor {
            value_id: 5,
            type_id: 1,
            name: "chan".to_string(),
        }),
    ));
    decoder.feed(&write_tracing_event(
        TimeDelta::new(1),
        &EventPayload::MonitorValue {
            value_id: 5,
            value: MonitorValuePayload::U16(0xBEEF),
        },
    ));
    let items = decoder.decode();
    assert_eq!(items.len(), 2);
    assert_eq!(
        items[1].payload(),
        &EventPayload::MonitorValue {
            value_id: 5,
            value: MonitorValuePayload::U16(48879),
        }
    );

    let mut engine = new_engine();
    for item in &items {
        engine.feed(item);
    }
    let events = engine.take_events();
    let counter = events.iter().find_map(|ev| match ev {
        TracingEvent::Counter { name, pid, value, ts, .. } => {
            Some((name.clone(), *pid, *value, *ts))
        }
        _ => None,
    });
    assert_eq!(
        counter,
        Some((
            "chan".to_string(),
            Some(0xFFFF_FFFF),
            MonitorValuePayload::U16(48879),
            2
        ))
    );
}

#[test]
fn test_unregistered_value_monitor_is_discarded() {
    // A sample for a monitor that never registered a name emits nothing
    // and is not an error.
    let mut engine = new_engine();
    feed(
        &mut engine,
        5,
        EventPayload::MonitorValue {
            value_id: 9,
            value: MonitorValuePayload::U16(7),
        },
    );
    let events = engine.take_events();
    assert!(events
        .iter()
        .all(|ev| !matches!(ev, TracingEvent::Counter { .. })));
}

#[test]
fn test_initial_metadata_records() {
    // A fresh engine opens its stream with exactly the four naming records.
    let mut engine = new_engine();
    let events = engine.take_events();
    assert_eq!(events.len(), 4);
    match &events[0] {
        TracingEvent::Metadata { name, pid, tid, args, .. } => {
            assert_eq!(name, "process_name");
            assert_eq!(*pid, 0xFFFF_FFFE);
            assert_eq!(*tid, None);
            assert_eq!(args[0], ("name".to_string(), "Core Overview".to_string()));
        }
        other => panic!("expected metadata, found {:?}", other),
    }
    match &events[1] {
        TracingEvent::Metadata { name, tid, args, .. } => {
            assert_eq!(name, "thread_name");
            assert_eq!(*tid, Some(1));
            assert_eq!(args[0], ("name".to_string(), "Core 0".to_string()));
        }
        other => panic!("expected metadata, found {:?}", other),
    }
    match &events[2] {
        TracingEvent::Metadata { tid, args, .. } => {
            assert_eq!(*tid, Some(2));
            assert_eq!(args[0], ("name".to_string(), "Core 1".to_string()));
        }
        other => panic!("expected metadata, found {:?}", other),
    }
    match &events[3] {
        TracingEvent::Metadata { name, pid, args, .. } => {
            assert_eq!(name, "process_name");
            assert_eq!(*pid, 0xFFFF_FFFF);
            assert_eq!(args[0], ("name".to_string(), "Metrics".to_string()));
        }
        other => panic!("expected metadata, found {:?}", other),
    }
}

#[test]
fn test_task_end_via_type_definition() {
    let mut engine = new_engine();
    let task_addr: u32 = 0x1000;
    let ctid = rustmeter::compressed_task_id(task_addr);
    feed(
        &mut engine,
        0,
        EventPayload::TypeDefinition(TypeDefinitionPayload::EmbassyTaskCreated {
            task_id: task_addr,
            executor_id_long: 0x2000,
            executor_id_short: 1,
        }),
    );
    // The creation alone only spawns the task; no executor exists yet on
    // either core, so nothing is attributed.
    feed(
        &mut engine,
        10,
        EventPayload::EmbassyTaskExecBeginCore0 { task_id: ctid, executor_id: 1 },
    );
    assert_eq!(task_state(&engine.core_0, 1, ctid), Some(TaskState::Running));
    feed(
        &mut engine,
        20,
        EventPayload::TypeDefinition(TypeDefinitionPayload::EmbassyTaskEnded {
            task_id: task_addr,
            executor_id_long: 0x2000,
            executor_id_short: 1,
        }),
    );
    assert_eq!(task_state(&engine.core_0, 1, ctid), Some(TaskState::Ended));
}

#[test]
fn test_engine_shutdown_flushes_open_scopes() {
    let mut engine = new_engine();
    feed(&mut engine, 0, scope_monitor(1, "open_span"));
    feed(
        &mut engine,
        0,
        EventPayload::EmbassyTaskExecBeginCore0 { task_id: 5, executor_id: 1 },
    );
    feed(&mut engine, 10, EventPayload::MonitorStartCore0 { monitor_id: 1 });
    feed(&mut engine, 30, EventPayload::EmbassyTaskReady { task_id: 5 });
    engine.shutdown();
    let events = engine.take_events();
    // The still-open monitor was flushed up to the last observed timestamp.
    assert_eq!(find_complete(&events, "open_span"), vec![(1, 5, 10, 20)]);
}
