//! The per-task state machine of the reconstruction engine.
//!
//! A task is created lazily in whichever state its first event implies, so
//! partial streams do not lose tasks. While a task runs it owns a stack of
//! open code monitors; preemption flushes them as Complete spans and
//! remembers their names so they reopen on resume.

use vstd::prelude::*;
use vstd::string::StringExecFns;

use crate::errors::TraceError;
use crate::strfmt::{dec_string, spec_dec_chars};
use crate::trace_event::{
    emit_begin, emit_end, emit_monitor_complete, spec_out, TraceEventView, TracingEvent,
};

verus! {

/// The state of one task.
#[derive(Debug, Clone, Copy, PartialEq, Eq, Structural)]
pub enum TaskState {
    /// Created, never yet made ready.
    Spawned,
    /// Awoken and waiting to be polled.
    Ready,
    /// Being polled.
    Running,
    /// Displaced with its executor by a higher-priority executor.
    Preempted { by_executor_id: u8 },
    /// Returned from a poll with no wake pending.
    Idle,
    /// Finished; it will not be scheduled again.
    Ended,
    /// The stream lost events; the task's state is unknown.
    StreamDesynchronized,
}

/// The lane label of a task state.
pub open spec fn spec_task_state_name(s: TaskState) -> Seq<char> {
    match s {
        TaskState::Spawned => "Spawned"@,
        TaskState::Ready => "Ready"@,
        TaskState::Running => "Running"@,
        TaskState::Preempted { by_executor_id } => "Preempted (by "@ + spec_dec_chars(
            by_executor_id as nat,
        ) + ")"@,
        TaskState::Idle => "Idle"@,
        TaskState::Ended => "Ended"@,
        TaskState::StreamDesynchronized => "StreamDesynchronized"@,
    }
}

impl TaskState {
    /// The lane label of this state.
    pub fn to_string(&self) -> (r: String)
        ensures
            r@ == spec_task_state_name(*self),
    {
        match self {
            TaskState::Spawned => String::from_str("Spawned"),
            TaskState::Ready => String::from_str("Ready"),
            TaskState::Running => String::from_str("Running"),
            TaskState::Preempted { by_executor_id } => {
                let mut s = String::from_str("Preempted (by ");
                let id = dec_string(*by_executor_id as u64);
                s.append(id.as_str());
                s.append(")");
                s
            },
            TaskState::Idle => String::from_str("Idle"),
            TaskState::Ended => String::from_str("Ended"),
            TaskState::StreamDesynchronized => String::from_str("StreamDesynchronized"),
        }
    }
}

/// The view of a monitor stack: names as characters, with the open
/// timestamps.
pub open spec fn spec_monitor_stack(v: Seq<(String, u64)>) -> Seq<(Seq<char>, u64)> {
    v.map_values(|p: (String, u64)| (p.0@, p.1))
}

/// The view of a stack of remembered monitor names.
pub open spec fn spec_names(v: Seq<String>) -> Seq<Seq<char>> {
    v.map_values(|s: String| s@)
}

/// The Complete spans that flushing a monitor stack at time `ts` emits, in
/// stack order from the outermost span inward.
pub open spec fn spec_flush_events(
    mons: Seq<(Seq<char>, u64)>,
    pid: u32,
    tid: u32,
    ts: u64,
) -> Seq<TraceEventView> {
    Seq::new(
        mons.len(),
        |i: int|
            TraceEventView::Complete {
                name: mons[i].0,
                cat: Some("code_monitor"@),
                pid,
                tid,
                ts: mons[i].1,
                dur: (ts - mons[i].1) as u64,
            },
    )
}

/// The task states from which a wakeup is accepted.
pub open spec fn spec_task_readyable(s: TaskState) -> bool {
    ||| s == TaskState::Spawned
    ||| s == TaskState::Idle
    ||| s == TaskState::Running
    ||| s matches TaskState::Preempted { .. }
}

/// What a wakeup makes of a task: Spawned and Idle become Ready; Running
/// and Preempted tasks only remember they were re-awoken.
pub open spec fn spec_after_ready(t: TaskTracing, ts: u64) -> TaskTracing {
    match t.state {
        TaskState::Spawned | TaskState::Idle => TaskTracing {
            state: TaskState::Ready,
            state_start: ts,
            reawoken_while_running: false,
            ..t
        },
        _ => TaskTracing { reawoken_while_running: true, ..t },
    }
}

/// What a poll begin makes of a Ready task.
pub open spec fn spec_after_exec_begin(t: TaskTracing, ts: u64) -> TaskTracing {
    TaskTracing { state: TaskState::Running, state_start: ts, ..t }
}

/// What a poll end makes of a Running task: back to Ready when it was
/// re-awoken during the poll, else Idle.
pub open spec fn spec_after_exec_end(t: TaskTracing, ts: u64) -> TaskTracing {
    TaskTracing {
        state: if t.reawoken_while_running {
            TaskState::Ready
        } else {
            TaskState::Idle
        },
        state_start: ts,
        reawoken_while_running: false,
        ..t
    }
}

/// What ending for good makes of a Running task.
pub open spec fn spec_after_end(t: TaskTracing, ts: u64) -> TaskTracing {
    TaskTracing { state: TaskState::Ended, state_start: ts, ..t }
}

/// The records a task's state switch emits: nothing when the state stays,
/// else the closing End and the Begin naming the new state.
pub open spec fn spec_task_transition_events(t: TaskTracing, new_state: TaskState, ts: u64) -> Seq<
    TraceEventView,
> {
    if t.state == new_state {
        Seq::empty()
    } else {
        seq![
            TraceEventView::End {
                name: None,
                cat: None,
                pid: t.executor_id as u32,
                tid: Some(t.task_id as u32),
                ts,
            },
            TraceEventView::Begin {
                name: spec_task_state_name(new_state),
                cat: None,
                ts,
                pid: t.executor_id as u32,
                tid: Some(t.task_id as u32),
            },
        ]
    }
}

/// How preemption leaves a Running task: Preempted, its open monitors
/// flushed and their names remembered for resume.
pub open spec fn spec_preempted_step(t0: TaskTracing, t1: TaskTracing, by: u8, ts: u64) -> bool {
    &&& t1.state == (TaskState::Preempted { by_executor_id: by })
    &&& t1.state_start == ts
    &&& t1.executor_id == t0.executor_id
    &&& t1.task_id == t0.task_id
    &&& t1.reawoken_while_running == t0.reawoken_while_running
    &&& t1.current_monitors@.len() == 0
    &&& spec_names(t1.preempted_monitors@) == spec_names(t0.preempted_monitors@)
        + spec_monitor_stack(t0.current_monitors@).map_values(|p: (Seq<char>, u64)| p.0)
}

/// How resuming leaves a Preempted task: Running again, its remembered
/// monitors reopened with the resume instant as new start.
pub open spec fn spec_resumed_step(t0: TaskTracing, t1: TaskTracing, ts: u64) -> bool {
    &&& t1.state == TaskState::Running
    &&& t1.state_start == ts
    &&& t1.executor_id == t0.executor_id
    &&& t1.task_id == t0.task_id
    &&& t1.reawoken_while_running == t0.reawoken_while_running
    &&& t1.preempted_monitors@.len() == 0
    &&& spec_monitor_stack(t1.current_monitors@) == spec_monitor_stack(t0.current_monitors@)
        + spec_names(t0.preempted_monitors@).map_values(|n: Seq<char>| (n, ts))
}

/// The records preempting a Running task emits: the state switch, then its
/// open monitors flushed up to the preemption instant.
pub open spec fn spec_task_preempt_events(t: TaskTracing, by: u8, ts: u64) -> Seq<TraceEventView> {
    spec_task_transition_events(t, TaskState::Preempted { by_executor_id: by }, ts)
        + spec_flush_events(
        spec_monitor_stack(t.current_monitors@),
        t.executor_id as u32,
        t.task_id as u32,
        ts,
    )
}

/// The records tearing a task down emits: its lane closes, then its open
/// monitors flush up to the teardown instant.
pub open spec fn spec_task_drop_events(t: TaskTracing, ts: u64) -> Seq<TraceEventView> {
    seq![
        TraceEventView::End {
            name: None,
            cat: None,
            pid: t.executor_id as u32,
            tid: Some(t.task_id as u32),
            ts,
        },
    ] + spec_flush_events(
        spec_monitor_stack(t.current_monitors@),
        t.executor_id as u32,
        t.task_id as u32,
        ts,
    )
}

/// How a monitor start leaves a task: everything as it was, with the new
/// span on top of the stack.
pub open spec fn spec_monitor_pushed_step(
    t0: TaskTracing,
    t1: TaskTracing,
    name: Seq<char>,
    ts: u64,
) -> bool {
    &&& t1.state == t0.state
    &&& t1.state_start == t0.state_start
    &&& t1.executor_id == t0.executor_id
    &&& t1.task_id == t0.task_id
    &&& t1.reawoken_while_running == t0.reawoken_while_running
    &&& t1.preempted_monitors == t0.preempted_monitors
    &&& spec_monitor_stack(t1.current_monitors@) == spec_monitor_stack(t0.current_monitors@).push(
        (name, ts),
    )
}

/// How a monitor end leaves a task: everything as it was, with the
/// innermost span popped.
pub open spec fn spec_monitor_popped_step(t0: TaskTracing, t1: TaskTracing) -> bool {
    &&& t1.state == t0.state
    &&& t1.state_start == t0.state_start
    &&& t1.executor_id == t0.executor_id
    &&& t1.task_id == t0.task_id
    &&& t1.reawoken_while_running == t0.reawoken_while_running
    &&& t1.preempted_monitors == t0.preempted_monitors
    &&& spec_monitor_stack(t1.current_monitors@) == spec_monitor_stack(
        t0.current_monitors@,
    ).drop_last()
}

/// Monitor stacks unwind LIFO: after a start pushes a span, the next end
/// pops exactly that span — the innermost open monitor — and nothing else
/// moves. Together with the contracts of starting a monitor (which pushes)
/// and ending one (which pops the last entry and completes it with
/// duration end minus start), the Complete spans of a task lane are the
/// LIFO unwinding of its starts.
pub proof fn lemma_monitor_lifo(stack: Seq<(Seq<char>, u64)>, name: Seq<char>, ts: u64)
    ensures
        stack.push((name, ts)).last() == (name, ts),
        stack.push((name, ts)).drop_last() == stack,
{
    assert(stack.push((name, ts)).drop_last() =~= stack);
}

/// The reconstructed trace of one task.
pub struct TaskTracing {
    /// The short ID of the executor the task belongs to.
    pub executor_id: u8,
    /// The task's 16-bit wire ID.
    pub task_id: u16,
    /// The current state.
    pub state: TaskState,
    /// When the current state began, in microseconds.
    pub state_start: u64,
    /// Whether the task was awoken again while it was being polled; it then
    /// goes back to Ready, not Idle, when the poll ends.
    pub reawoken_while_running: bool,
    /// The open code monitors of the task, outermost first: each holds
    /// the monitor's name and when it opened.
    pub current_monitors: Vec<(String, u64)>,
    /// Names of monitors truncated by preemption, to reopen on resume,
    /// outermost first.
    pub preempted_monitors: Vec<String>,
}

impl TaskTracing {
    /// The executor short ID fits in 3 bits.
    pub open spec fn wf(&self) -> bool {
        self.executor_id < 8
    }

    /// Every timestamp the task remembers lies at or before `t`.
    pub open spec fn bounded_by(&self, t: u64) -> bool {
        &&& self.state_start <= t
        &&& forall|i: int|
            0 <= i < self.current_monitors@.len() ==> #[trigger] self.current_monitors@[i].1 <= t
    }

    /// A bound on the task's timestamps extends to any later time.
    pub proof fn lemma_bounded_mono(&self, t1: u64, t2: u64)
        requires
            self.bounded_by(t1),
            t1 <= t2,
        ensures
            self.bounded_by(t2),
    {
    }

    /// The pid of the task's lane: its executor's short ID.
    pub open spec fn spec_pid(&self) -> u32 {
        self.executor_id as u32
    }

    /// The tid of the task's lane: its wire ID.
    pub open spec fn spec_tid(&self) -> u32 {
        self.task_id as u32
    }

    /// Create a task trace in the given state, closing whatever unknown
    /// state the lane was in (events may have been lost before creation).
    fn new_in_state(
        executor_id: u8,
        task_id: u16,
        state: TaskState,
        state_start: u64,
        out: &mut Vec<TracingEvent>,
    ) -> (r: TaskTracing)
        requires
            executor_id < 8,
        ensures
            r.executor_id == executor_id,
            r.task_id == task_id,
            r.state == state,
            r.state_start == state_start,
            r.reawoken_while_running == false,
            r.current_monitors@.len() == 0,
            r.preempted_monitors@.len() == 0,
            r.wf(),
            r.bounded_by(state_start),
            spec_out(final(out)@) == spec_out(old(out)@) + seq![
                TraceEventView::End {
                    name: None,
                    cat: None,
                    pid: executor_id as u32,
                    tid: Some(task_id as u32),
                    ts: state_start,
                },
            ],
    {
        emit_end(out, executor_id as u32, Some(task_id as u32), state_start);
        TaskTracing {
            executor_id,
            task_id,
            state,
            state_start,
            reawoken_while_running: false,
            current_monitors: Vec::new(),
            preempted_monitors: Vec::new(),
        }
    }

    /// Create a task first seen through its creation event.
    pub fn new_spawned(
        executor_id: u8,
        task_id: u16,
        state_start: u64,
        out: &mut Vec<TracingEvent>,
    ) -> (r: TaskTracing)
        requires
            executor_id < 8,
        ensures
            r == (TaskTracing {
                executor_id,
                task_id,
                state: TaskState::Spawned,
                state_start,
                reawoken_while_running: false,
                current_monitors: r.current_monitors,
                preempted_monitors: r.preempted_monitors,
            }),
            r.current_monitors@.len() == 0,
            r.preempted_monitors@.len() == 0,
            spec_out(final(out)@) == spec_out(old(out)@) + seq![
                TraceEventView::End {
                    name: None,
                    cat: None,
                    pid: executor_id as u32,
                    tid: Some(task_id as u32),
                    ts: state_start,
                },
            ],
    {
        Self::new_in_state(executor_id, task_id, TaskState::Spawned, state_start, out)
    }

    /// Create a task first seen through a ready event.
    pub fn new_ready(
        executor_id: u8,
        task_id: u16,
        state_start: u64,
        out: &mut Vec<TracingEvent>,
    ) -> (r: TaskTracing)
        requires
            executor_id < 8,
        ensures
            r == (TaskTracing {
                executor_id,
                task_id,
                state: TaskState::Ready,
                state_start,
                reawoken_while_running: false,
                current_monitors: r.current_monitors,
                preempted_monitors: r.preempted_monitors,
            }),
            r.current_monitors@.len() == 0,
            r.preempted_monitors@.len() == 0,
            spec_out(final(out)@) == spec_out(old(out)@) + seq![
                TraceEventView::End {
                    name: None,
                    cat: None,
                    pid: executor_id as u32,
                    tid: Some(task_id as u32),
                    ts: state_start,
                },
            ],
    {
        Self::new_in_state(executor_id, task_id, TaskState::Ready, state_start, out)
    }

    /// Create a task first seen through an execution-begin event.
    pub fn new_exec_begin(
        executor_id: u8,
        task_id: u16,
        state_start: u64,
        out: &mut Vec<TracingEvent>,
    ) -> (r: TaskTracing)
        requires
            executor_id < 8,
        ensures
            r == (TaskTracing {
                executor_id,
                task_id,
                state: TaskState::Running,
                state_start,
                reawoken_while_running: false,
                current_monitors: r.current_monitors,
                preempted_monitors: r.preempted_monitors,
            }),
            r.current_monitors@.len() == 0,
            r.preempted_monitors@.len() == 0,
            spec_out(final(out)@) == spec_out(old(out)@) + seq![
                TraceEventView::End {
                    name: None,
                    cat: None,
                    pid: executor_id as u32,
                    tid: Some(task_id as u32),
                    ts: state_start,
                },
            ],
    {
        Self::new_in_state(executor_id, task_id, TaskState::Running, state_start, out)
    }

    /// The current state.
    pub fn state(&self) -> (r: TaskState)
        ensures
            r == self.state,
    {
        self.state
    }

    /// Switch states, closing the old lane span and opening one named after
    /// the new state. Staying in the same state emits nothing.
    fn transition_to(&mut self, new_state: TaskState, timestamp: u64, out: &mut Vec<TracingEvent>)
        ensures
            *final(self) == (TaskTracing {
                state: new_state,
                state_start: if old(self).state == new_state {
                    old(self).state_start
                } else {
                    timestamp
                },
                ..*old(self)
            }),
            spec_out(final(out)@) == spec_out(old(out)@) + if old(self).state == new_state {
                Seq::<TraceEventView>::empty()
            } else {
                seq![
                    TraceEventView::End {
                        name: None,
                        cat: None,
                        pid: old(self).spec_pid(),
                        tid: Some(old(self).spec_tid()),
                        ts: timestamp,
                    },
                    TraceEventView::Begin {
                        name: spec_task_state_name(new_state),
                        cat: None,
                        ts: timestamp,
                        pid: old(self).spec_pid(),
                        tid: Some(old(self).spec_tid()),
                    },
                ]
            },
    {
        if self.state != new_state {
            let ghost out0 = out@;
            emit_end(out, self.executor_id as u32, Some(self.task_id as u32), timestamp);
            let name = new_state.to_string();
            emit_begin(out, name, self.executor_id as u32, Some(self.task_id as u32), timestamp);
            self.state = new_state;
            self.state_start = timestamp;
            proof {
                assert(spec_out(out@) =~= spec_out(out0) + seq![
                    TraceEventView::End {
                        name: None,
                        cat: None,
                        pid: old(self).spec_pid(),
                        tid: Some(old(self).spec_tid()),
                        ts: timestamp,
                    },
                    TraceEventView::Begin {
                        name: spec_task_state_name(new_state),
                        cat: None,
                        ts: timestamp,
                        pid: old(self).spec_pid(),
                        tid: Some(old(self).spec_tid()),
                    },
                ]);
            }
        } else {
            assert(spec_out(out@) =~= spec_out(out@) + Seq::<TraceEventView>::empty());
        }
    }

    /// Flush every open monitor as a Complete span reaching `timestamp` and
    /// empty the stack. The spans come out in stack order, outermost first.
    fn flush_monitors(&mut self, timestamp: u64, out: &mut Vec<TracingEvent>)
        requires
            old(self).bounded_by(timestamp),
        ensures
            *final(self) == (TaskTracing { current_monitors: final(self).current_monitors, ..*old(self) }),
            final(self).current_monitors@.len() == 0,
            spec_out(final(out)@) == spec_out(old(out)@) + spec_flush_events(
                spec_monitor_stack(old(self).current_monitors@),
                old(self).spec_pid(),
                old(self).spec_tid(),
                timestamp,
            ),
    {
        let ghost mons0 = spec_monitor_stack(self.current_monitors@);
        let ghost out0 = out@;
        let mut i: usize = 0;
        let n = self.current_monitors.len();
        while i < n
            invariant
                n == self.current_monitors@.len(),
                i <= n,
                self.bounded_by(timestamp),
                mons0 == spec_monitor_stack(self.current_monitors@),
                spec_out(out@) == spec_out(out0) + spec_flush_events(
                    mons0.subrange(0, i as int),
                    self.spec_pid(),
                    self.spec_tid(),
                    timestamp,
                ),
                *self == (TaskTracing { current_monitors: self.current_monitors, ..*old(self) }),
            decreases n - i,
        {
            let name = self.current_monitors[i].0.clone();
            let start = self.current_monitors[i].1;
            assert(name@ == mons0[i as int].0);
            let ghost out_pre = out@;
            emit_monitor_complete(
                out,
                name,
                self.executor_id as u32,
                self.task_id as u32,
                start,
                timestamp - start,
            );
            i = i + 1;
            proof {
                assert(spec_flush_events(
                    mons0.subrange(0, i as int),
                    self.spec_pid(),
                    self.spec_tid(),
                    timestamp,
                ) =~= spec_flush_events(
                    mons0.subrange(0, i as int - 1),
                    self.spec_pid(),
                    self.spec_tid(),
                    timestamp,
                ) + seq![
                    TraceEventView::Complete {
                        name: mons0[i as int - 1].0,
                        cat: Some("code_monitor"@),
                        pid: self.spec_pid(),
                        tid: self.spec_tid(),
                        ts: mons0[i as int - 1].1,
                        dur: (timestamp - mons0[i as int - 1].1) as u64,
                    },
                ]);
            }
        }
        self.current_monitors = Vec::new();
        proof {
            assert(mons0.subrange(0, mons0.len() as int) =~= mons0);
        }
    }

    /// The stream lost events: the task's state becomes unknown and every
    /// open monitor is flushed up to the loss.
    pub fn on_desynchronize(&mut self, timestamp: u64, out: &mut Vec<TracingEvent>)
        requires
            old(self).bounded_by(timestamp),
        ensures
            final(self).state == TaskState::StreamDesynchronized,
            final(self).current_monitors@.len() == 0,
            final(self).executor_id == old(self).executor_id,
            final(self).task_id == old(self).task_id,
            final(self).bounded_by(timestamp),
            spec_out(final(out)@) == spec_out(old(out)@) + (if old(self).state
                == TaskState::StreamDesynchronized {
                Seq::<TraceEventView>::empty()
            } else {
                seq![
                    TraceEventView::End {
                        name: None,
                        cat: None,
                        pid: old(self).spec_pid(),
                        tid: Some(old(self).spec_tid()),
                        ts: timestamp,
                    },
                    TraceEventView::Begin {
                        name: spec_task_state_name(TaskState::StreamDesynchronized),
                        cat: None,
                        ts: timestamp,
                        pid: old(self).spec_pid(),
                        tid: Some(old(self).spec_tid()),
                    },
                ]
            }) + spec_flush_events(
                spec_monitor_stack(old(self).current_monitors@),
                old(self).spec_pid(),
                old(self).spec_tid(),
                timestamp,
            ),
    {
        self.transition_to(TaskState::StreamDesynchronized, timestamp, out);
        self.flush_monitors(timestamp, out);
    }

    /// The task was awoken. From Spawned or Idle it becomes Ready; while
    /// Running or Preempted only the re-awoken flag is set; any other state
    /// refuses the event.
    pub fn on_ready(&mut self, timestamp: u64, out: &mut Vec<TracingEvent>) -> (r: Result<
        (),
        TraceError,
    >)
        requires
            old(self).bounded_by(timestamp),
        ensures
            final(self).bounded_by(timestamp),
            match r {
                Ok(_) => (old(self).state == TaskState::Spawned || old(self).state
                    == TaskState::Idle || old(self).state == TaskState::Running || old(self).state
                    matches TaskState::Preempted { .. }) && *final(self) == (match old(self).state {
                    TaskState::Spawned | TaskState::Idle => TaskTracing {
                        state: TaskState::Ready,
                        state_start: timestamp,
                        reawoken_while_running: false,
                        ..*old(self)
                    },
                    _ => TaskTracing { reawoken_while_running: true, ..*old(self) },
                }),
                Err(e) => *final(self) == *old(self) && final(out)@ == old(out)@ && e
                    == (TraceError::TaskNotReadyable { task_id: old(self).task_id })
                    && !(old(self).state == TaskState::Spawned || old(self).state == TaskState::Idle
                    || old(self).state == TaskState::Running || old(self).state
                    matches TaskState::Preempted { .. }),
            },
            match r {
                Ok(_) => match old(self).state {
                    TaskState::Spawned | TaskState::Idle => spec_out(final(out)@) == spec_out(
                        old(out)@,
                    ) + seq![
                        TraceEventView::End {
                            name: None,
                            cat: None,
                            pid: old(self).spec_pid(),
                            tid: Some(old(self).spec_tid()),
                            ts: timestamp,
                        },
                        TraceEventView::Begin {
                            name: spec_task_state_name(TaskState::Ready),
                            cat: None,
                            ts: timestamp,
                            pid: old(self).spec_pid(),
                            tid: Some(old(self).spec_tid()),
                        },
                    ],
                    _ => final(out)@ == old(out)@,
                },
                Err(_) => true,
            },
    {
        match self.state {
            TaskState::Spawned | TaskState::Idle => {
                self.transition_to(TaskState::Ready, timestamp, out);
                self.reawoken_while_running = false;
                Ok(())
            },
            TaskState::Running | TaskState::Preempted { .. } => {
                self.reawoken_while_running = true;
                Ok(())
            },
            _ => Err(TraceError::TaskNotReadyable { task_id: self.task_id }),
        }
    }

    /// The task's poll began. Only a Ready task may begin running.
    pub fn on_exec_begin(&mut self, timestamp: u64, out: &mut Vec<TracingEvent>) -> (r: Result<
        (),
        TraceError,
    >)
        requires
            old(self).bounded_by(timestamp),
        ensures
            final(self).bounded_by(timestamp),
            match r {
                Ok(_) => old(self).state == TaskState::Ready && *final(self) == (TaskTracing {
                    state: TaskState::Running,
                    state_start: timestamp,
                    ..*old(self)
                }) && spec_out(final(out)@) == spec_out(old(out)@) + seq![
                    TraceEventView::End {
                        name: None,
                        cat: None,
                        pid: old(self).spec_pid(),
                        tid: Some(old(self).spec_tid()),
                        ts: timestamp,
                    },
                    TraceEventView::Begin {
                        name: spec_task_state_name(TaskState::Running),
                        cat: None,
                        ts: timestamp,
                        pid: old(self).spec_pid(),
                        tid: Some(old(self).spec_tid()),
                    },
                ],
                Err(e) => old(self).state != TaskState::Ready && *final(self) == *old(self) && final(out)@ == old(out)@ && e == (TraceError::TaskNotReady { task_id: old(self).task_id }),
            },
    {
        match self.state {
            TaskState::Ready => {
                self.transition_to(TaskState::Running, timestamp, out);
                Ok(())
            },
            _ => Err(TraceError::TaskNotReady { task_id: self.task_id }),
        }
    }

    /// The task's poll ended. A Running task goes back to Ready when it was
    /// re-awoken during the poll, else to Idle.
    pub fn on_exec_end(&mut self, timestamp: u64, out: &mut Vec<TracingEvent>) -> (r: Result<
        (),
        TraceError,
    >)
        requires
            old(self).bounded_by(timestamp),
        ensures
            final(self).bounded_by(timestamp),
            match r {
                Ok(_) => old(self).state == TaskState::Running && *final(self) == (TaskTracing {
                    state: if old(self).reawoken_while_running {
                        TaskState::Ready
                    } else {
                        TaskState::Idle
                    },
                    state_start: timestamp,
                    reawoken_while_running: false,
                    ..*old(self)
                }) && spec_out(final(out)@) == spec_out(old(out)@) + seq![
                    TraceEventView::End {
                        name: None,
                        cat: None,
                        pid: old(self).spec_pid(),
                        tid: Some(old(self).spec_tid()),
                        ts: timestamp,
                    },
                    TraceEventView::Begin {
                        name: spec_task_state_name(
                            if old(self).reawoken_while_running {
                                TaskState::Ready
                            } else {
                                TaskState::Idle
                            },
                        ),
                        cat: None,
                        ts: timestamp,
                        pid: old(self).spec_pid(),
                        tid: Some(old(self).spec_tid()),
                    },
                ],
                Err(e) => old(self).state != TaskState::Running && *final(self) == *old(self)
                    && final(out)@ == old(out)@ && e == (TraceError::TaskNotRunningOnExecEnd {
                    task_id: old(self).task_id,
                }),
            },
    {
        match self.state {
            TaskState::Running => {
                if self.reawoken_while_running {
                    self.transition_to(TaskState::Ready, timestamp, out);
                } else {
                    self.transition_to(TaskState::Idle, timestamp, out);
                }
                self.reawoken_while_running = false;
                Ok(())
            },
            _ => Err(TraceError::TaskNotRunningOnExecEnd { task_id: self.task_id }),
        }
    }

    /// The task finished for good. Only a Running task may end.
    pub fn on_end(&mut self, timestamp: u64, out: &mut Vec<TracingEvent>) -> (r: Result<
        (),
        TraceError,
    >)
        requires
            old(self).bounded_by(timestamp),
        ensures
            final(self).bounded_by(timestamp),
            match r {
                Ok(_) => old(self).state == TaskState::Running && *final(self) == (TaskTracing {
                    state: TaskState::Ended,
                    state_start: timestamp,
                    ..*old(self)
                }) && spec_out(final(out)@) == spec_out(old(out)@) + seq![
                    TraceEventView::End {
                        name: None,
                        cat: None,
                        pid: old(self).spec_pid(),
                        tid: Some(old(self).spec_tid()),
                        ts: timestamp,
                    },
                    TraceEventView::Begin {
                        name: spec_task_state_name(TaskState::Ended),
                        cat: None,
                        ts: timestamp,
                        pid: old(self).spec_pid(),
                        tid: Some(old(self).spec_tid()),
                    },
                ],
                Err(e) => old(self).state != TaskState::Running && *final(self) == *old(self)
                    && final(out)@ == old(out)@ && e == (TraceError::TaskNotRunningOnEnd {
                    task_id: old(self).task_id,
                }),
            },
    {
        match self.state {
            TaskState::Running => {
                self.transition_to(TaskState::Ended, timestamp, out);
                Ok(())
            },
            _ => Err(TraceError::TaskNotRunningOnEnd { task_id: self.task_id }),
        }
    }

    /// The task's executor was preempted while the task ran: the task is
    /// preempted too, and every open monitor is flushed up to the
    /// preemption instant with its name remembered for resume.
    pub fn on_preempted(
        &mut self,
        timestamp: u64,
        by_executor_id: u8,
        out: &mut Vec<TracingEvent>,
    ) -> (r: Result<(), TraceError>)
        requires
            old(self).bounded_by(timestamp),
        ensures
            final(self).bounded_by(timestamp),
            match r {
                Ok(_) => {
                    &&& old(self).state == TaskState::Running
                    &&& final(self).state == (TaskState::Preempted { by_executor_id })
                    &&& final(self).state_start == timestamp
                    &&& final(self).executor_id == old(self).executor_id
                    &&& final(self).task_id == old(self).task_id
                    &&& final(self).reawoken_while_running == old(self).reawoken_while_running
                    &&& final(self).current_monitors@.len() == 0
                    &&& spec_names(final(self).preempted_monitors@) == spec_names(
                        old(self).preempted_monitors@,
                    ) + spec_monitor_stack(old(self).current_monitors@).map_values(
                        |p: (Seq<char>, u64)| p.0,
                    )
                    &&& spec_out(final(out)@) == spec_out(old(out)@) + seq![
                        TraceEventView::End {
                            name: None,
                            cat: None,
                            pid: old(self).spec_pid(),
                            tid: Some(old(self).spec_tid()),
                            ts: timestamp,
                        },
                        TraceEventView::Begin {
                            name: spec_task_state_name(TaskState::Preempted { by_executor_id }),
                            cat: None,
                            ts: timestamp,
                            pid: old(self).spec_pid(),
                            tid: Some(old(self).spec_tid()),
                        },
                    ] + spec_flush_events(
                        spec_monitor_stack(old(self).current_monitors@),
                        old(self).spec_pid(),
                        old(self).spec_tid(),
                        timestamp,
                    )
                },
                Err(e) => old(self).state != TaskState::Running && *final(self) == *old(self)
                    && final(out)@ == old(out)@ && e == (TraceError::TaskNotRunningOnPreempt {
                    task_id: old(self).task_id,
                }),
            },
    {
        match self.state {
            TaskState::Running => {
                self.transition_to(TaskState::Preempted { by_executor_id }, timestamp, out);
                let ghost names0 = spec_names(self.preempted_monitors@);
                let ghost mons0 = spec_monitor_stack(self.current_monitors@);
                let mut i: usize = 0;
                let n = self.current_monitors.len();
                while i < n
                    invariant
                        n == self.current_monitors@.len(),
                        i <= n,
                        mons0 == spec_monitor_stack(self.current_monitors@),
                        spec_names(self.preempted_monitors@) == names0 + mons0.subrange(
                            0,
                            i as int,
                        ).map_values(|p: (Seq<char>, u64)| p.0),
                        self.executor_id == old(self).executor_id,
                        self.task_id == old(self).task_id,
                        self.state == (TaskState::Preempted { by_executor_id }),
                        self.state_start == timestamp,
                        self.reawoken_while_running == old(self).reawoken_while_running,
                        self.current_monitors == old(self).current_monitors,
                        self.bounded_by(timestamp) == old(self).bounded_by(timestamp),
                        old(self).bounded_by(timestamp),
                    decreases n - i,
                {
                    let name = self.current_monitors[i].0.clone();
                    let ghost names_pre = spec_names(self.preempted_monitors@);
                    self.preempted_monitors.push(name);
                    i = i + 1;
                    proof {
                        assert(spec_names(self.preempted_monitors@) =~= names_pre + seq![
                            mons0[i as int - 1].0,
                        ]);
                        assert(names0 + mons0.subrange(0, i as int).map_values(
                            |p: (Seq<char>, u64)| p.0,
                        ) =~= (names0 + mons0.subrange(0, i as int - 1).map_values(
                            |p: (Seq<char>, u64)| p.0,
                        )) + seq![mons0[i as int - 1].0]);
                    }
                }
                proof {
                    assert(mons0.subrange(0, mons0.len() as int) =~= mons0);
                }
                self.flush_monitors(timestamp, out);
                Ok(())
            },
            _ => Err(TraceError::TaskNotRunningOnPreempt { task_id: self.task_id }),
        }
    }

    /// The preempting executor went idle: the task runs again and its
    /// remembered monitors reopen with the resume timestamp as new start.
    pub fn on_resumed(&mut self, timestamp: u64, out: &mut Vec<TracingEvent>) -> (r: Result<
        (),
        TraceError,
    >)
        requires
            old(self).bounded_by(timestamp),
        ensures
            final(self).bounded_by(timestamp),
            match r {
                Ok(_) => {
                    &&& old(self).state matches TaskState::Preempted { .. }
                    &&& final(self).state == TaskState::Running
                    &&& final(self).state_start == timestamp
                    &&& final(self).executor_id == old(self).executor_id
                    &&& final(self).task_id == old(self).task_id
                    &&& final(self).reawoken_while_running == old(self).reawoken_while_running
                    &&& final(self).preempted_monitors@.len() == 0
                    &&& spec_monitor_stack(final(self).current_monitors@) == spec_monitor_stack(
                        old(self).current_monitors@,
                    ) + spec_names(old(self).preempted_monitors@).map_values(
                        |n: Seq<char>| (n, timestamp),
                    )
                    &&& spec_out(final(out)@) == spec_out(old(out)@) + seq![
                        TraceEventView::End {
                            name: None,
                            cat: None,
                            pid: old(self).spec_pid(),
                            tid: Some(old(self).spec_tid()),
                            ts: timestamp,
                        },
                        TraceEventView::Begin {
                            name: spec_task_state_name(TaskState::Running),
                            cat: None,
                            ts: timestamp,
                            pid: old(self).spec_pid(),
                            tid: Some(old(self).spec_tid()),
                        },
                    ]
                },
                Err(e) => !(old(self).state matches TaskState::Preempted { .. }) && *final(self)
                    == *old(self) && final(out)@ == old(out)@ && e
                    == (TraceError::TaskNotPreempted { task_id: old(self).task_id }),
            },
    {
        match self.state {
            TaskState::Preempted { .. } => {
                self.transition_to(TaskState::Running, timestamp, out);
                let ghost mons0 = spec_monitor_stack(self.current_monitors@);
                let ghost names0 = spec_names(self.preempted_monitors@);
                let mut i: usize = 0;
                let n = self.preempted_monitors.len();
                while i < n
                    invariant
                        n == self.preempted_monitors@.len(),
                        i <= n,
                        names0 == spec_names(self.preempted_monitors@),
                        spec_monitor_stack(self.current_monitors@) == mons0 + names0.subrange(
                            0,
                            i as int,
                        ).map_values(|nm: Seq<char>| (nm, timestamp)),
                        self.executor_id == old(self).executor_id,
                        self.task_id == old(self).task_id,
                        self.state == TaskState::Running,
                        self.state_start == timestamp,
                        self.reawoken_while_running == old(self).reawoken_while_running,
                        self.preempted_monitors == old(self).preempted_monitors,
                        self.bounded_by(timestamp),
                    decreases n - i,
                {
                    let name = self.preempted_monitors[i].clone();
                    let ghost stack_pre = spec_monitor_stack(self.current_monitors@);
                    self.current_monitors.push((name, timestamp));
                    i = i + 1;
                    proof {
                        assert(spec_monitor_stack(self.current_monitors@) =~= stack_pre + seq![
                            (names0[i as int - 1], timestamp),
                        ]);
                        assert(mons0 + names0.subrange(0, i as int).map_values(
                            |nm: Seq<char>| (nm, timestamp),
                        ) =~= (mons0 + names0.subrange(0, i as int - 1).map_values(
                            |nm: Seq<char>| (nm, timestamp),
                        )) + seq![(names0[i as int - 1], timestamp)]);
                    }
                }
                proof {
                    assert(names0.subrange(0, names0.len() as int) =~= names0);
                }
                self.preempted_monitors = Vec::new();
                Ok(())
            },
            _ => Err(TraceError::TaskNotPreempted { task_id: self.task_id }),
        }
    }

    /// A code monitor started while the task runs: push it on the stack.
    pub fn on_monitor_start(&mut self, name: String, timestamp: u64)
        requires
            old(self).bounded_by(timestamp),
        ensures
            final(self).bounded_by(timestamp),
            *final(self) == (TaskTracing { current_monitors: final(self).current_monitors, ..*old(self) }),
            spec_monitor_stack(final(self).current_monitors@) == spec_monitor_stack(
                old(self).current_monitors@,
            ).push((name@, timestamp)),
    {
        let ghost stack_pre = spec_monitor_stack(self.current_monitors@);
        let ghost name_view = name@;
        self.current_monitors.push((name, timestamp));
        proof {
            assert(spec_monitor_stack(self.current_monitors@) =~= stack_pre.push(
                (name_view, timestamp),
            ));
        }
    }

    /// The innermost open monitor of the task closed: pop it and record
    /// its Complete span, lasting from its start to this close. An empty
    /// stack ignores the event.
    pub fn on_monitor_end(&mut self, timestamp: u64, out: &mut Vec<TracingEvent>)
        requires
            old(self).bounded_by(timestamp),
        ensures
            final(self).bounded_by(timestamp),
            *final(self) == (TaskTracing { current_monitors: final(self).current_monitors, ..*old(self) }),
            ({
                let stack = spec_monitor_stack(old(self).current_monitors@);
                if stack.len() == 0 {
                    final(self).current_monitors@ == old(self).current_monitors@ && final(out)@
                        == old(out)@
                } else {
                    spec_monitor_stack(final(self).current_monitors@) == stack.drop_last()
                        && spec_out(final(out)@) == spec_out(old(out)@) + seq![
                        TraceEventView::Complete {
                            name: stack.last().0,
                            cat: Some("code_monitor"@),
                            pid: old(self).spec_pid(),
                            tid: old(self).spec_tid(),
                            ts: stack.last().1,
                            dur: (timestamp - stack.last().1) as u64,
                        },
                    ]
                }
            }),
    {
        let ghost stack = spec_monitor_stack(self.current_monitors@);
        match self.current_monitors.pop() {
            Some((name, start_timestamp)) => {
                assert(name@ == stack.last().0 && start_timestamp == stack.last().1);
                assert(spec_monitor_stack(self.current_monitors@) =~= stack.drop_last());
                assert(old(self).current_monitors@.last().1 <= timestamp);
                emit_monitor_complete(
                    out,
                    name,
                    self.executor_id as u32,
                    self.task_id as u32,
                    start_timestamp,
                    timestamp - start_timestamp,
                );
            },
            None => {},
        }
    }

    /// Engine teardown: close the task's lane and flush every open monitor
    /// up to the last observed timestamp.
    pub fn on_drop(&mut self, timestamp: u64, out: &mut Vec<TracingEvent>)
        requires
            old(self).bounded_by(timestamp),
        ensures
            final(self).bounded_by(timestamp),
            *final(self) == (TaskTracing { current_monitors: final(self).current_monitors, ..*old(self) }),
            final(self).current_monitors@.len() == 0,
            spec_out(final(out)@) == spec_out(old(out)@) + seq![
                TraceEventView::End {
                    name: None,
                    cat: None,
                    pid: old(self).spec_pid(),
                    tid: Some(old(self).spec_tid()),
                    ts: timestamp,
                },
            ] + spec_flush_events(
                spec_monitor_stack(old(self).current_monitors@),
                old(self).spec_pid(),
                old(self).spec_tid(),
                timestamp,
            ),
    {
        emit_end(out, self.executor_id as u32, Some(self.task_id as u32), timestamp);
        self.flush_monitors(timestamp, out);
    }
}

} // verus!
