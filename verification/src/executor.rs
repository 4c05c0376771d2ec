//! The per-executor state machine of the reconstruction engine.
//!
//! An executor cycles Idle, Scheduling, Polling a task, and back; a
//! higher-priority executor on the same core can preempt it, and when the
//! preemptor goes idle the executor resumes in exactly the state it was
//! preempted in. An executor owns the traces of its tasks; at most one of
//! them is ever Running.

use vstd::prelude::*;
use vstd::string::StringExecFns;

use crate::errors::TraceError;
use crate::strfmt::{dec_string, spec_dec_chars};
use crate::task::{
    spec_after_end, spec_after_exec_begin, spec_after_exec_end, spec_after_ready,
    spec_flush_events, spec_monitor_popped_step, spec_monitor_pushed_step, spec_monitor_stack,
    spec_names, spec_preempted_step, spec_resumed_step, spec_task_preempt_events,
    spec_task_readyable, spec_task_state_name, spec_task_transition_events, TaskState, TaskTracing,
};
use crate::trace_event::{emit_begin, emit_end, spec_out, TraceEventView, TracingEvent};
use vstd::seq_lib::*;

verus! {

broadcast use crate::trace_event::lemma_prefix_of_concat, crate::trace_event::lemma_prefix_refl;

/// What a preempted executor was doing when it was displaced.
#[derive(Debug, Clone, Copy, PartialEq, Eq, Structural)]
pub enum PreemptedPrevState {
    Scheduling,
    Polling { task_id: u16 },
}

/// The executor state a preempted executor resumes into.
pub open spec fn spec_prev_as_state(p: PreemptedPrevState) -> ExecutorState {
    match p {
        PreemptedPrevState::Scheduling => ExecutorState::Scheduling,
        PreemptedPrevState::Polling { task_id } => ExecutorState::Polling { task_id },
    }
}

/// What preemption records about a scheduling or polling executor.
pub open spec fn spec_prev_of(s: ExecutorState) -> PreemptedPrevState {
    match s {
        ExecutorState::Polling { task_id } => PreemptedPrevState::Polling { task_id },
        _ => PreemptedPrevState::Scheduling,
    }
}

/// Preempt/resume symmetry: resuming from what preemption recorded of a
/// scheduling or polling executor restores exactly the state it was
/// preempted in. Together with the contracts of preemption (which records
/// `spec_prev_of` of the old state) and of resume (which moves to
/// `spec_prev_as_state` of the record), a preempted executor that resumes
/// comes back to its exact pre-preemption state.
pub proof fn lemma_preempt_resume_symmetry(s: ExecutorState)
    requires
        spec_exec_is_running(s),
    ensures
        spec_prev_as_state(spec_prev_of(s)) == s,
{
}

/// The state of one executor.
#[derive(Debug, Clone, Copy, PartialEq, Eq, Structural)]
pub enum ExecutorState {
    /// No tasks to poll.
    Idle,
    /// Deciding which task to poll next.
    Scheduling,
    /// Displaced by a higher-priority executor on the same core; `prev_state`
    /// is restored when that executor goes idle.
    Preempted { by_executor_id: u8, prev_state: PreemptedPrevState },
    /// Polling the given task.
    Polling { task_id: u16 },
    /// The stream lost events; the executor's state is unknown.
    StreamDesynchronized,
}

/// Whether an executor in this state occupies its core (it is scheduling or
/// polling).
pub open spec fn spec_exec_is_running(s: ExecutorState) -> bool {
    s == ExecutorState::Scheduling || s matches ExecutorState::Polling { .. }
}

/// The lane label of an executor state.
pub open spec fn spec_exec_state_name(s: ExecutorState) -> Seq<char> {
    match s {
        ExecutorState::Idle => "Idle"@,
        ExecutorState::Scheduling => "Scheduling"@,
        ExecutorState::Preempted { by_executor_id, .. } => "Preempted (by Executor "@
            + spec_dec_chars(by_executor_id as nat) + ")"@,
        ExecutorState::Polling { task_id } => "Polling Task "@ + spec_dec_chars(task_id as nat),
        ExecutorState::StreamDesynchronized => "Stream Desynchronized"@,
    }
}

impl ExecutorState {
    /// The lane label of this state.
    pub fn to_string(&self) -> (r: String)
        ensures
            r@ == spec_exec_state_name(*self),
    {
        match self {
            ExecutorState::Idle => String::from_str("Idle"),
            ExecutorState::Scheduling => String::from_str("Scheduling"),
            ExecutorState::Preempted { by_executor_id, .. } => {
                let mut s = String::from_str("Preempted (by Executor ");
                let id = dec_string(*by_executor_id as u64);
                s.append(id.as_str());
                s.append(")");
                s
            },
            ExecutorState::Polling { task_id } => {
                let mut s = String::from_str("Polling Task ");
                let id = dec_string(*task_id as u64);
                s.append(id.as_str());
                s
            },
            ExecutorState::StreamDesynchronized => String::from_str("Stream Desynchronized"),
        }
    }
}

/// Whether some task in `tasks` carries the given wire ID.
pub open spec fn spec_has_task(tasks: Seq<TaskTracing>, task_id: u16) -> bool {
    exists|i: int| 0 <= i < tasks.len() && #[trigger] tasks[i].task_id == task_id
}

/// A present task ID stays present when the tasks keep their IDs slotwise.
pub proof fn lemma_has_task_preserved(a: Seq<TaskTracing>, b: Seq<TaskTracing>, task_id: u16)
    requires
        a.len() == b.len(),
        forall|i: int| 0 <= i < a.len() ==> #[trigger] a[i].task_id == b[i].task_id,
        spec_has_task(a, task_id),
    ensures
        spec_has_task(b, task_id),
{
    let w = choose|i: int| 0 <= i < a.len() && #[trigger] a[i].task_id == task_id;
    assert(b[w].task_id == task_id);
}

/// Two executor traces that agree on every observable part: same short ID,
/// same state and its start, and the same tasks.
pub open spec fn spec_same(a: ExecutorTracing, b: ExecutorTracing) -> bool {
    &&& a.executor_id == b.executor_id
    &&& a.current_state == b.current_state
    &&& a.state_start == b.state_start
    &&& a.tasks@ == b.tasks@
}

/// The structural clauses on a task list: every task is sound and belongs
/// to the executor, IDs are pairwise distinct, and at most one task runs.
pub open spec fn spec_tasks_ok(tasks: Seq<TaskTracing>, executor_id: u8) -> bool {
    &&& forall|i: int|
        0 <= i < tasks.len() ==> (#[trigger] tasks[i]).wf() && tasks[i].executor_id == executor_id
    &&& forall|i: int, j: int|
        #![trigger tasks[i].task_id, tasks[j].task_id]
        0 <= i < j < tasks.len() ==> tasks[i].task_id != tasks[j].task_id
    &&& forall|i: int, j: int|
        #![trigger tasks[i].state, tasks[j].state]
        0 <= i < j < tasks.len() ==> !(tasks[i].state == TaskState::Running && tasks[j].state
            == TaskState::Running)
}

/// Replacing one task with a sound task of the same ID preserves the
/// structural clauses, as long as a newly Running replacement either was
/// already the runner or runs on an otherwise idle list.
proof fn lemma_tasks_update_ok(s: Seq<TaskTracing>, i: int, t: TaskTracing, executor_id: u8)
    requires
        0 <= i < s.len(),
        spec_tasks_ok(s, executor_id),
        t.wf(),
        t.executor_id == executor_id,
        t.task_id == s[i].task_id,
        t.state == TaskState::Running ==> s[i].state == TaskState::Running || forall|j: int|
            0 <= j < s.len() ==> (#[trigger] s[j]).state != TaskState::Running,
    ensures
        spec_tasks_ok(s.update(i, t), executor_id),
        forall|j: int| 0 <= j < s.len() ==> #[trigger] s.update(i, t)[j].task_id == s[j].task_id,
{
    let u = s.update(i, t);
    assert forall|a: int, b: int|
        #![trigger u[a].state, u[b].state]
        0 <= a < b < u.len() implies !(u[a].state == TaskState::Running && u[b].state
        == TaskState::Running) by {
        if a != i && b != i {
            assert(u[a] == s[a] && u[b] == s[b]);
            assert(!(s[a].state == TaskState::Running && s[b].state == TaskState::Running));
        } else if t.state == TaskState::Running {
            if s[i].state == TaskState::Running {
                let other = if a == i { b } else { a };
                assert(u[other] == s[other]);
                if other < i {
                    assert(!(s[other].state == TaskState::Running && s[i].state
                        == TaskState::Running));
                } else {
                    assert(!(s[i].state == TaskState::Running && s[other].state
                        == TaskState::Running));
                }
            } else {
                let other = if a == i { b } else { a };
                assert(u[other] == s[other]);
                assert(s[other].state != TaskState::Running);
            }
        }
    }
}

/// Appending a fresh task preserves the structural clauses, as long as a
/// Running newcomer joins an otherwise idle list.
proof fn lemma_tasks_push_ok(s: Seq<TaskTracing>, t: TaskTracing, executor_id: u8)
    requires
        spec_tasks_ok(s, executor_id),
        t.wf(),
        t.executor_id == executor_id,
        !spec_has_task(s, t.task_id),
        t.state == TaskState::Running ==> forall|j: int|
            0 <= j < s.len() ==> (#[trigger] s[j]).state != TaskState::Running,
    ensures
        spec_tasks_ok(s.push(t), executor_id),
        forall|j: int| 0 <= j < s.len() ==> #[trigger] s.push(t)[j].task_id == s[j].task_id,
{
    let u = s.push(t);
    assert forall|a: int, b: int|
        #![trigger u[a].task_id, u[b].task_id]
        0 <= a < b < u.len() implies u[a].task_id != u[b].task_id by {
        if b == s.len() {
            assert(u[a] == s[a]);
            assert(s[a].task_id != t.task_id);
        } else {
            assert(u[a] == s[a] && u[b] == s[b]);
        }
    }
    assert forall|a: int, b: int|
        #![trigger u[a].state, u[b].state]
        0 <= a < b < u.len() implies !(u[a].state == TaskState::Running && u[b].state
        == TaskState::Running) by {
        if b == s.len() {
            assert(u[a] == s[a]);
        } else {
            assert(u[a] == s[a] && u[b] == s[b]);
        }
    }
}

/// A present task ID stays present when a task is appended.
proof fn lemma_has_task_push(s: Seq<TaskTracing>, t: TaskTracing, task_id: u16)
    requires
        spec_has_task(s, task_id),
    ensures
        spec_has_task(s.push(t), task_id),
{
    let w = choose|i: int| 0 <= i < s.len() && #[trigger] s[i].task_id == task_id;
    assert(s.push(t)[w].task_id == task_id);
}

/// The index of the task carrying the given wire ID; meaningful only when
/// some task carries it.
pub open spec fn spec_task_idx(tasks: Seq<TaskTracing>, task_id: u16) -> int {
    choose|i: int| 0 <= i < tasks.len() && #[trigger] tasks[i].task_id == task_id
}

/// The tracked task carrying the given wire ID.
pub open spec fn spec_the_task(tasks: Seq<TaskTracing>, task_id: u16) -> TaskTracing {
    tasks[spec_task_idx(tasks, task_id)]
}

/// Whether some tracked task is Running.
pub open spec fn spec_some_task_running(tasks: Seq<TaskTracing>) -> bool {
    exists|i: int| 0 <= i < tasks.len() && (#[trigger] tasks[i]).state == TaskState::Running
}

/// Whether some tracked task is Preempted.
pub open spec fn spec_some_task_preempted(tasks: Seq<TaskTracing>) -> bool {
    exists|i: int|
        0 <= i < tasks.len() && (#[trigger] tasks[i]).state matches TaskState::Preempted { .. }
}

/// With pairwise distinct IDs, a task's slot is the one `spec_task_idx`
/// names, so `spec_the_task` is exactly that task.
pub proof fn lemma_task_idx_unique(tasks: Seq<TaskTracing>, i: int)
    requires
        forall|a: int, b: int|
            #![trigger tasks[a].task_id, tasks[b].task_id]
            0 <= a < b < tasks.len() ==> tasks[a].task_id != tasks[b].task_id,
        0 <= i < tasks.len(),
    ensures
        spec_has_task(tasks, tasks[i].task_id),
        spec_task_idx(tasks, tasks[i].task_id) == i,
        spec_the_task(tasks, tasks[i].task_id) == tasks[i],
{
    assert(spec_has_task(tasks, tasks[i].task_id));
    let j = spec_task_idx(tasks, tasks[i].task_id);
    assert(0 <= j < tasks.len() && tasks[j].task_id == tasks[i].task_id);
    if j < i {
        assert(tasks[j].task_id != tasks[i].task_id);
    } else if i < j {
        assert(tasks[i].task_id != tasks[j].task_id);
    }
}

/// The records an executor's state switch emits on its lane: nothing when
/// the state stays, else the closing End and the Begin naming the new
/// state.
pub open spec fn spec_exec_transition_events(
    e: ExecutorTracing,
    new_state: ExecutorState,
    ts: u64,
) -> Seq<TraceEventView> {
    if e.current_state == new_state {
        Seq::empty()
    } else {
        seq![
            TraceEventView::End {
                name: None,
                cat: None,
                pid: e.executor_id as u32,
                tid: Some(0),
                ts,
            },
            TraceEventView::Begin {
                name: spec_exec_state_name(new_state),
                cat: None,
                ts,
                pid: e.executor_id as u32,
                tid: Some(0),
            },
        ]
    }
}

/// A fresh task appended in the given state: the existing tasks keep their
/// slots and the newcomer belongs to this executor with empty monitor
/// stacks.
pub open spec fn spec_created_task(
    e0: ExecutorTracing,
    e1: ExecutorTracing,
    task_id: u16,
    st: TaskState,
    ts: u64,
) -> bool {
    &&& e1.tasks@.len() == e0.tasks@.len() + 1
    &&& forall|j: int| 0 <= j < e0.tasks@.len() ==> e1.tasks@[j] == e0.tasks@[j]
    &&& e1.tasks@.last().task_id == task_id
    &&& e1.tasks@.last().executor_id == e0.executor_id
    &&& e1.tasks@.last().state == st
    &&& e1.tasks@.last().state_start == ts
    &&& e1.tasks@.last().reawoken_while_running == false
    &&& e1.tasks@.last().current_monitors@.len() == 0
    &&& e1.tasks@.last().preempted_monitors@.len() == 0
}

/// The record closing a fresh task's lane when the trace is created (its
/// earlier life may have been lost).
pub open spec fn spec_task_open_event(executor_id: u8, task_id: u16, ts: u64) -> Seq<
    TraceEventView,
> {
    seq![
        TraceEventView::End {
            name: None,
            cat: None,
            pid: executor_id as u32,
            tid: Some(task_id as u32),
            ts,
        },
    ]
}

/// Everything a task-creation event does to an executor: a known task is
/// left alone; an unknown one is appended as Spawned, closing its lane.
pub open spec fn spec_spawn_rel(
    e0: ExecutorTracing,
    e1: ExecutorTracing,
    task_id: u16,
    ts: u64,
    out0: Seq<TraceEventView>,
    out1: Seq<TraceEventView>,
) -> bool {
    &&& e1.executor_id == e0.executor_id
    &&& e1.current_state == e0.current_state
    &&& (spec_has_task(e0.tasks@, task_id) ==> e1.tasks@ == e0.tasks@ && out1 == out0)
    &&& (!spec_has_task(e0.tasks@, task_id) ==> spec_created_task(
        e0,
        e1,
        task_id,
        TaskState::Spawned,
        ts,
    ) && out1 == out0 + spec_task_open_event(e0.executor_id, task_id, ts))
}

/// Everything a wakeup does to an executor. It is refused exactly when the
/// task is tracked in a state that cannot become ready; a known task takes
/// its ready step; an unknown task is created directly in Ready.
pub open spec fn spec_ready_rel(
    e0: ExecutorTracing,
    e1: ExecutorTracing,
    r: Result<(), TraceError>,
    task_id: u16,
    ts: u64,
    out0: Seq<TraceEventView>,
    out1: Seq<TraceEventView>,
) -> bool {
    &&& e1.executor_id == e0.executor_id
    &&& e1.current_state == e0.current_state
    &&& (r is Err <==> spec_has_task(e0.tasks@, task_id) && !spec_task_readyable(
        spec_the_task(e0.tasks@, task_id).state,
    ))
    &&& (r is Err ==> e1.tasks@ == e0.tasks@ && out1 == out0)
    &&& (r is Ok && spec_has_task(e0.tasks@, task_id) ==> e1.tasks@ == e0.tasks@.update(
        spec_task_idx(e0.tasks@, task_id),
        spec_after_ready(spec_the_task(e0.tasks@, task_id), ts),
    ) && out1 == out0 + (match spec_the_task(e0.tasks@, task_id).state {
        TaskState::Spawned | TaskState::Idle => spec_task_transition_events(
            spec_the_task(e0.tasks@, task_id),
            TaskState::Ready,
            ts,
        ),
        _ => Seq::<TraceEventView>::empty(),
    }))
    &&& (r is Ok && !spec_has_task(e0.tasks@, task_id) ==> spec_created_task(
        e0,
        e1,
        task_id,
        TaskState::Ready,
        ts,
    ) && out1 == out0 + spec_task_open_event(e0.executor_id, task_id, ts))
}

/// Everything a poll begin does to an executor. It is refused exactly when
/// some task already runs or the named task is tracked outside Ready; on
/// success the task runs (created Running if unknown) and the executor
/// polls it.
pub open spec fn spec_exec_begin_rel(
    e0: ExecutorTracing,
    e1: ExecutorTracing,
    r: Result<(), TraceError>,
    task_id: u16,
    ts: u64,
    out0: Seq<TraceEventView>,
    out1: Seq<TraceEventView>,
) -> bool {
    &&& e1.executor_id == e0.executor_id
    &&& (r is Err <==> spec_some_task_running(e0.tasks@) || (spec_has_task(e0.tasks@, task_id)
        && spec_the_task(e0.tasks@, task_id).state != TaskState::Ready))
    &&& (r is Err ==> e1.current_state == e0.current_state && e1.tasks@ == e0.tasks@ && out1
        == out0)
    &&& (r is Ok ==> e1.current_state == (ExecutorState::Polling { task_id }))
    &&& (r is Ok && spec_has_task(e0.tasks@, task_id) ==> e1.tasks@ == e0.tasks@.update(
        spec_task_idx(e0.tasks@, task_id),
        spec_after_exec_begin(spec_the_task(e0.tasks@, task_id), ts),
    ) && out1 == out0 + spec_task_transition_events(
        spec_the_task(e0.tasks@, task_id),
        TaskState::Running,
        ts,
    ) + spec_exec_transition_events(e0, ExecutorState::Polling { task_id }, ts))
    &&& (r is Ok && !spec_has_task(e0.tasks@, task_id) ==> spec_created_task(
        e0,
        e1,
        task_id,
        TaskState::Running,
        ts,
    ) && out1 == out0 + spec_task_open_event(e0.executor_id, task_id, ts)
        + spec_exec_transition_events(e0, ExecutorState::Polling { task_id }, ts))
}

/// Everything a poll end does to an executor. It is refused exactly when
/// the executor is not polling or its polled task is not Running; on
/// success the task takes its poll-end step and the executor schedules.
pub open spec fn spec_exec_end_rel(
    e0: ExecutorTracing,
    e1: ExecutorTracing,
    r: Result<(), TraceError>,
    ts: u64,
    out0: Seq<TraceEventView>,
    out1: Seq<TraceEventView>,
) -> bool {
    &&& e1.executor_id == e0.executor_id
    &&& (r is Err <==> match e0.current_state {
        ExecutorState::Polling { task_id } => !spec_has_task(e0.tasks@, task_id) || spec_the_task(
            e0.tasks@,
            task_id,
        ).state != TaskState::Running,
        _ => true,
    })
    &&& (r is Err ==> e1.current_state == e0.current_state && e1.tasks@ == e0.tasks@ && out1
        == out0)
    &&& (r is Ok ==> match e0.current_state {
        ExecutorState::Polling { task_id } => {
            let t0 = spec_the_task(e0.tasks@, task_id);
            &&& e1.current_state == ExecutorState::Scheduling
            &&& e1.tasks@ == e0.tasks@.update(
                spec_task_idx(e0.tasks@, task_id),
                spec_after_exec_end(t0, ts),
            )
            &&& out1 == out0 + spec_task_transition_events(
                t0,
                if t0.reawoken_while_running {
                    TaskState::Ready
                } else {
                    TaskState::Idle
                },
                ts,
            ) + spec_exec_transition_events(e0, ExecutorState::Scheduling, ts)
        },
        _ => false,
    })
}

/// Everything a task-end event does to an executor. An unknown task is
/// ignored; a known one can only end out of the executor's current poll,
/// with the polled task Running.
pub open spec fn spec_task_end_rel(
    e0: ExecutorTracing,
    e1: ExecutorTracing,
    r: Result<(), TraceError>,
    task_id: u16,
    ts: u64,
    out0: Seq<TraceEventView>,
    out1: Seq<TraceEventView>,
) -> bool {
    &&& e1.executor_id == e0.executor_id
    &&& e1.current_state == e0.current_state
    &&& (!spec_has_task(e0.tasks@, task_id) ==> r is Ok && e1.tasks@ == e0.tasks@ && out1 == out0)
    &&& (spec_has_task(e0.tasks@, task_id) ==> (r is Err <==> match e0.current_state {
        ExecutorState::Polling { task_id: p } => !spec_has_task(e0.tasks@, p) || spec_the_task(
            e0.tasks@,
            p,
        ).state != TaskState::Running,
        _ => true,
    }))
    &&& (r is Err ==> e1.tasks@ == e0.tasks@ && out1 == out0)
    &&& (spec_has_task(e0.tasks@, task_id) && r is Ok ==> match e0.current_state {
        ExecutorState::Polling { task_id: p } => e1.tasks@ == e0.tasks@.update(
            spec_task_idx(e0.tasks@, p),
            spec_after_end(spec_the_task(e0.tasks@, p), ts),
        ) && out1 == out0 + spec_task_transition_events(
            spec_the_task(e0.tasks@, p),
            TaskState::Ended,
            ts,
        ),
        _ => false,
    })
}

/// Everything preemption does to an executor. It is refused exactly when
/// the executor is neither scheduling nor polling; on success the old
/// state is recorded for resume and the Running task (if any) is preempted
/// with its monitors flushed.
pub open spec fn spec_preempt_rel(
    e0: ExecutorTracing,
    e1: ExecutorTracing,
    r: Result<(), TraceError>,
    by: u8,
    ts: u64,
    out0: Seq<TraceEventView>,
    out1: Seq<TraceEventView>,
) -> bool {
    &&& e1.executor_id == e0.executor_id
    &&& (r is Err <==> !spec_exec_is_running(e0.current_state))
    &&& (r is Err ==> e1.current_state == e0.current_state && e1.tasks@ == e0.tasks@ && out1
        == out0)
    &&& (r is Ok ==> e1.current_state == (ExecutorState::Preempted {
        by_executor_id: by,
        prev_state: spec_prev_of(e0.current_state),
    }))
    &&& (r is Ok && spec_some_task_running(e0.tasks@) ==> exists|i: int|
        0 <= i < e0.tasks@.len() && (#[trigger] e0.tasks@[i]).state == TaskState::Running
            && spec_preempted_step(e0.tasks@[i], e1.tasks@[i], by, ts) && e1.tasks@
            == e0.tasks@.update(i, e1.tasks@[i]) && out1 == out0 + spec_task_preempt_events(
            e0.tasks@[i],
            by,
            ts,
        ) + spec_exec_transition_events(
            e0,
            ExecutorState::Preempted { by_executor_id: by, prev_state: spec_prev_of(e0.current_state) },
            ts,
        ))
    &&& (r is Ok && !spec_some_task_running(e0.tasks@) ==> e1.tasks@ == e0.tasks@ && out1 == out0
        + spec_exec_transition_events(
        e0,
        ExecutorState::Preempted { by_executor_id: by, prev_state: spec_prev_of(e0.current_state) },
        ts,
    ))
}

/// Everything resuming does to an executor. It is refused exactly when the
/// executor is not preempted; on success exactly the recorded
/// pre-preemption state comes back, and a task left Preempted is resumed
/// to Running with its monitors reopened.
pub open spec fn spec_resume_rel(
    e0: ExecutorTracing,
    e1: ExecutorTracing,
    r: Result<(), TraceError>,
    ts: u64,
    out0: Seq<TraceEventView>,
    out1: Seq<TraceEventView>,
) -> bool {
    &&& e1.executor_id == e0.executor_id
    &&& (r is Err <==> !(e0.current_state matches ExecutorState::Preempted { .. }))
    &&& (r is Err ==> e1.current_state == e0.current_state && e1.tasks@ == e0.tasks@ && out1
        == out0)
    &&& (r is Ok ==> match e0.current_state {
        ExecutorState::Preempted { prev_state, .. } => e1.current_state == spec_prev_as_state(
            prev_state,
        ),
        _ => false,
    })
    &&& (r is Ok && spec_some_task_preempted(e0.tasks@) ==> exists|i: int|
        0 <= i < e0.tasks@.len() && ((#[trigger] e0.tasks@[i]).state matches TaskState::Preempted {
            ..
        }) && spec_resumed_step(e0.tasks@[i], e1.tasks@[i], ts) && e1.tasks@ == e0.tasks@.update(
            i,
            e1.tasks@[i],
        ) && out1 == out0 + spec_task_transition_events(e0.tasks@[i], TaskState::Running, ts)
            + spec_exec_transition_events(e0, spec_prev_as_state(spec_prev_rec(e0.current_state)), ts))
    &&& (r is Ok && !spec_some_task_preempted(e0.tasks@) ==> e1.tasks@ == e0.tasks@ && out1 == out0
        + spec_exec_transition_events(e0, spec_prev_as_state(spec_prev_rec(e0.current_state)), ts))
}

/// Everything a monitor start does to an executor: while polling, the span
/// goes onto the polled task's stack; otherwise nothing changes.
pub open spec fn spec_monitor_start_rel(
    e0: ExecutorTracing,
    e1: ExecutorTracing,
    name: Seq<char>,
    ts: u64,
) -> bool {
    &&& e1.executor_id == e0.executor_id
    &&& e1.current_state == e0.current_state
    &&& match e0.current_state {
        ExecutorState::Polling { task_id } => spec_has_task(e0.tasks@, task_id) ==> e1.tasks@
            == e0.tasks@.update(spec_task_idx(e0.tasks@, task_id), e1.tasks@[spec_task_idx(e0.tasks@, task_id)])
            && spec_monitor_pushed_step(
            spec_the_task(e0.tasks@, task_id),
            e1.tasks@[spec_task_idx(e0.tasks@, task_id)],
            name,
            ts,
        ),
        _ => e1.tasks@ == e0.tasks@,
    }
}

/// Everything a monitor end does to an executor: while polling, the polled
/// task's innermost span is popped and completed with its exact duration;
/// otherwise, or with no open span, nothing changes.
pub open spec fn spec_monitor_end_rel(
    e0: ExecutorTracing,
    e1: ExecutorTracing,
    ts: u64,
    out0: Seq<TraceEventView>,
    out1: Seq<TraceEventView>,
) -> bool {
    &&& e1.executor_id == e0.executor_id
    &&& e1.current_state == e0.current_state
    &&& match e0.current_state {
        ExecutorState::Polling { task_id } => spec_has_task(e0.tasks@, task_id) ==> {
            let t0 = spec_the_task(e0.tasks@, task_id);
            let stack = spec_monitor_stack(t0.current_monitors@);
            if stack.len() == 0 {
                &&& e1.tasks@ == e0.tasks@.update(
                    spec_task_idx(e0.tasks@, task_id),
                    e1.tasks@[spec_task_idx(e0.tasks@, task_id)],
                )
                &&& spec_monitor_pushed_like(t0, e1.tasks@[spec_task_idx(e0.tasks@, task_id)], stack)
                &&& out1 == out0
            } else {
                &&& e1.tasks@ == e0.tasks@.update(
                    spec_task_idx(e0.tasks@, task_id),
                    e1.tasks@[spec_task_idx(e0.tasks@, task_id)],
                )
                &&& spec_monitor_popped_step(t0, e1.tasks@[spec_task_idx(e0.tasks@, task_id)])
                &&& out1 == out0 + seq![
                    TraceEventView::Complete {
                        name: stack.last().0,
                        cat: Some("code_monitor"@),
                        pid: t0.executor_id as u32,
                        tid: t0.task_id as u32,
                        ts: stack.last().1,
                        dur: (ts - stack.last().1) as u64,
                    },
                ]
            }
        },
        _ => e1.tasks@ == e0.tasks@ && out1 == out0,
    }
}

/// A task unchanged in everything observable, its stack holding exactly
/// the given spans.
pub open spec fn spec_monitor_pushed_like(
    t0: TaskTracing,
    t1: TaskTracing,
    stack: Seq<(Seq<char>, u64)>,
) -> bool {
    &&& t1.state == t0.state
    &&& t1.state_start == t0.state_start
    &&& t1.executor_id == t0.executor_id
    &&& t1.task_id == t0.task_id
    &&& t1.reawoken_while_running == t0.reawoken_while_running
    &&& t1.preempted_monitors == t0.preempted_monitors
    &&& spec_monitor_stack(t1.current_monitors@) == stack
}

/// The state a preempted executor recorded; meaningful only in Preempted.
pub open spec fn spec_prev_rec(s: ExecutorState) -> PreemptedPrevState {
    match s {
        ExecutorState::Preempted { prev_state, .. } => prev_state,
        _ => PreemptedPrevState::Scheduling,
    }
}

/// The reconstructed trace of one executor.
pub struct ExecutorTracing {
    /// The executor's 3-bit short ID.
    pub executor_id: u8,
    /// The current state.
    pub current_state: ExecutorState,
    /// When the current state began, in microseconds.
    pub state_start: u64,
    /// The traces of this executor's tasks, one per task ID.
    pub tasks: Vec<TaskTracing>,
}

impl ExecutorTracing {
    /// Structural soundness: the short ID fits in 3 bits; tasks belong to
    /// this executor and carry pairwise distinct IDs; at most one task is
    /// Running; a polled task exists; a preempted executor runs no task.
    pub open spec fn wf(&self) -> bool {
        &&& self.executor_id < 8
        &&& spec_tasks_ok(self.tasks@, self.executor_id)
        &&& match self.current_state {
            ExecutorState::Polling { task_id } => spec_has_task(self.tasks@, task_id),
            ExecutorState::Preempted {
                prev_state: PreemptedPrevState::Polling { task_id },
                ..
            } => spec_has_task(self.tasks@, task_id),
            _ => true,
        }
        &&& (self.current_state matches ExecutorState::Preempted { .. } ==> forall|i: int|
            0 <= i < self.tasks@.len() ==> (#[trigger] self.tasks@[i]).state
                != TaskState::Running)
    }

    /// Every timestamp the executor remembers lies at or before `t`.
    pub open spec fn bounded_by(&self, t: u64) -> bool {
        &&& self.state_start <= t
        &&& forall|i: int| 0 <= i < self.tasks@.len() ==> (#[trigger] self.tasks@[i]).bounded_by(t)
    }

    /// A bound on the executor's timestamps extends to any later time.
    pub proof fn lemma_bounded_mono(&self, t1: u64, t2: u64)
        requires
            self.bounded_by(t1),
            t1 <= t2,
        ensures
            self.bounded_by(t2),
    {
        assert forall|i: int| 0 <= i < self.tasks@.len() implies (
        #[trigger] self.tasks@[i]).bounded_by(t2) by {
            self.tasks@[i].lemma_bounded_mono(t1, t2);
        }
    }

    /// The executor's short ID.
    pub fn executor_id(&self) -> (r: u8)
        ensures
            r == self.executor_id,
    {
        self.executor_id
    }

    /// Whether the executor currently occupies its core.
    pub fn is_running(&self) -> (r: bool)
        ensures
            r == spec_exec_is_running(self.current_state),
    {
        match self.current_state {
            ExecutorState::Scheduling => true,
            ExecutorState::Polling { .. } => true,
            _ => false,
        }
    }

    /// Whether this executor tracks the given task.
    pub fn has_task(&self, task_id: u16) -> (r: bool)
        ensures
            r == spec_has_task(self.tasks@, task_id),
    {
        match self.find_task_index(task_id) {
            Some(_) => true,
            None => false,
        }
    }

    /// Whether the executor is preempted by the given executor.
    pub fn is_preempted_by(&self, executor_id: u8) -> (r: bool)
        ensures
            r == (self.current_state matches ExecutorState::Preempted { by_executor_id, .. }
                && by_executor_id == executor_id),
    {
        match self.current_state {
            ExecutorState::Preempted { by_executor_id, .. } => by_executor_id == executor_id,
            _ => false,
        }
    }

    /// The index of the task with the given wire ID.
    fn find_task_index(&self, task_id: u16) -> (r: Option<usize>)
        ensures
            match r {
                Some(i) => i < self.tasks@.len() && self.tasks@[i as int].task_id == task_id,
                None => !spec_has_task(self.tasks@, task_id),
            },
    {
        let mut i: usize = 0;
        while i < self.tasks.len()
            invariant
                i <= self.tasks@.len(),
                forall|j: int| 0 <= j < i ==> #[trigger] self.tasks@[j].task_id != task_id,
            decreases self.tasks@.len() - i,
        {
            if self.tasks[i].task_id == task_id {
                return Some(i);
            }
            i = i + 1;
        }
        None
    }

    /// The index of the Running task, if one runs.
    fn find_running_index(&self) -> (r: Option<usize>)
        ensures
            match r {
                Some(i) => i < self.tasks@.len() && self.tasks@[i as int].state
                    == TaskState::Running,
                None => forall|j: int|
                    0 <= j < self.tasks@.len() ==> (#[trigger] self.tasks@[j]).state
                        != TaskState::Running,
            },
    {
        let mut i: usize = 0;
        while i < self.tasks.len()
            invariant
                i <= self.tasks@.len(),
                forall|j: int|
                    0 <= j < i ==> (#[trigger] self.tasks@[j]).state != TaskState::Running,
            decreases self.tasks@.len() - i,
        {
            match self.tasks[i].state {
                TaskState::Running => {
                    return Some(i);
                },
                _ => {},
            }
            i = i + 1;
        }
        None
    }

    /// The index of some Preempted task, if any is preempted.
    fn find_preempted_index(&self) -> (r: Option<usize>)
        ensures
            match r {
                Some(i) => i < self.tasks@.len() && self.tasks@[i as int].state
                    matches TaskState::Preempted { .. },
                None => forall|j: int|
                    0 <= j < self.tasks@.len() ==> !((#[trigger] self.tasks@[j]).state
                        matches TaskState::Preempted { .. }),
            },
    {
        let mut i: usize = 0;
        while i < self.tasks.len()
            invariant
                i <= self.tasks@.len(),
                forall|j: int|
                    0 <= j < i ==> !((#[trigger] self.tasks@[j]).state
                        matches TaskState::Preempted { .. }),
            decreases self.tasks@.len() - i,
        {
            match self.tasks[i].state {
                TaskState::Preempted { .. } => {
                    return Some(i);
                },
                _ => {},
            }
            i = i + 1;
        }
        None
    }

    /// Replacing one element leaves a remove-then-insert equal to an update.
    proof fn lemma_remove_insert(s: Seq<TaskTracing>, i: int, t: TaskTracing)
        requires
            0 <= i < s.len(),
        ensures
            s.remove(i).insert(i, t) =~= s.update(i, t),
    {
    }

    /// Create an executor trace first seen polling the given task (its
    /// earlier events may have been lost). Closes whatever state the lane
    /// was in, then records the task running.
    pub fn new_polling(executor_id: u8, state_start: u64, task_id: u16, out: &mut Vec<TracingEvent>) -> (r:
        ExecutorTracing)
        requires
            executor_id < 8,
        ensures
            r.executor_id == executor_id,
            r.current_state == (ExecutorState::Polling { task_id }),
            r.state_start == state_start,
            r.tasks@.len() == 1,
            r.tasks@[0].task_id == task_id,
            r.tasks@[0].state == TaskState::Running,
            r.wf(),
            r.bounded_by(state_start),
            spec_out(final(out)@) == spec_out(old(out)@) + seq![
                TraceEventView::End {
                    name: None,
                    cat: None,
                    pid: executor_id as u32,
                    tid: Some(0),
                    ts: state_start,
                },
                TraceEventView::End {
                    name: None,
                    cat: None,
                    pid: executor_id as u32,
                    tid: Some(task_id as u32),
                    ts: state_start,
                },
            ],
    {
        emit_end(out, executor_id as u32, Some(0), state_start);
        let task = TaskTracing::new_exec_begin(executor_id, task_id, state_start, out);
        let mut tasks: Vec<TaskTracing> = Vec::new();
        tasks.push(task);
        let e = ExecutorTracing {
            executor_id,
            current_state: ExecutorState::Polling { task_id },
            state_start,
            tasks,
        };
        proof {
            assert(e.tasks@[0].task_id == task_id);
            assert(spec_has_task(e.tasks@, task_id));
        }
        e
    }

    /// Switch states, closing the old lane span and opening one named after
    /// the new state. Staying in the same state emits nothing.
    fn transition_to(&mut self, new_state: ExecutorState, timestamp: u64, out: &mut Vec<TracingEvent>)
        ensures
            *final(self) == (ExecutorTracing {
                current_state: new_state,
                state_start: if old(self).current_state == new_state {
                    old(self).state_start
                } else {
                    timestamp
                },
                ..*old(self)
            }),
            spec_out(final(out)@) == spec_out(old(out)@) + if old(self).current_state == new_state {
                Seq::<TraceEventView>::empty()
            } else {
                seq![
                    TraceEventView::End {
                        name: None,
                        cat: None,
                        pid: old(self).executor_id as u32,
                        tid: Some(0),
                        ts: timestamp,
                    },
                    TraceEventView::Begin {
                        name: spec_exec_state_name(new_state),
                        cat: None,
                        ts: timestamp,
                        pid: old(self).executor_id as u32,
                        tid: Some(0),
                    },
                ]
            },
    {
        if self.current_state != new_state {
            let ghost out0 = out@;
            emit_end(out, self.executor_id as u32, Some(0), timestamp);
            let name = new_state.to_string();
            emit_begin(out, name, self.executor_id as u32, Some(0), timestamp);
            self.current_state = new_state;
            self.state_start = timestamp;
            proof {
                assert(spec_out(out@) =~= spec_out(out0) + seq![
                    TraceEventView::End {
                        name: None,
                        cat: None,
                        pid: old(self).executor_id as u32,
                        tid: Some(0),
                        ts: timestamp,
                    },
                    TraceEventView::Begin {
                        name: spec_exec_state_name(new_state),
                        cat: None,
                        ts: timestamp,
                        pid: old(self).executor_id as u32,
                        tid: Some(0),
                    },
                ]);
            }
        } else {
            assert(spec_out(out@) =~= spec_out(out@) + Seq::<TraceEventView>::empty());
        }
    }

    /// The stream lost events: the executor and all its tasks become
    /// desynchronized and every open monitor is flushed.
    pub fn on_desynchronize(&mut self, timestamp: u64, out: &mut Vec<TracingEvent>)
        requires
            old(self).wf(),
            old(self).bounded_by(timestamp),
        ensures
            final(self).wf(),
            final(self).bounded_by(timestamp),
            final(self).executor_id == old(self).executor_id,
            final(self).current_state == ExecutorState::StreamDesynchronized,
            final(self).tasks@.len() == old(self).tasks@.len(),
            forall|i: int|
                0 <= i < final(self).tasks@.len() ==> (#[trigger] final(self).tasks@[i]).state
                    == TaskState::StreamDesynchronized && final(self).tasks@[i].task_id == old(self).tasks@[i].task_id,
            spec_out(old(out)@).is_prefix_of(spec_out(final(out)@)),
    {
        self.transition_to(ExecutorState::StreamDesynchronized, timestamp, out);
        let mut i: usize = 0;
        let n = self.tasks.len();
        while i < n
            invariant
                n == self.tasks@.len(),
                i <= n,
                self.executor_id == old(self).executor_id,
                self.current_state == ExecutorState::StreamDesynchronized,
                self.state_start <= timestamp,
                forall|j: int|
                    0 <= j < n ==> (#[trigger] self.tasks@[j]).wf() && self.tasks@[j].executor_id
                        == self.executor_id && self.tasks@[j].task_id == old(self).tasks@[j].task_id
                        && self.tasks@[j].bounded_by(timestamp),
                forall|j: int|
                    0 <= j < i ==> (#[trigger] self.tasks@[j]).state
                        == TaskState::StreamDesynchronized,
                forall|i1: int, j1: int|
                    #![trigger self.tasks@[i1].task_id, self.tasks@[j1].task_id]
                    0 <= i1 < j1 < n ==> self.tasks@[i1].task_id != self.tasks@[j1].task_id,
                spec_out(old(out)@).is_prefix_of(spec_out(out@)),
            decreases n - i,
        {
            let ghost tasks_pre = self.tasks@;
            let ghost out_pre = out@;
            let mut t = self.tasks.remove(i);
            t.on_desynchronize(timestamp, out);
            self.tasks.insert(i, t);
            proof {
                Self::lemma_remove_insert(tasks_pre, i as int, t);
                assert(self.tasks@ =~= tasks_pre.update(i as int, t));
                assert(spec_out(out_pre).is_prefix_of(spec_out(out@)));
            }
            i = i + 1;
        }
    }

    /// A task creation event: record the task as Spawned if it is new,
    /// ignore it otherwise.
    pub fn on_task_new_spawned(&mut self, task_id: u16, timestamp: u64, out: &mut Vec<TracingEvent>) -> (r:
        Result<(), TraceError>)
        requires
            old(self).wf(),
            old(self).bounded_by(timestamp),
        ensures
            r is Ok,
            final(self).wf(),
            final(self).bounded_by(timestamp),
            final(self).executor_id == old(self).executor_id,
            final(self).current_state == old(self).current_state,
            spec_has_task(final(self).tasks@, task_id),
            spec_out(old(out)@).is_prefix_of(spec_out(final(out)@)),
            spec_spawn_rel(
                *old(self),
                *final(self),
                task_id,
                timestamp,
                spec_out(old(out)@),
                spec_out(final(out)@),
            ),
            spec_has_task(old(self).tasks@, task_id) ==> spec_same(*final(self), *old(self))
                && final(out)@ == old(out)@,
    {
        match self.find_task_index(task_id) {
            Some(i) => {
                assert(spec_has_task(self.tasks@, task_id));
                Ok(())
            },
            None => {
                let ghost tasks_pre = self.tasks@;
                let task = TaskTracing::new_spawned(self.executor_id, task_id, timestamp, out);
                self.tasks.push(task);
                proof {
                    assert(self.tasks@.last().task_id == task_id);
                    assert(forall|j: int|
                        0 <= j < tasks_pre.len() ==> self.tasks@[j] == tasks_pre[j]);
                    lemma_tasks_push_ok(tasks_pre, task, self.executor_id);
                    assert(spec_out(out@) =~= spec_out(old(out)@) + spec_task_open_event(
                        old(self).executor_id,
                        task_id,
                        timestamp,
                    ));
                    match self.current_state {
                        ExecutorState::Polling { task_id: pt } => {
                            lemma_has_task_push(tasks_pre, task, pt);
                        },
                        ExecutorState::Preempted {
                            prev_state: PreemptedPrevState::Polling { task_id: pt },
                            ..
                        } => {
                            lemma_has_task_push(tasks_pre, task, pt);
                        },
                        _ => {},
                    }
                }
                Ok(())
            },
        }
    }

    /// A task became ready. An unknown task is created directly in Ready.
    pub fn on_task_ready(&mut self, task_id: u16, timestamp: u64, out: &mut Vec<TracingEvent>) -> (r:
        Result<(), TraceError>)
        requires
            old(self).wf(),
            old(self).bounded_by(timestamp),
        ensures
            final(self).wf(),
            final(self).bounded_by(timestamp),
            final(self).executor_id == old(self).executor_id,
            final(self).current_state == old(self).current_state,
            spec_out(old(out)@).is_prefix_of(spec_out(final(out)@)),
            spec_ready_rel(
                *old(self),
                *final(self),
                r,
                task_id,
                timestamp,
                spec_out(old(out)@),
                spec_out(final(out)@),
            ),
            r is Err ==> spec_same(*final(self), *old(self)) && final(out)@ == old(out)@,
            r is Ok ==> spec_has_task(final(self).tasks@, task_id),
    {
        match self.find_task_index(task_id) {
            Some(i) => {
                let ghost tasks_pre = self.tasks@;
                proof {
                    lemma_task_idx_unique(tasks_pre, i as int);
                }
                let mut t = self.tasks.remove(i);
                let res = t.on_ready(timestamp, out);
                self.tasks.insert(i, t);
                proof {
                    Self::lemma_remove_insert(tasks_pre, i as int, t);
                    assert(self.tasks@ =~= tasks_pre.update(i as int, t));
                }
                match res {
                    Ok(_) => {
                        assert(self.tasks@[i as int].task_id == task_id);
                        proof {
                            assert(t == spec_after_ready(tasks_pre[i as int], timestamp));
                            match tasks_pre[i as int].state {
                                TaskState::Spawned | TaskState::Idle => {
                                    assert(spec_out(out@) =~= spec_out(old(out)@)
                                        + spec_task_transition_events(
                                        tasks_pre[i as int],
                                        TaskState::Ready,
                                        timestamp,
                                    ));
                                },
                                _ => {},
                            }
                            lemma_tasks_update_ok(tasks_pre, i as int, t, self.executor_id);
                    match self.current_state {
                        ExecutorState::Polling { task_id: pt } => {
                            lemma_has_task_preserved(tasks_pre, self.tasks@, pt);
                        },
                        ExecutorState::Preempted {
                            prev_state: PreemptedPrevState::Polling { task_id: pt },
                            ..
                        } => {
                            lemma_has_task_preserved(tasks_pre, self.tasks@, pt);
                        },
                        _ => {},
                    }
                            if old(self).current_state matches ExecutorState::Preempted { .. } {
                                assert forall|j: int|
                                    0 <= j < self.tasks@.len() implies (
                                #[trigger] self.tasks@[j]).state != TaskState::Running by {
                                    assert(tasks_pre[j].state != TaskState::Running);
                                    if j != i as int {
                                        assert(self.tasks@[j] == tasks_pre[j]);
                                    } else {
                                        assert(t.state != TaskState::Running);
                                    }
                                }
                            }
                        }
                        Ok(())
                    },
                    Err(e) => {
                        proof {
                            assert(self.tasks@ =~= tasks_pre);
                        }
                        Err(e)
                    },
                }
            },
            None => {
                let ghost tasks_pre = self.tasks@;
                let task = TaskTracing::new_ready(self.executor_id, task_id, timestamp, out);
                self.tasks.push(task);
                proof {
                    assert(self.tasks@.last().task_id == task_id);
                    assert(forall|j: int|
                        0 <= j < tasks_pre.len() ==> self.tasks@[j] == tasks_pre[j]);
                    lemma_tasks_push_ok(tasks_pre, task, self.executor_id);
                    assert(spec_out(out@) =~= spec_out(old(out)@) + spec_task_open_event(
                        old(self).executor_id,
                        task_id,
                        timestamp,
                    ));
                    match self.current_state {
                        ExecutorState::Polling { task_id: pt } => {
                            lemma_has_task_push(tasks_pre, task, pt);
                        },
                        ExecutorState::Preempted {
                            prev_state: PreemptedPrevState::Polling { task_id: pt },
                            ..
                        } => {
                            lemma_has_task_push(tasks_pre, task, pt);
                        },
                        _ => {},
                    }
                }
                Ok(())
            },
        }
    }

    /// A task's poll began: the task (created Running if unknown) starts
    /// running and the executor polls it. Refused while another task runs.
    pub fn on_task_exec_begin(&mut self, task_id: u16, timestamp: u64, out: &mut Vec<TracingEvent>) -> (r:
        Result<(), TraceError>)
        requires
            old(self).wf(),
            old(self).bounded_by(timestamp),
        ensures
            final(self).wf(),
            final(self).bounded_by(timestamp),
            final(self).executor_id == old(self).executor_id,
            spec_out(old(out)@).is_prefix_of(spec_out(final(out)@)),
            spec_exec_begin_rel(
                *old(self),
                *final(self),
                r,
                task_id,
                timestamp,
                spec_out(old(out)@),
                spec_out(final(out)@),
            ),
            r is Err ==> spec_same(*final(self), *old(self)) && final(out)@ == old(out)@,
            r is Ok ==> final(self).current_state == (ExecutorState::Polling { task_id }),
            r is Ok ==> exists|i: int|
                0 <= i < final(self).tasks@.len() && (#[trigger] final(self).tasks@[i]).task_id
                    == task_id && final(self).tasks@[i].state == TaskState::Running,
    {
        match self.find_running_index() {
            Some(i) => {
                let running_id = self.tasks[i].task_id;
                assert(spec_some_task_running(self.tasks@));
                return Err(TraceError::ExecutorBusy {
                    executor_id: self.executor_id,
                    task_id: running_id,
                });
            },
            None => {},
        }
        assert(!spec_some_task_running(self.tasks@));
        let ghost tasks_pre = self.tasks@;
        match self.find_task_index(task_id) {
            Some(i) => {
                proof {
                    lemma_task_idx_unique(tasks_pre, i as int);
                }
                let mut t = self.tasks.remove(i);
                let res = t.on_exec_begin(timestamp, out);
                self.tasks.insert(i, t);
                proof {
                    Self::lemma_remove_insert(tasks_pre, i as int, t);
                    assert(self.tasks@ =~= tasks_pre.update(i as int, t));
                }
                match res {
                    Ok(_) => {
                        assert(self.tasks@[i as int].task_id == task_id);
                        assert(spec_has_task(self.tasks@, task_id));
                        proof {
                            assert(t == spec_after_exec_begin(tasks_pre[i as int], timestamp));
                            lemma_tasks_update_ok(tasks_pre, i as int, t, self.executor_id);
                        }
                        let ghost out_mid = out@;
                        self.transition_to(ExecutorState::Polling { task_id }, timestamp, out);
                        proof {
                            crate::trace_event::lemma_prefix_trans(
                                spec_out(old(out)@),
                                spec_out(out_mid),
                                spec_out(out@),
                            );
                            assert(spec_out(out@) =~= spec_out(old(out)@)
                                + spec_task_transition_events(
                                tasks_pre[i as int],
                                TaskState::Running,
                                timestamp,
                            ) + spec_exec_transition_events(
                                *old(self),
                                ExecutorState::Polling { task_id },
                                timestamp,
                            ));
                        }
                        Ok(())
                    },
                    Err(e) => {
                        proof {
                            assert(self.tasks@ =~= tasks_pre);
                        }
                        Err(e)
                    },
                }
            },
            None => {
                let task = TaskTracing::new_exec_begin(self.executor_id, task_id, timestamp, out);
                self.tasks.push(task);
                proof {
                    assert(self.tasks@.last().task_id == task_id);
                    assert(forall|j: int|
                        0 <= j < tasks_pre.len() ==> self.tasks@[j] == tasks_pre[j]);
                    lemma_tasks_push_ok(tasks_pre, task, self.executor_id);
                }
                assert(spec_has_task(self.tasks@, task_id));
                let ghost out_mid = out@;
                self.transition_to(ExecutorState::Polling { task_id }, timestamp, out);
                proof {
                    crate::trace_event::lemma_prefix_trans(
                        spec_out(old(out)@),
                        spec_out(out_mid),
                        spec_out(out@),
                    );
                    assert(spec_out(out@) =~= spec_out(old(out)@) + spec_task_open_event(
                        old(self).executor_id,
                        task_id,
                        timestamp,
                    ) + spec_exec_transition_events(
                        *old(self),
                        ExecutorState::Polling { task_id },
                        timestamp,
                    ));
                }
                Ok(())
            },
        }
    }

    /// The polled task's poll ended: the task leaves Running and the
    /// executor goes back to Scheduling. Refused outside Polling.
    pub fn on_task_exec_end(&mut self, timestamp: u64, out: &mut Vec<TracingEvent>) -> (r: Result<
        (),
        TraceError,
    >)
        requires
            old(self).wf(),
            old(self).bounded_by(timestamp),
        ensures
            final(self).wf(),
            final(self).bounded_by(timestamp),
            final(self).executor_id == old(self).executor_id,
            spec_out(old(out)@).is_prefix_of(spec_out(final(out)@)),
            spec_exec_end_rel(
                *old(self),
                *final(self),
                r,
                timestamp,
                spec_out(old(out)@),
                spec_out(final(out)@),
            ),
            r is Err ==> spec_same(*final(self), *old(self)) && final(out)@ == old(out)@,
            r is Ok ==> (old(self).current_state matches ExecutorState::Polling { .. }) && final(self).current_state == ExecutorState::Scheduling,
    {
        let task_id = match self.current_state {
            ExecutorState::Polling { task_id } => task_id,
            _ => {
                return Err(TraceError::ExecutorNotPolling { executor_id: self.executor_id });
            },
        };
        let ghost tasks_pre = self.tasks@;
        match self.find_task_index(task_id) {
            Some(i) => {
                proof {
                    lemma_task_idx_unique(tasks_pre, i as int);
                }
                let mut t = self.tasks.remove(i);
                let res = t.on_exec_end(timestamp, out);
                self.tasks.insert(i, t);
                proof {
                    Self::lemma_remove_insert(tasks_pre, i as int, t);
                    assert(self.tasks@ =~= tasks_pre.update(i as int, t));
                }
                match res {
                    Ok(_) => {
                        proof {
                            assert(t == spec_after_exec_end(tasks_pre[i as int], timestamp));
                            lemma_tasks_update_ok(tasks_pre, i as int, t, self.executor_id);
                        }
                        let ghost out_mid = out@;
                        self.transition_to(ExecutorState::Scheduling, timestamp, out);
                        proof {
                            crate::trace_event::lemma_prefix_trans(
                                spec_out(old(out)@),
                                spec_out(out_mid),
                                spec_out(out@),
                            );
                            assert(spec_out(out@) =~= spec_out(old(out)@)
                                + spec_task_transition_events(
                                tasks_pre[i as int],
                                if tasks_pre[i as int].reawoken_while_running {
                                    TaskState::Ready
                                } else {
                                    TaskState::Idle
                                },
                                timestamp,
                            ) + spec_exec_transition_events(
                                *old(self),
                                ExecutorState::Scheduling,
                                timestamp,
                            ));
                        }
                        Ok(())
                    },
                    Err(e) => {
                        proof {
                            assert(self.tasks@ =~= tasks_pre);
                        }
                        Err(e)
                    },
                }
            },
            None => {
                proof {
                    assert(false);
                }
                Err(TraceError::ExecutorNotPolling { executor_id: self.executor_id })
            },
        }
    }

    /// A higher-priority executor displaced this one: the running task (if
    /// any) is preempted with it, and the pre-preemption state is recorded
    /// so resume can restore it exactly. Refused unless the executor is
    /// scheduling or polling.
    pub fn on_preempted(&mut self, timestamp: u64, by_executor_id: u8, out: &mut Vec<TracingEvent>) -> (r:
        Result<(), TraceError>)
        requires
            old(self).wf(),
            old(self).bounded_by(timestamp),
        ensures
            final(self).wf(),
            final(self).bounded_by(timestamp),
            final(self).executor_id == old(self).executor_id,
            spec_out(old(out)@).is_prefix_of(spec_out(final(out)@)),
            spec_preempt_rel(
                *old(self),
                *final(self),
                r,
                by_executor_id,
                timestamp,
                spec_out(old(out)@),
                spec_out(final(out)@),
            ),
            r is Err ==> spec_same(*final(self), *old(self)) && final(out)@ == old(out)@
                && !spec_exec_is_running(old(self).current_state),
            r is Ok ==> spec_exec_is_running(old(self).current_state) && final(self).current_state
                == (ExecutorState::Preempted {
                by_executor_id,
                prev_state: spec_prev_of(old(self).current_state),
            }),
    {
        let prev_state = match self.current_state {
            ExecutorState::Scheduling => PreemptedPrevState::Scheduling,
            ExecutorState::Polling { task_id } => PreemptedPrevState::Polling { task_id },
            _ => {
                return Err(
                    TraceError::ExecutorNotRunningOnPreempt { executor_id: self.executor_id },
                );
            },
        };
        let ghost tasks_pre = self.tasks@;
        let ghost running_idx: int = 0;
        match self.find_running_index() {
            Some(i) => {
                proof {
                    running_idx = i as int;
                    assert(spec_some_task_running(tasks_pre));
                }
                let mut t = self.tasks.remove(i);
                let res = t.on_preempted(timestamp, by_executor_id, out);
                assert(res is Ok);
                self.tasks.insert(i, t);
                proof {
                    Self::lemma_remove_insert(tasks_pre, i as int, t);
                    assert(self.tasks@ =~= tasks_pre.update(i as int, t));
                    assert(spec_preempted_step(tasks_pre[i as int], t, by_executor_id, timestamp));
                    assert(spec_out(out@) =~= spec_out(old(out)@) + spec_task_preempt_events(
                        tasks_pre[i as int],
                        by_executor_id,
                        timestamp,
                    ));
                    lemma_tasks_update_ok(tasks_pre, i as int, t, self.executor_id);
                    assert forall|j: int|
                        0 <= j < self.tasks@.len() implies (#[trigger] self.tasks@[j]).state
                        != TaskState::Running by {
                        if j == i as int {
                            assert(t.state matches TaskState::Preempted { .. });
                        } else {
                            assert(self.tasks@[j] == tasks_pre[j]);
                            if j < i as int {
                                assert(!(tasks_pre[j].state == TaskState::Running
                                    && tasks_pre[i as int].state == TaskState::Running));
                            } else {
                                assert(!(tasks_pre[i as int].state == TaskState::Running
                                    && tasks_pre[j].state == TaskState::Running));
                            }
                        }
                    }
                }
            },
            None => {
                proof {
                    assert(!spec_some_task_running(tasks_pre));
                }
            },
        }
        proof {
            match prev_state {
                PreemptedPrevState::Polling { task_id } => {
                    lemma_has_task_preserved(tasks_pre, self.tasks@, task_id);
                },
                _ => {},
            }
        }
        let ghost out_mid = out@;
        self.transition_to(
            ExecutorState::Preempted { by_executor_id, prev_state },
            timestamp,
            out,
        );
        proof {
            crate::trace_event::lemma_prefix_trans(
                spec_out(old(out)@),
                spec_out(out_mid),
                spec_out(out@),
            );
            assert(prev_state == spec_prev_of(old(self).current_state));
            if spec_some_task_running(tasks_pre) {
                let i = running_idx;
                assert(spec_out(out@) =~= spec_out(old(out)@) + spec_task_preempt_events(
                    tasks_pre[i],
                    by_executor_id,
                    timestamp,
                ) + spec_exec_transition_events(
                    *old(self),
                    ExecutorState::Preempted { by_executor_id, prev_state },
                    timestamp,
                ));
            } else {
                assert(spec_out(out@) =~= spec_out(old(out)@) + spec_exec_transition_events(
                    *old(self),
                    ExecutorState::Preempted { by_executor_id, prev_state },
                    timestamp,
                ));
            }
        }
        Ok(())
    }

    /// The preempting executor went idle: restore exactly the state the
    /// executor was preempted in, and resume its preempted task (if any).
    /// Refused unless the executor is preempted.
    pub fn on_resume(&mut self, timestamp: u64, out: &mut Vec<TracingEvent>) -> (r: Result<
        (),
        TraceError,
    >)
        requires
            old(self).wf(),
            old(self).bounded_by(timestamp),
        ensures
            final(self).wf(),
            final(self).bounded_by(timestamp),
            final(self).executor_id == old(self).executor_id,
            spec_out(old(out)@).is_prefix_of(spec_out(final(out)@)),
            spec_resume_rel(
                *old(self),
                *final(self),
                r,
                timestamp,
                spec_out(old(out)@),
                spec_out(final(out)@),
            ),
            r is Err ==> spec_same(*final(self), *old(self)) && final(out)@ == old(out)@ && !(old(
                self,
            ).current_state matches ExecutorState::Preempted { .. }),
            r is Ok ==> match old(self).current_state {
                ExecutorState::Preempted { prev_state, .. } => final(self).current_state
                    == spec_prev_as_state(prev_state),
                _ => false,
            },
    {
        let prev_state = match self.current_state {
            ExecutorState::Preempted { prev_state, .. } => prev_state,
            _ => {
                return Err(TraceError::ExecutorNotPreempted { executor_id: self.executor_id });
            },
        };
        let ghost tasks_pre = self.tasks@;
        let ghost preempted_idx: int = 0;
        match self.find_preempted_index() {
            Some(i) => {
                proof {
                    preempted_idx = i as int;
                    assert(spec_some_task_preempted(tasks_pre));
                }
                let mut t = self.tasks.remove(i);
                let res = t.on_resumed(timestamp, out);
                assert(res is Ok);
                self.tasks.insert(i, t);
                proof {
                    Self::lemma_remove_insert(tasks_pre, i as int, t);
                    assert(self.tasks@ =~= tasks_pre.update(i as int, t));
                    assert(spec_resumed_step(tasks_pre[i as int], t, timestamp));
                    assert(spec_out(out@) =~= spec_out(old(out)@) + spec_task_transition_events(
                        tasks_pre[i as int],
                        TaskState::Running,
                        timestamp,
                    ));
                    assert forall|j: int|
                        0 <= j < tasks_pre.len() implies (#[trigger] tasks_pre[j]).state
                        != TaskState::Running by {}
                    lemma_tasks_update_ok(tasks_pre, i as int, t, self.executor_id);
                }
            },
            None => {
                proof {
                    assert(!spec_some_task_preempted(tasks_pre));
                }
            },
        }
        let ghost out_mid = out@;
        match prev_state {
            PreemptedPrevState::Scheduling => {
                self.transition_to(ExecutorState::Scheduling, timestamp, out);
            },
            PreemptedPrevState::Polling { task_id } => {
                proof {
                    lemma_has_task_preserved(tasks_pre, self.tasks@, task_id);
                }
                assert(spec_has_task(self.tasks@, task_id));
                self.transition_to(ExecutorState::Polling { task_id }, timestamp, out);
            },
        }
        proof {
            crate::trace_event::lemma_prefix_trans(
                spec_out(old(out)@),
                spec_out(out_mid),
                spec_out(out@),
            );
            assert(prev_state == spec_prev_rec(old(self).current_state));
            if spec_some_task_preempted(tasks_pre) {
                let i = preempted_idx;
                assert(spec_out(out@) =~= spec_out(old(out)@) + spec_task_transition_events(
                    tasks_pre[i],
                    TaskState::Running,
                    timestamp,
                ) + spec_exec_transition_events(
                    *old(self),
                    spec_prev_as_state(prev_state),
                    timestamp,
                ));
            } else {
                assert(spec_out(out@) =~= spec_out(old(out)@) + spec_exec_transition_events(
                    *old(self),
                    spec_prev_as_state(prev_state),
                    timestamp,
                ));
            }
        }
        Ok(())
    }

    /// A task ended for good. Unknown tasks are ignored; a known task can
    /// only end out of the executor's current poll.
    pub fn on_task_end(&mut self, timestamp: u64, task_id: u16, out: &mut Vec<TracingEvent>) -> (r:
        Result<(), TraceError>)
        requires
            old(self).wf(),
            old(self).bounded_by(timestamp),
        ensures
            final(self).wf(),
            final(self).bounded_by(timestamp),
            final(self).executor_id == old(self).executor_id,
            final(self).current_state == old(self).current_state,
            spec_out(old(out)@).is_prefix_of(spec_out(final(out)@)),
            spec_task_end_rel(
                *old(self),
                *final(self),
                r,
                task_id,
                timestamp,
                spec_out(old(out)@),
                spec_out(final(out)@),
            ),
            r is Err ==> spec_same(*final(self), *old(self)) && final(out)@ == old(out)@,
            !spec_has_task(old(self).tasks@, task_id) ==> r is Ok && spec_same(
                *final(self),
                *old(self),
            ) && final(out)@ == old(out)@,
    {
        match self.find_task_index(task_id) {
            None => {
                return Ok(());
            },
            Some(_) => {},
        }
        assert(spec_has_task(self.tasks@, task_id));
        let polled_id = match self.current_state {
            ExecutorState::Polling { task_id } => task_id,
            _ => {
                return Err(TraceError::ExecutorNotPolling { executor_id: self.executor_id });
            },
        };
        let ghost tasks_pre = self.tasks@;
        match self.find_task_index(polled_id) {
            Some(i) => {
                proof {
                    lemma_task_idx_unique(tasks_pre, i as int);
                }
                let mut t = self.tasks.remove(i);
                let res = t.on_end(timestamp, out);
                self.tasks.insert(i, t);
                proof {
                    Self::lemma_remove_insert(tasks_pre, i as int, t);
                    assert(self.tasks@ =~= tasks_pre.update(i as int, t));
                }
                match res {
                    Ok(_) => {
                        proof {
                            assert(t == spec_after_end(tasks_pre[i as int], timestamp));
                            assert(spec_out(out@) =~= spec_out(old(out)@)
                                + spec_task_transition_events(
                                tasks_pre[i as int],
                                TaskState::Ended,
                                timestamp,
                            ));
                            lemma_tasks_update_ok(tasks_pre, i as int, t, self.executor_id);
                    match self.current_state {
                        ExecutorState::Polling { task_id: pt } => {
                            lemma_has_task_preserved(tasks_pre, self.tasks@, pt);
                        },
                        ExecutorState::Preempted {
                            prev_state: PreemptedPrevState::Polling { task_id: pt },
                            ..
                        } => {
                            lemma_has_task_preserved(tasks_pre, self.tasks@, pt);
                        },
                        _ => {},
                    }
                        }
                        Ok(())
                    },
                    Err(e) => {
                        proof {
                            assert(self.tasks@ =~= tasks_pre);
                        }
                        Err(e)
                    },
                }
            },
            None => {
                proof {
                    assert(false);
                }
                Err(TraceError::ExecutorNotPolling { executor_id: self.executor_id })
            },
        }
    }

    /// The executor started polling tasks: it is Scheduling.
    pub fn on_poll_start(&mut self, timestamp: u64, out: &mut Vec<TracingEvent>) -> (r: Result<
        (),
        TraceError,
    >)
        requires
            old(self).wf(),
            old(self).bounded_by(timestamp),
        ensures
            r is Ok,
            final(self).wf(),
            final(self).bounded_by(timestamp),
            spec_out(old(out)@).is_prefix_of(spec_out(final(out)@)),
            *final(self) == (ExecutorTracing {
                current_state: ExecutorState::Scheduling,
                state_start: if old(self).current_state == ExecutorState::Scheduling {
                    old(self).state_start
                } else {
                    timestamp
                },
                ..*old(self)
            }),
            spec_out(final(out)@) == spec_out(old(out)@) + spec_exec_transition_events(
                *old(self),
                ExecutorState::Scheduling,
                timestamp,
            ),
    {
        self.transition_to(ExecutorState::Scheduling, timestamp, out);
        Ok(())
    }

    /// The executor ran out of tasks: it is Idle.
    pub fn on_idle(&mut self, timestamp: u64, out: &mut Vec<TracingEvent>) -> (r: Result<
        (),
        TraceError,
    >)
        requires
            old(self).wf(),
            old(self).bounded_by(timestamp),
        ensures
            r is Ok,
            final(self).wf(),
            final(self).bounded_by(timestamp),
            *final(self) == (ExecutorTracing {
                current_state: ExecutorState::Idle,
                state_start: if old(self).current_state == ExecutorState::Idle {
                    old(self).state_start
                } else {
                    timestamp
                },
                ..*old(self)
            }),
            spec_out(old(out)@).is_prefix_of(spec_out(final(out)@)),
            spec_out(final(out)@) == spec_out(old(out)@) + spec_exec_transition_events(
                *old(self),
                ExecutorState::Idle,
                timestamp,
            ),
    {
        self.transition_to(ExecutorState::Idle, timestamp, out);
        proof {
            assert(spec_out(old(out)@).is_prefix_of(spec_out(out@)));
        }
        Ok(())
    }

    /// A code monitor opened while this executor polls a task: the monitor
    /// is scoped to that task.
    pub fn on_monitor_start(&mut self, name: String, timestamp: u64)
        requires
            old(self).wf(),
            old(self).bounded_by(timestamp),
        ensures
            final(self).wf(),
            final(self).bounded_by(timestamp),
            final(self).executor_id == old(self).executor_id,
            final(self).current_state == old(self).current_state,
            spec_monitor_start_rel(*old(self), *final(self), name@, timestamp),
    {
        let task_id = match self.current_state {
            ExecutorState::Polling { task_id } => task_id,
            _ => {
                return ;
            },
        };
        let ghost tasks_pre = self.tasks@;
        match self.find_task_index(task_id) {
            Some(i) => {
                proof {
                    lemma_task_idx_unique(tasks_pre, i as int);
                }
                let mut t = self.tasks.remove(i);
                t.on_monitor_start(name, timestamp);
                self.tasks.insert(i, t);
                proof {
                    Self::lemma_remove_insert(tasks_pre, i as int, t);
                    assert(self.tasks@ =~= tasks_pre.update(i as int, t));
                    assert(self.tasks@[i as int].task_id == task_id);
                    lemma_tasks_update_ok(tasks_pre, i as int, t, self.executor_id);
                    match self.current_state {
                        ExecutorState::Polling { task_id: pt } => {
                            lemma_has_task_preserved(tasks_pre, self.tasks@, pt);
                        },
                        ExecutorState::Preempted {
                            prev_state: PreemptedPrevState::Polling { task_id: pt },
                            ..
                        } => {
                            lemma_has_task_preserved(tasks_pre, self.tasks@, pt);
                        },
                        _ => {},
                    }
                    if old(self).current_state matches ExecutorState::Preempted { .. } {
                        assert forall|j: int|
                            0 <= j < self.tasks@.len() implies (#[trigger] self.tasks@[j]).state
                            != TaskState::Running by {
                            assert(tasks_pre[j].state != TaskState::Running);
                            if j != i as int {
                                assert(self.tasks@[j] == tasks_pre[j]);
                            } else {
                                assert(t.state == tasks_pre[j].state);
                            }
                        }
                    }
                }
            },
            None => {
                proof {
                    assert(false);
                }
            },
        }
    }

    /// The innermost monitor in the polled task's context closed.
    pub fn on_monitor_end(&mut self, timestamp: u64, out: &mut Vec<TracingEvent>)
        requires
            old(self).wf(),
            old(self).bounded_by(timestamp),
        ensures
            final(self).wf(),
            final(self).bounded_by(timestamp),
            final(self).executor_id == old(self).executor_id,
            final(self).current_state == old(self).current_state,
            spec_out(old(out)@).is_prefix_of(spec_out(final(out)@)),
            spec_monitor_end_rel(
                *old(self),
                *final(self),
                timestamp,
                spec_out(old(out)@),
                spec_out(final(out)@),
            ),
    {
        let task_id = match self.current_state {
            ExecutorState::Polling { task_id } => task_id,
            _ => {
                proof {
                    assert(spec_out(out@).is_prefix_of(spec_out(out@)));
                }
                return ;
            },
        };
        let ghost tasks_pre = self.tasks@;
        match self.find_task_index(task_id) {
            Some(i) => {
                proof {
                    lemma_task_idx_unique(tasks_pre, i as int);
                }
                let mut t = self.tasks.remove(i);
                t.on_monitor_end(timestamp, out);
                self.tasks.insert(i, t);
                proof {
                    Self::lemma_remove_insert(tasks_pre, i as int, t);
                    assert(self.tasks@ =~= tasks_pre.update(i as int, t));
                    assert(spec_out(old(out)@).is_prefix_of(spec_out(out@)));
                    lemma_tasks_update_ok(tasks_pre, i as int, t, self.executor_id);
                    match self.current_state {
                        ExecutorState::Polling { task_id: pt } => {
                            lemma_has_task_preserved(tasks_pre, self.tasks@, pt);
                        },
                        ExecutorState::Preempted {
                            prev_state: PreemptedPrevState::Polling { task_id: pt },
                            ..
                        } => {
                            lemma_has_task_preserved(tasks_pre, self.tasks@, pt);
                        },
                        _ => {},
                    }
                    if old(self).current_state matches ExecutorState::Preempted { .. } {
                        assert forall|j: int|
                            0 <= j < self.tasks@.len() implies (#[trigger] self.tasks@[j]).state
                            != TaskState::Running by {
                            assert(tasks_pre[j].state != TaskState::Running);
                            if j != i as int {
                                assert(self.tasks@[j] == tasks_pre[j]);
                            } else {
                                assert(t.state == tasks_pre[j].state);
                            }
                        }
                    }
                }
            },
            None => {
                proof {
                    assert(false);
                }
            },
        }
    }

    /// Engine teardown: every task closes and the executor's lane closes.
    pub fn on_drop(&mut self, timestamp: u64, out: &mut Vec<TracingEvent>)
        requires
            old(self).wf(),
            old(self).bounded_by(timestamp),
        ensures
            final(self).wf(),
            final(self).bounded_by(timestamp),
            final(self).executor_id == old(self).executor_id,
            final(self).current_state == old(self).current_state,
            spec_out(old(out)@).is_prefix_of(spec_out(final(out)@)),
            final(self).tasks@.len() == old(self).tasks@.len(),
            forall|j: int|
                0 <= j < old(self).tasks@.len() ==> (#[trigger] final(self).tasks@[j]).task_id
                    == old(self).tasks@[j].task_id && final(self).tasks@[j].state == old(self).tasks@[j].state
                    && final(self).tasks@[j].current_monitors@.len() == 0,
    {
        let mut i: usize = 0;
        let n = self.tasks.len();
        while i < n
            invariant
                n == self.tasks@.len(),
                i <= n,
                self.executor_id == old(self).executor_id,
                self.current_state == old(self).current_state,
                self.state_start == old(self).state_start,
                self.state_start <= timestamp,
                forall|j: int|
                    0 <= j < n ==> (#[trigger] self.tasks@[j]).wf() && self.tasks@[j].executor_id
                        == self.executor_id && self.tasks@[j].task_id == old(self).tasks@[j].task_id
                        && self.tasks@[j].state == old(self).tasks@[j].state && self.tasks@[
                        j].bounded_by(timestamp),
                forall|i1: int, j1: int|
                    #![trigger self.tasks@[i1].task_id, self.tasks@[j1].task_id]
                    0 <= i1 < j1 < n ==> self.tasks@[i1].task_id != self.tasks@[j1].task_id,
                forall|i1: int, j1: int|
                    #![trigger self.tasks@[i1].state, self.tasks@[j1].state]
                    0 <= i1 < j1 < n ==> !(self.tasks@[i1].state == TaskState::Running
                        && self.tasks@[j1].state == TaskState::Running),
                forall|j: int|
                    0 <= j < i ==> (#[trigger] self.tasks@[j]).current_monitors@.len() == 0,
                spec_out(old(out)@).is_prefix_of(spec_out(out@)),
            decreases n - i,
        {
            let ghost tasks_pre = self.tasks@;
            let ghost out_pre = out@;
            let mut t = self.tasks.remove(i);
            t.on_drop(timestamp, out);
            self.tasks.insert(i, t);
            proof {
                Self::lemma_remove_insert(tasks_pre, i as int, t);
                assert(self.tasks@ =~= tasks_pre.update(i as int, t));
                assert(spec_out(out_pre).is_prefix_of(spec_out(out@)));
            }
            i = i + 1;
        }
        let ghost out_pre2 = out@;
        emit_end(out, self.executor_id as u32, Some(0), timestamp);
        proof {
            assert(spec_out(old(out)@).is_prefix_of(spec_out(out@)));
            match self.current_state {
                ExecutorState::Polling { task_id: pt } => {
                    lemma_has_task_preserved(old(self).tasks@, self.tasks@, pt);
                },
                ExecutorState::Preempted {
                    prev_state: PreemptedPrevState::Polling { task_id: pt },
                    ..
                } => {
                    lemma_has_task_preserved(old(self).tasks@, self.tasks@, pt);
                },
                _ => {},
            }
        }
    }
}

} // verus!
