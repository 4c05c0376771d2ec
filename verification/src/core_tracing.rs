//! The per-core container of the reconstruction engine.
//!
//! A core owns the executors that have been seen running on it, a stack of
//! code monitors opened outside any executor context (interrupt handlers),
//! and the names of core-level monitors truncated by preemption. The core
//! infers executor preemption: when an executor starts on a core where
//! another is scheduling or polling, the running one is preempted first, so
//! at any instant at most one executor per core is scheduling or polling.

use vstd::prelude::*;
use vstd::seq_lib::*;
use vstd::string::StringExecFns;

use crate::errors::TraceError;
use crate::executor::{
    spec_exec_begin_rel, spec_exec_end_rel, spec_exec_is_running, spec_exec_transition_events,
    spec_has_task, spec_monitor_end_rel, spec_monitor_start_rel, spec_prev_as_state, spec_prev_of,
    spec_prev_rec, spec_ready_rel, spec_some_task_running, spec_spawn_rel, spec_task_end_rel,
    spec_the_task, ExecutorState, ExecutorTracing, PreemptedPrevState,
};
use crate::strfmt::{dec_string, spec_dec_chars};
use crate::task::{spec_flush_events, spec_monitor_stack, spec_names, TaskState};
use crate::trace_event::{
    emit_begin, emit_end, emit_end_named, emit_monitor_complete, spec_out, TraceEventView,
    TracingEvent, CORE_OVERVIEW_PID,
};

verus! {

broadcast use crate::trace_event::lemma_prefix_of_concat, crate::trace_event::lemma_prefix_refl;

/// The core-overview lane label of an executor.
pub open spec fn spec_executor_label(executor_id: u8) -> Seq<char> {
    "Executor "@ + spec_dec_chars(executor_id as nat)
}

/// Render the core-overview lane label of an executor.
fn executor_label(executor_id: u8) -> (r: String)
    ensures
        r@ == spec_executor_label(executor_id),
{
    let mut s = String::from_str("Executor ");
    let id = dec_string(executor_id as u64);
    s.append(id.as_str());
    s
}

/// The index of the executor carrying the given short ID; meaningful only
/// when some executor carries it.
pub open spec fn spec_exec_idx(execs: Seq<ExecutorTracing>, executor_id: u8) -> int {
    choose|i: int| 0 <= i < execs.len() && #[trigger] execs[i].executor_id == executor_id
}

/// Whether some executor carries the given short ID.
pub open spec fn spec_some_exec_with_id(execs: Seq<ExecutorTracing>, executor_id: u8) -> bool {
    exists|i: int| 0 <= i < execs.len() && #[trigger] execs[i].executor_id == executor_id
}

/// The tracked executor carrying the given short ID.
pub open spec fn spec_the_exec(execs: Seq<ExecutorTracing>, executor_id: u8) -> ExecutorTracing {
    execs[spec_exec_idx(execs, executor_id)]
}

/// Whether some executor other than the named one is scheduling or polling.
pub open spec fn spec_some_running_other(execs: Seq<ExecutorTracing>, executor_id: u8) -> bool {
    exists|i: int|
        0 <= i < execs.len() && spec_exec_is_running((#[trigger] execs[i]).current_state)
            && execs[i].executor_id != executor_id
}

/// Whether some executor is scheduling or polling.
pub open spec fn spec_some_exec_running(execs: Seq<ExecutorTracing>) -> bool {
    exists|i: int|
        0 <= i < execs.len() && spec_exec_is_running((#[trigger] execs[i]).current_state)
}

/// The index of the running executor; meaningful only when one runs.
pub open spec fn spec_running_idx(execs: Seq<ExecutorTracing>) -> int {
    choose|i: int|
        0 <= i < execs.len() && spec_exec_is_running((#[trigger] execs[i]).current_state)
}

/// With pairwise distinct short IDs, an executor's slot is the one
/// `spec_exec_idx` names.
pub proof fn lemma_exec_idx_unique(execs: Seq<ExecutorTracing>, i: int)
    requires
        forall|a: int, b: int|
            #![trigger execs[a].executor_id, execs[b].executor_id]
            0 <= a < b < execs.len() ==> execs[a].executor_id != execs[b].executor_id,
        0 <= i < execs.len(),
    ensures
        spec_some_exec_with_id(execs, execs[i].executor_id),
        spec_exec_idx(execs, execs[i].executor_id) == i,
        spec_the_exec(execs, execs[i].executor_id) == execs[i],
{
    assert(spec_some_exec_with_id(execs, execs[i].executor_id));
    let j = spec_exec_idx(execs, execs[i].executor_id);
    assert(0 <= j < execs.len() && execs[j].executor_id == execs[i].executor_id);
    if j < i {
        assert(execs[j].executor_id != execs[i].executor_id);
    } else if i < j {
        assert(execs[i].executor_id != execs[j].executor_id);
    }
}

/// With at most one executor scheduling or polling, the running slot is the
/// one `spec_running_idx` names.
pub proof fn lemma_running_idx_unique(execs: Seq<ExecutorTracing>, i: int)
    requires
        forall|a: int, b: int|
            #![trigger execs[a].current_state, execs[b].current_state]
            0 <= a < b < execs.len() ==> !(spec_exec_is_running(execs[a].current_state)
                && spec_exec_is_running(execs[b].current_state)),
        0 <= i < execs.len(),
        spec_exec_is_running(execs[i].current_state),
    ensures
        spec_some_exec_running(execs),
        spec_running_idx(execs) == i,
{
    assert(spec_some_exec_running(execs));
    let j = spec_running_idx(execs);
    assert(0 <= j < execs.len() && spec_exec_is_running(execs[j].current_state));
    if j < i {
        assert(!(spec_exec_is_running(execs[j].current_state) && spec_exec_is_running(
            execs[i].current_state,
        )));
    } else if i < j {
        assert(!(spec_exec_is_running(execs[i].current_state) && spec_exec_is_running(
            execs[j].current_state,
        )));
    }
}

/// Whether some executor tracks the given task.
pub open spec fn spec_some_exec_has_task(execs: Seq<ExecutorTracing>, task_id: u16) -> bool {
    exists|i: int| 0 <= i < execs.len() && spec_has_task((#[trigger] execs[i]).tasks@, task_id)
}

/// The reconstructed trace of one physical core.
pub struct CoreTracing {
    /// Which core this is (0 or 1).
    pub core_id: u8,
    /// The executors attributed to this core, one per short ID.
    pub executors: Vec<ExecutorTracing>,
    /// Code monitors opened outside any executor context: name and open
    /// timestamp, outermost first.
    pub monitor_stack: Vec<(String, u64)>,
    /// Names of core-level monitors truncated by preemption, to reopen when
    /// the preempted executor resumes.
    pub preempted_monitors: Vec<String>,
}

impl CoreTracing {
    /// Structural soundness: executors are sound, carry pairwise distinct
    /// short IDs, and at most one of them is scheduling or polling at any
    /// instant.
    pub open spec fn wf(&self) -> bool {
        &&& self.core_id < 2
        &&& forall|i: int| 0 <= i < self.executors@.len() ==> (#[trigger] self.executors@[i]).wf()
        &&& forall|i: int, j: int|
            #![trigger self.executors@[i].executor_id, self.executors@[j].executor_id]
            0 <= i < j < self.executors@.len() ==> self.executors@[i].executor_id
                != self.executors@[j].executor_id
        &&& forall|i: int, j: int|
            #![trigger self.executors@[i].current_state, self.executors@[j].current_state]
            0 <= i < j < self.executors@.len() ==> !(spec_exec_is_running(
                self.executors@[i].current_state,
            ) && spec_exec_is_running(self.executors@[j].current_state))
    }

    /// Every timestamp the core remembers lies at or before `t`.
    pub open spec fn bounded_by(&self, t: u64) -> bool {
        &&& forall|i: int|
            0 <= i < self.executors@.len() ==> (#[trigger] self.executors@[i]).bounded_by(t)
        &&& forall|i: int|
            0 <= i < self.monitor_stack@.len() ==> #[trigger] self.monitor_stack@[i].1 <= t
    }

    /// A bound on the core's timestamps extends to any later time.
    pub proof fn lemma_bounded_mono(&self, t1: u64, t2: u64)
        requires
            self.bounded_by(t1),
            t1 <= t2,
        ensures
            self.bounded_by(t2),
    {
        assert forall|i: int| 0 <= i < self.executors@.len() implies (
        #[trigger] self.executors@[i]).bounded_by(t2) by {
            self.executors@[i].lemma_bounded_mono(t1, t2);
        }
    }

    /// The core's lane tid on the overview process: core 0 is thread 1,
    /// core 1 is thread 2.
    pub open spec fn spec_tid(&self) -> u32 {
        (self.core_id + 1) as u32
    }

    /// A fresh core trace with no executors and no open monitors.
    pub fn new(core_id: u8) -> (r: CoreTracing)
        requires
            core_id < 2,
        ensures
            r.core_id == core_id,
            r.executors@.len() == 0,
            r.monitor_stack@.len() == 0,
            r.preempted_monitors@.len() == 0,
            r.wf(),
            forall|t: u64| r.bounded_by(t),
    {
        CoreTracing {
            core_id,
            executors: Vec::new(),
            monitor_stack: Vec::new(),
            preempted_monitors: Vec::new(),
        }
    }

    /// The index of the executor with the given short ID.
    fn find_executor_index(&self, executor_id: u8) -> (r: Option<usize>)
        ensures
            match r {
                Some(i) => i < self.executors@.len() && self.executors@[i as int].executor_id
                    == executor_id,
                None => forall|j: int|
                    0 <= j < self.executors@.len() ==> (#[trigger] self.executors@[j]).executor_id
                        != executor_id,
            },
    {
        let mut i: usize = 0;
        while i < self.executors.len()
            invariant
                i <= self.executors@.len(),
                forall|j: int|
                    0 <= j < i ==> (#[trigger] self.executors@[j]).executor_id != executor_id,
            decreases self.executors@.len() - i,
        {
            if self.executors[i].executor_id == executor_id {
                return Some(i);
            }
            i = i + 1;
        }
        None
    }

    /// The index of an executor that is scheduling or polling and does not
    /// carry the given short ID.
    fn find_running_other(&self, executor_id: u8) -> (r: Option<usize>)
        ensures
            match r {
                Some(i) => i < self.executors@.len() && spec_exec_is_running(
                    self.executors@[i as int].current_state,
                ) && self.executors@[i as int].executor_id != executor_id,
                None => forall|j: int|
                    0 <= j < self.executors@.len() ==> !(spec_exec_is_running(
                        (#[trigger] self.executors@[j]).current_state,
                    ) && self.executors@[j].executor_id != executor_id),
            },
    {
        let mut i: usize = 0;
        while i < self.executors.len()
            invariant
                i <= self.executors@.len(),
                forall|j: int|
                    0 <= j < i ==> !(spec_exec_is_running(
                        (#[trigger] self.executors@[j]).current_state,
                    ) && self.executors@[j].executor_id != executor_id),
            decreases self.executors@.len() - i,
        {
            if self.executors[i].is_running() && self.executors[i].executor_id() != executor_id {
                return Some(i);
            }
            i = i + 1;
        }
        None
    }

    /// The index of an executor that is scheduling or polling.
    fn find_running_index(&self) -> (r: Option<usize>)
        ensures
            match r {
                Some(i) => i < self.executors@.len() && spec_exec_is_running(
                    self.executors@[i as int].current_state,
                ),
                None => forall|j: int|
                    0 <= j < self.executors@.len() ==> !spec_exec_is_running(
                        (#[trigger] self.executors@[j]).current_state,
                    ),
            },
    {
        let mut i: usize = 0;
        while i < self.executors.len()
            invariant
                i <= self.executors@.len(),
                forall|j: int|
                    0 <= j < i ==> !spec_exec_is_running(
                        (#[trigger] self.executors@[j]).current_state,
                    ),
            decreases self.executors@.len() - i,
        {
            if self.executors[i].is_running() {
                return Some(i);
            }
            i = i + 1;
        }
        None
    }

    /// The index of an executor preempted by the given short ID.
    fn find_preempted_by(&self, executor_id: u8) -> (r: Option<usize>)
        ensures
            match r {
                Some(i) => i < self.executors@.len() && (self.executors@[i as int].current_state
                    matches ExecutorState::Preempted { by_executor_id, .. } && by_executor_id
                    == executor_id),
                None => forall|j: int|
                    0 <= j < self.executors@.len() ==> !((#[trigger] self.executors@[j]).current_state
                        matches ExecutorState::Preempted { by_executor_id, .. } && by_executor_id
                        == executor_id),
            },
    {
        let mut i: usize = 0;
        while i < self.executors.len()
            invariant
                i <= self.executors@.len(),
                forall|j: int|
                    0 <= j < i ==> !((#[trigger] self.executors@[j]).current_state
                        matches ExecutorState::Preempted { by_executor_id, .. } && by_executor_id
                        == executor_id),
            decreases self.executors@.len() - i,
        {
            if self.executors[i].is_preempted_by(executor_id) {
                return Some(i);
            }
            i = i + 1;
        }
        None
    }

    /// Replacing one element leaves a remove-then-insert equal to an update.
    proof fn lemma_remove_insert(s: Seq<ExecutorTracing>, i: int, t: ExecutorTracing)
        requires
            0 <= i < s.len(),
        ensures
            s.remove(i).insert(i, t) =~= s.update(i, t),
    {
    }

    /// Updating one executor preserves the core's structural clauses, as
    /// long as a replacement that now runs either already ran or runs on an
    /// otherwise quiet core.
    proof fn lemma_executors_update_ok(&self, pre: Seq<ExecutorTracing>, i: int, t: ExecutorTracing)
        requires
            0 <= i < pre.len(),
            self.executors@ == pre.update(i, t),
            forall|j: int| 0 <= j < pre.len() ==> (#[trigger] pre[j]).wf(),
            forall|a: int, b: int|
                #![trigger pre[a].executor_id, pre[b].executor_id]
                0 <= a < b < pre.len() ==> pre[a].executor_id != pre[b].executor_id,
            forall|a: int, b: int|
                #![trigger pre[a].current_state, pre[b].current_state]
                0 <= a < b < pre.len() ==> !(spec_exec_is_running(pre[a].current_state)
                    && spec_exec_is_running(pre[b].current_state)),
            t.wf(),
            t.executor_id == pre[i].executor_id,
            spec_exec_is_running(t.current_state) ==> spec_exec_is_running(pre[i].current_state)
                || forall|j: int|
                0 <= j < pre.len() ==> !spec_exec_is_running((#[trigger] pre[j]).current_state),
            self.core_id < 2,
        ensures
            self.wf(),
    {
        let u = self.executors@;
        assert forall|a: int, b: int|
            #![trigger u[a].current_state, u[b].current_state]
            0 <= a < b < u.len() implies !(spec_exec_is_running(u[a].current_state)
            && spec_exec_is_running(u[b].current_state)) by {
            if a != i && b != i {
                assert(u[a] == pre[a] && u[b] == pre[b]);
            } else if spec_exec_is_running(t.current_state) {
                let other = if a == i {
                    b
                } else {
                    a
                };
                assert(u[other] == pre[other]);
                if spec_exec_is_running(pre[i].current_state) {
                    if other < i {
                        assert(!(spec_exec_is_running(pre[other].current_state)
                            && spec_exec_is_running(pre[i].current_state)));
                    } else {
                        assert(!(spec_exec_is_running(pre[i].current_state)
                            && spec_exec_is_running(pre[other].current_state)));
                    }
                } else {
                    assert(!spec_exec_is_running(pre[other].current_state));
                }
            }
        }
    }

    /// Executor exclusivity: on a sound core, at most one executor is
    /// scheduling or polling at any instant; every handler of this type
    /// keeps the core sound, so the property holds at every point of the
    /// reconstruction.
    pub proof fn lemma_executor_exclusivity(&self, i: int, j: int)
        requires
            self.wf(),
            0 <= i < self.executors@.len(),
            0 <= j < self.executors@.len(),
            spec_exec_is_running(self.executors@[i].current_state),
            spec_exec_is_running(self.executors@[j].current_state),
        ensures
            i == j,
    {
        if i < j {
            assert(!(spec_exec_is_running(self.executors@[i].current_state)
                && spec_exec_is_running(self.executors@[j].current_state)));
        } else if j < i {
            assert(!(spec_exec_is_running(self.executors@[j].current_state)
                && spec_exec_is_running(self.executors@[i].current_state)));
        }
    }

    /// Task and executor identity: on a sound core, an (executor short ID,
    /// task ID) pair picks out exactly one task trace. Replaying any valid
    /// wire sequence keeps the core sound, so each pair identifies one task
    /// throughout.
    pub proof fn lemma_task_identity_unique(&self, e1: int, t1: int, e2: int, t2: int)
        requires
            self.wf(),
            0 <= e1 < self.executors@.len(),
            0 <= t1 < self.executors@[e1].tasks@.len(),
            0 <= e2 < self.executors@.len(),
            0 <= t2 < self.executors@[e2].tasks@.len(),
            self.executors@[e1].executor_id == self.executors@[e2].executor_id,
            self.executors@[e1].tasks@[t1].task_id == self.executors@[e2].tasks@[t2].task_id,
        ensures
            e1 == e2,
            t1 == t2,
    {
        if e1 != e2 {
            if e1 < e2 {
                assert(self.executors@[e1].executor_id != self.executors@[e2].executor_id);
            } else {
                assert(self.executors@[e2].executor_id != self.executors@[e1].executor_id);
            }
        }
        assert(e1 == e2);
        let tasks = self.executors@[e1].tasks@;
        if t1 != t2 {
            assert(self.executors@[e1].wf());
            if t1 < t2 {
                assert(tasks[t1].task_id != tasks[t2].task_id);
            } else {
                assert(tasks[t2].task_id != tasks[t1].task_id);
            }
        }
    }

    /// A code monitor opened on this core. It is scoped to the task the
    /// running executor polls, or to the bare core when no executor runs.
    pub fn monitor_start(&mut self, name: String, timestamp: u64)
        requires
            old(self).wf(),
            old(self).bounded_by(timestamp),
        ensures
            final(self).wf(),
            final(self).bounded_by(timestamp),
            final(self).core_id == old(self).core_id,
            final(self).preempted_monitors == old(self).preempted_monitors,
            spec_some_exec_running(old(self).executors@) ==> ({
                let ri = spec_running_idx(old(self).executors@);
                &&& final(self).executors@ == old(self).executors@.update(
                    ri,
                    final(self).executors@[ri],
                )
                &&& spec_monitor_start_rel(
                    old(self).executors@[ri],
                    final(self).executors@[ri],
                    name@,
                    timestamp,
                )
                &&& final(self).monitor_stack@ == old(self).monitor_stack@
            }),
            !spec_some_exec_running(old(self).executors@) ==> final(self).executors@ == old(self).executors@
                && spec_monitor_stack(final(self).monitor_stack@) == spec_monitor_stack(
                old(self).monitor_stack@,
            ).push((name@, timestamp)),
    {
        match self.find_running_index() {
            Some(i) => {
                let ghost pre = self.executors@;
                proof {
                    lemma_running_idx_unique(pre, i as int);
                }
                let mut e = self.executors.remove(i);
                e.on_monitor_start(name, timestamp);
                self.executors.insert(i, e);
                proof {
                    Self::lemma_remove_insert(pre, i as int, e);
                    assert(self.executors@ =~= pre.update(i as int, e));
                    self.lemma_executors_update_ok(pre, i as int, e);
                }
            },
            None => {
                assert(!spec_some_exec_running(self.executors@));
                let ghost stack_pre = self.monitor_stack@;
                let ghost name_view = name@;
                self.monitor_stack.push((name, timestamp));
                proof {
                    assert(forall|j: int|
                        0 <= j < stack_pre.len() ==> self.monitor_stack@[j] == stack_pre[j]);
                    assert(spec_monitor_stack(self.monitor_stack@) =~= spec_monitor_stack(
                        stack_pre,
                    ).push((name_view, timestamp)));
                }
            },
        }
    }

    /// The innermost open code monitor on this core closed. It closes in
    /// the running executor's context, or on the bare core: then the span
    /// completes with exactly the time between open and close.
    pub fn monitor_end(&mut self, timestamp: u64, out: &mut Vec<TracingEvent>)
        requires
            old(self).wf(),
            old(self).bounded_by(timestamp),
        ensures
            final(self).wf(),
            final(self).bounded_by(timestamp),
            final(self).core_id == old(self).core_id,
            spec_out(old(out)@).is_prefix_of(spec_out(final(out)@)),
            final(self).preempted_monitors == old(self).preempted_monitors,
            spec_some_exec_running(old(self).executors@) ==> ({
                let ri = spec_running_idx(old(self).executors@);
                &&& final(self).executors@ == old(self).executors@.update(
                    ri,
                    final(self).executors@[ri],
                )
                &&& spec_monitor_end_rel(
                    old(self).executors@[ri],
                    final(self).executors@[ri],
                    timestamp,
                    spec_out(old(out)@),
                    spec_out(final(out)@),
                )
                &&& final(self).monitor_stack@ == old(self).monitor_stack@
            }),
            !spec_some_exec_running(old(self).executors@) ==> final(self).executors@ == old(self).executors@
                && ({
                let stack = spec_monitor_stack(old(self).monitor_stack@);
                if stack.len() == 0 {
                    final(self).monitor_stack@ == old(self).monitor_stack@ && final(out)@ == old(
                        out,
                    )@
                } else {
                    spec_monitor_stack(final(self).monitor_stack@) == stack.drop_last()
                        && spec_out(final(out)@) == spec_out(old(out)@) + seq![
                        TraceEventView::Complete {
                            name: stack.last().0,
                            cat: Some("code_monitor"@),
                            pid: CORE_OVERVIEW_PID,
                            tid: old(self).spec_tid(),
                            ts: stack.last().1,
                            dur: (timestamp - stack.last().1) as u64,
                        },
                    ]
                }
            }),
    {
        match self.find_running_index() {
            Some(i) => {
                let ghost pre = self.executors@;
                proof {
                    lemma_running_idx_unique(pre, i as int);
                }
                let mut e = self.executors.remove(i);
                e.on_monitor_end(timestamp, out);
                self.executors.insert(i, e);
                proof {
                    Self::lemma_remove_insert(pre, i as int, e);
                    assert(self.executors@ =~= pre.update(i as int, e));
                    self.lemma_executors_update_ok(pre, i as int, e);
                    assert(spec_out(old(out)@).is_prefix_of(spec_out(out@)));
                }
            },
            None => {
                assert(!spec_some_exec_running(self.executors@));
                let ghost stack = spec_monitor_stack(self.monitor_stack@);
                match self.monitor_stack.pop() {
                    Some((name, start_timestamp)) => {
                        assert(name@ == stack.last().0 && start_timestamp == stack.last().1);
                        assert(spec_monitor_stack(self.monitor_stack@) =~= stack.drop_last());
                        assert(old(self).monitor_stack@.last().1 <= timestamp);
                        emit_monitor_complete(
                            out,
                            name,
                            CORE_OVERVIEW_PID,
                            self.core_id as u32 + 1,
                            start_timestamp,
                            timestamp - start_timestamp,
                        );
                        proof {
                            assert(spec_out(old(out)@).is_prefix_of(spec_out(out@)));
                        }
                    },
                    None => {
                        proof {
                            assert(spec_out(out@).is_prefix_of(spec_out(out@)));
                        }
                    },
                }
            },
        }
    }

    /// A task creation event for an executor on this core; unknown
    /// executors are ignored (a creation carries no core attribution, so it
    /// cannot open a new executor trace here).
    pub fn on_task_new_spawned(&mut self, executor_id: u8, task_id: u16, timestamp: u64, out: &mut Vec<TracingEvent>) -> (r: Result<(), TraceError>)
        requires
            old(self).wf(),
            old(self).bounded_by(timestamp),
        ensures
            r is Ok,
            final(self).wf(),
            final(self).bounded_by(timestamp),
            final(self).core_id == old(self).core_id,
            spec_out(old(out)@).is_prefix_of(spec_out(final(out)@)),
            final(self).monitor_stack@ == old(self).monitor_stack@,
            final(self).preempted_monitors == old(self).preempted_monitors,
            !spec_some_exec_with_id(old(self).executors@, executor_id) ==> final(self).executors@
                == old(self).executors@ && final(out)@ == old(out)@,
            spec_some_exec_with_id(old(self).executors@, executor_id) ==> ({
                let ei = spec_exec_idx(old(self).executors@, executor_id);
                &&& final(self).executors@ == old(self).executors@.update(
                    ei,
                    final(self).executors@[ei],
                )
                &&& spec_spawn_rel(
                    old(self).executors@[ei],
                    final(self).executors@[ei],
                    task_id,
                    timestamp,
                    spec_out(old(out)@),
                    spec_out(final(out)@),
                )
            }),
            forall|j: int|
                0 <= j < old(self).executors@.len() && (#[trigger] old(self).executors@[j]).executor_id
                    == executor_id ==> spec_has_task(final(self).executors@[j].tasks@, task_id),
    {
        match self.find_executor_index(executor_id) {
            Some(i) => {
                let ghost pre = self.executors@;
                proof {
                    lemma_exec_idx_unique(pre, i as int);
                }
                let mut e = self.executors.remove(i);
                let res = e.on_task_new_spawned(task_id, timestamp, out);
                self.executors.insert(i, e);
                proof {
                    Self::lemma_remove_insert(pre, i as int, e);
                    assert(self.executors@ =~= pre.update(i as int, e));
                    self.lemma_executors_update_ok(pre, i as int, e);
                    assert(spec_out(old(out)@).is_prefix_of(spec_out(out@)));
                    assert forall|j: int|
                        0 <= j < pre.len() && (#[trigger] pre[j]).executor_id == executor_id
                        implies spec_has_task(self.executors@[j].tasks@, task_id) by {
                        if j != i as int {
                            assert(pre[j].executor_id == pre[i as int].executor_id);
                        }
                    }
                }
                Ok(())
            },
            None => {
                proof {
                    assert(spec_out(out@).is_prefix_of(spec_out(out@)));
                }
                Ok(())
            },
        }
    }

    /// A ready event for a task of an executor on this core; unknown
    /// executors are ignored.
    pub fn on_task_ready(&mut self, executor_id: u8, task_id: u16, timestamp: u64, out: &mut Vec<TracingEvent>) -> (r: Result<(), TraceError>)
        requires
            old(self).wf(),
            old(self).bounded_by(timestamp),
        ensures
            final(self).wf(),
            final(self).bounded_by(timestamp),
            final(self).core_id == old(self).core_id,
            spec_out(old(out)@).is_prefix_of(spec_out(final(out)@)),
            final(self).monitor_stack@ == old(self).monitor_stack@,
            final(self).preempted_monitors == old(self).preempted_monitors,
            !spec_some_exec_with_id(old(self).executors@, executor_id) ==> r is Ok && final(self).executors@
                == old(self).executors@ && final(out)@ == old(out)@,
            spec_some_exec_with_id(old(self).executors@, executor_id) ==> ({
                let ei = spec_exec_idx(old(self).executors@, executor_id);
                &&& final(self).executors@ == old(self).executors@.update(
                    ei,
                    final(self).executors@[ei],
                )
                &&& spec_ready_rel(
                    old(self).executors@[ei],
                    final(self).executors@[ei],
                    r,
                    task_id,
                    timestamp,
                    spec_out(old(out)@),
                    spec_out(final(out)@),
                )
            }),
    {
        match self.find_executor_index(executor_id) {
            Some(i) => {
                let ghost pre = self.executors@;
                proof {
                    lemma_exec_idx_unique(pre, i as int);
                }
                let mut e = self.executors.remove(i);
                let res = e.on_task_ready(task_id, timestamp, out);
                self.executors.insert(i, e);
                proof {
                    Self::lemma_remove_insert(pre, i as int, e);
                    assert(self.executors@ =~= pre.update(i as int, e));
                    self.lemma_executors_update_ok(pre, i as int, e);
                    assert(spec_out(old(out)@).is_prefix_of(spec_out(out@)));
                }
                match res {
                    Ok(_) => Ok(()),
                    Err(e) => Err(e),
                }
            },
            None => {
                proof {
                    assert(spec_out(out@).is_prefix_of(spec_out(out@)));
                }
                Ok(())
            },
        }
    }

    /// A task became ready, named only by its task ID (wakeups carry no
    /// executor): the event goes to whichever executor on this core tracks
    /// the task, and is ignored when none does.
    pub fn on_task_ready_task(&mut self, task_id: u16, timestamp: u64, out: &mut Vec<TracingEvent>) -> (r: Result<(), TraceError>)
        requires
            old(self).wf(),
            old(self).bounded_by(timestamp),
        ensures
            final(self).wf(),
            final(self).bounded_by(timestamp),
            final(self).core_id == old(self).core_id,
            spec_out(old(out)@).is_prefix_of(spec_out(final(out)@)),
            final(self).monitor_stack@ == old(self).monitor_stack@,
            final(self).preempted_monitors == old(self).preempted_monitors,
            !spec_some_exec_has_task(old(self).executors@, task_id) ==> r is Ok && final(self).executors@
                == old(self).executors@ && final(out)@ == old(out)@,
            spec_some_exec_has_task(old(self).executors@, task_id) ==> exists|i: int|
                {
                    &&& 0 <= i < old(self).executors@.len()
                    &&& spec_has_task((#[trigger] old(self).executors@[i]).tasks@, task_id)
                    &&& forall|j: int|
                        0 <= j < i ==> !spec_has_task(
                            (#[trigger] old(self).executors@[j]).tasks@,
                            task_id,
                        )
                    &&& final(self).executors@ == old(self).executors@.update(
                        i,
                        final(self).executors@[i],
                    )
                    &&& spec_ready_rel(
                        old(self).executors@[i],
                        final(self).executors@[i],
                        r,
                        task_id,
                        timestamp,
                        spec_out(old(out)@),
                        spec_out(final(out)@),
                    )
                },
    {
        let mut i: usize = 0;
        let n = self.executors.len();
        while i < n
            invariant
                n == self.executors@.len(),
                i <= n,
                self.wf(),
                self.bounded_by(timestamp),
                self.core_id == old(self).core_id,
                self.executors@ == old(self).executors@,
                self.monitor_stack@ == old(self).monitor_stack@,
                self.preempted_monitors == old(self).preempted_monitors,
                out@ == old(out)@,
                forall|j: int|
                    0 <= j < i ==> !spec_has_task(
                        (#[trigger] old(self).executors@[j]).tasks@,
                        task_id,
                    ),
            decreases n - i,
        {
            if self.executors[i].has_task(task_id) {
                let ghost pre = self.executors@;
                let mut e = self.executors.remove(i);
                let res = e.on_task_ready(task_id, timestamp, out);
                self.executors.insert(i, e);
                proof {
                    Self::lemma_remove_insert(pre, i as int, e);
                    assert(self.executors@ =~= pre.update(i as int, e));
                    self.lemma_executors_update_ok(pre, i as int, e);
                    assert(spec_out(old(out)@).is_prefix_of(spec_out(out@)));
                    assert(spec_has_task(old(self).executors@[i as int].tasks@, task_id));
                }
                return match res {
                    Ok(_) => Ok(()),
                    Err(err) => Err(err),
                };
            }
            i = i + 1;
        }
        proof {
            assert(spec_out(out@).is_prefix_of(spec_out(out@)));
            assert(!spec_some_exec_has_task(old(self).executors@, task_id));
        }
        Ok(())
    }

    /// A poll of a task began on this core. If another executor is
    /// scheduling or polling here it is preempted first, with the core's
    /// bare monitors flushed and remembered; an unknown executor opens a
    /// fresh trace already polling the task.
    pub fn on_task_exec_begin(&mut self, executor_id: u8, task_id: u16, timestamp: u64, out: &mut Vec<TracingEvent>) -> (r: Result<(), TraceError>)
        requires
            old(self).wf(),
            old(self).bounded_by(timestamp),
            executor_id < 8,
        ensures
            final(self).wf(),
            final(self).bounded_by(timestamp),
            final(self).core_id == old(self).core_id,
            spec_out(old(out)@).is_prefix_of(spec_out(final(out)@)),
            r is Ok ==> exists|i: int|
                0 <= i < final(self).executors@.len() && (#[trigger] final(self).executors@[i]).executor_id
                    == executor_id && final(self).executors@[i].current_state
                    == (ExecutorState::Polling { task_id }) && spec_has_task(
                    final(self).executors@[i].tasks@,
                    task_id,
                ) && spec_the_task(final(self).executors@[i].tasks@, task_id).state
                    == TaskState::Running,
            r is Err <==> spec_some_exec_with_id(old(self).executors@, executor_id) && ({
                let e0 = spec_the_exec(old(self).executors@, executor_id);
                spec_some_task_running(e0.tasks@) || (spec_has_task(e0.tasks@, task_id)
                    && spec_the_task(e0.tasks@, task_id).state != TaskState::Ready)
            }),
            !spec_some_exec_with_id(old(self).executors@, executor_id) ==> final(self).executors@.len()
                == old(self).executors@.len() + 1 && final(self).executors@.last().executor_id
                == executor_id && final(self).executors@.last().current_state
                == (ExecutorState::Polling { task_id }) && final(self).executors@.last().tasks@.len()
                == 1 && final(self).executors@.last().tasks@[0].task_id == task_id && final(self).executors@.last().tasks@[0].state
                == TaskState::Running,
            forall|j: int|
                0 <= j < old(self).executors@.len() ==> ((#[trigger] final(self).executors@[j]).executor_id
                    == old(self).executors@[j].executor_id && (final(self).executors@[j].current_state
                    == old(self).executors@[j].current_state || old(self).executors@[j].executor_id
                    == executor_id || (spec_exec_is_running(old(self).executors@[j].current_state)
                    && final(self).executors@[j].current_state == (ExecutorState::Preempted {
                    by_executor_id: executor_id,
                    prev_state: spec_prev_of(old(self).executors@[j].current_state),
                })))),
    {
        let ghost pre0 = self.executors@;
        self.preempt_running_other(executor_id, timestamp, out);
        let ghost mid = self.executors@;
        match self.find_executor_index(executor_id) {
            Some(i) => {
                proof {
                    lemma_exec_idx_unique(mid, i as int);
                    assert(pre0[i as int].executor_id == executor_id);
                    lemma_exec_idx_unique(pre0, i as int);
                    assert(mid[i as int] == pre0[i as int]);
                }
                let mut e = self.executors.remove(i);
                let res = e.on_task_exec_begin(task_id, timestamp, out);
                self.executors.insert(i, e);
                proof {
                    Self::lemma_remove_insert(mid, i as int, e);
                    assert(self.executors@ =~= mid.update(i as int, e));
                    self.lemma_executors_update_ok(mid, i as int, e);
                    assert(spec_out(old(out)@).is_prefix_of(spec_out(out@)));
                }
                match res {
                    Ok(_) => {
                        assert(self.executors@[i as int].executor_id == executor_id);
                        proof {
                            let tasks0 = pre0[i as int].tasks@;
                            if spec_has_task(tasks0, task_id) {
                                let ti = crate::executor::spec_task_idx(tasks0, task_id);
                                assert(e.tasks@ == tasks0.update(
                                    ti,
                                    crate::task::spec_after_exec_begin(
                                        spec_the_task(tasks0, task_id),
                                        timestamp,
                                    ),
                                ));
                                assert(e.tasks@[ti].task_id == task_id);
                                crate::executor::lemma_task_idx_unique(e.tasks@, ti);
                            } else {
                                assert(e.tasks@[e.tasks@.len() - 1].task_id == task_id);
                                crate::executor::lemma_task_idx_unique(
                                    e.tasks@,
                                    e.tasks@.len() as int - 1,
                                );
                            }
                            assert(spec_the_task(e.tasks@, task_id).state == TaskState::Running);
                        }
                        Ok(())
                    },
                    Err(err) => Err(err),
                }
            },
            None => {
                let e = ExecutorTracing::new_polling(executor_id, timestamp, task_id, out);
                let ghost pre_push = self.executors@;
                self.executors.push(e);
                proof {
                    assert(forall|j: int|
                        0 <= j < pre_push.len() ==> self.executors@[j] == pre_push[j]);
                    assert(self.executors@.last().executor_id == executor_id);
                    assert forall|a: int, b: int|
                        #![trigger self.executors@[a].current_state, self.executors@[b].current_state]
                        0 <= a < b < self.executors@.len() implies !(spec_exec_is_running(
                        self.executors@[a].current_state,
                    ) && spec_exec_is_running(self.executors@[b].current_state)) by {
                        if b == pre_push.len() {
                            assert(self.executors@[a] == pre_push[a]);
                            assert(!(spec_exec_is_running(pre_push[a].current_state)
                                && pre_push[a].executor_id != executor_id));
                            assert(pre_push[a].executor_id != executor_id);
                        } else {
                            assert(self.executors@[a] == pre_push[a] && self.executors@[b]
                                == pre_push[b]);
                        }
                    }
                    assert(spec_out(old(out)@).is_prefix_of(spec_out(out@)));
                    assert(!spec_some_exec_with_id(pre0, executor_id)) by {
                        if spec_some_exec_with_id(pre0, executor_id) {
                            let w = spec_exec_idx(pre0, executor_id);
                            assert(mid[w].executor_id == executor_id);
                        }
                    }
                    assert(self.executors@.last().tasks@[0].state == TaskState::Running);
                }
                Ok(())
            },
        }
    }

    /// Preempt whichever other executor is scheduling or polling on this
    /// core, flushing the bare-core monitors up to the preemption instant
    /// and remembering their names; afterwards no executor other than the
    /// named one runs here.
    fn preempt_running_other(&mut self, executor_id: u8, timestamp: u64, out: &mut Vec<TracingEvent>)
        requires
            old(self).wf(),
            old(self).bounded_by(timestamp),
        ensures
            final(self).wf(),
            final(self).bounded_by(timestamp),
            final(self).core_id == old(self).core_id,
            spec_out(old(out)@).is_prefix_of(spec_out(final(out)@)),
            forall|j: int|
                0 <= j < final(self).executors@.len() ==> !(spec_exec_is_running(
                    (#[trigger] final(self).executors@[j]).current_state,
                ) && final(self).executors@[j].executor_id != executor_id),
            forall|j: int|
                0 <= j < final(self).executors@.len() ==> (#[trigger] final(self).executors@[j]).executor_id
                    == old(self).executors@[j].executor_id,
            final(self).executors@.len() == old(self).executors@.len(),
            forall|j: int|
                0 <= j < old(self).executors@.len() && (#[trigger] old(self).executors@[j]).executor_id
                    == executor_id ==> final(self).executors@[j] == old(self).executors@[j],
            forall|j: int|
                0 <= j < old(self).executors@.len() ==> ((#[trigger] final(self).executors@[j]).current_state
                    == old(self).executors@[j].current_state || (spec_exec_is_running(
                    old(self).executors@[j].current_state,
                ) && old(self).executors@[j].executor_id != executor_id && final(self).executors@[j].current_state
                    == (ExecutorState::Preempted {
                    by_executor_id: executor_id,
                    prev_state: spec_prev_of(old(self).executors@[j].current_state),
                }))),
            !spec_some_running_other(old(self).executors@, executor_id) ==> final(self).executors@
                == old(self).executors@ && final(self).monitor_stack@ == old(self).monitor_stack@
                && final(self).preempted_monitors == old(self).preempted_monitors && final(out)@
                == old(out)@,
            spec_some_running_other(old(self).executors@, executor_id) ==> final(self).monitor_stack@.len()
                == 0 && spec_names(final(self).preempted_monitors@) == spec_names(
                old(self).preempted_monitors@,
            ) + spec_monitor_stack(old(self).monitor_stack@).map_values(
                |p: (Seq<char>, u64)| p.0,
            ),
    {
        match self.find_running_other(executor_id) {
            Some(i) => {
                assert(spec_some_running_other(self.executors@, executor_id));
                let ghost pre = self.executors@;
                let mut e = self.executors.remove(i);
                let displaced_id = e.executor_id();
                let res = e.on_preempted(timestamp, executor_id, out);
                assert(res is Ok);
                self.executors.insert(i, e);
                proof {
                    Self::lemma_remove_insert(pre, i as int, e);
                    assert(self.executors@ =~= pre.update(i as int, e));
                    self.lemma_executors_update_ok(pre, i as int, e);
                    assert forall|j: int|
                        0 <= j < self.executors@.len() implies (
                    #[trigger] self.executors@[j]).bounded_by(timestamp) by {
                        if j != i as int {
                            assert(self.executors@[j] == pre[j]);
                        }
                    }
                }
                let ghost stack0 = spec_monitor_stack(self.monitor_stack@);
                let ghost names0 = spec_names(self.preempted_monitors@);
                let mut k: usize = 0;
                let n = self.monitor_stack.len();
                proof {
                    assert(names0 + stack0.take(0).map_values(|p: (Seq<char>, u64)| p.0)
                        =~= names0);
                }
                while k < n
                    invariant
                        n == self.monitor_stack@.len(),
                        k <= n,
                        stack0 == spec_monitor_stack(self.monitor_stack@),
                        spec_names(self.preempted_monitors@) == names0 + stack0.take(
                            k as int,
                        ).map_values(|p: (Seq<char>, u64)| p.0),
                        forall|j: int|
                            0 <= j < self.monitor_stack@.len()
                                ==> #[trigger] self.monitor_stack@[j].1 <= timestamp,
                        self.core_id == old(self).core_id,
                        self.executors@ == pre.update(i as int, e),
                        self.wf(),
                        forall|j: int|
                            0 <= j < self.executors@.len() ==> (
                            #[trigger] self.executors@[j]).bounded_by(timestamp),
                        spec_out(old(out)@).is_prefix_of(spec_out(out@)),
                    decreases n - k,
                {
                    let name = self.monitor_stack[k].0.clone();
                    let start = self.monitor_stack[k].1;
                    let ghost out_pre = out@;
                    let ghost names_pre = spec_names(self.preempted_monitors@);
                    self.preempted_monitors.push(name.clone());
                    emit_monitor_complete(
                        out,
                        name,
                        CORE_OVERVIEW_PID,
                        self.core_id as u32 + 1,
                        start,
                        timestamp - start,
                    );
                    proof {
                        assert(spec_out(out_pre).is_prefix_of(spec_out(out@)));
                        assert(spec_names(self.preempted_monitors@) =~= names_pre.push(
                            stack0[k as int].0,
                        ));
                        assert(names0 + stack0.take(k as int + 1).map_values(
                            |p: (Seq<char>, u64)| p.0,
                        ) =~= (names0 + stack0.take(k as int).map_values(
                            |p: (Seq<char>, u64)| p.0,
                        )).push(stack0[k as int].0));
                    }
                    k = k + 1;
                }
                self.monitor_stack = Vec::new();
                proof {
                    assert(stack0.take(n as int) =~= stack0);
                    assert(stack0 == spec_monitor_stack(old(self).monitor_stack@));
                    assert(names0 == spec_names(old(self).preempted_monitors@));
                }
                let label = executor_label(displaced_id);
                let ghost out_pre2 = out@;
                emit_end_named(out, label, CORE_OVERVIEW_PID, Some(self.core_id as u32 + 1), timestamp);
                proof {
                    assert(spec_out(old(out)@).is_prefix_of(spec_out(out@)));
                    assert forall|j: int|
                        0 <= j < self.executors@.len() implies !(spec_exec_is_running(
                        (#[trigger] self.executors@[j]).current_state,
                    ) && self.executors@[j].executor_id != executor_id) by {
                        if j == i as int {
                        } else {
                            assert(self.executors@[j] == pre[j]);
                            if j < i as int {
                                assert(!(spec_exec_is_running(pre[j].current_state)
                                    && spec_exec_is_running(pre[i as int].current_state)));
                            } else {
                                assert(!(spec_exec_is_running(pre[i as int].current_state)
                                    && spec_exec_is_running(pre[j].current_state)));
                            }
                        }
                    }
                }
            },
            None => {
                proof {
                    assert(spec_out(out@).is_prefix_of(spec_out(out@)));
                    assert(!spec_some_running_other(self.executors@, executor_id));
                }
            },
        }
    }

    /// The poll of the named executor's current task ended; unknown
    /// executors are ignored.
    pub fn on_task_exec_end(&mut self, executor_id: u8, timestamp: u64, out: &mut Vec<TracingEvent>) -> (r: Result<(), TraceError>)
        requires
            old(self).wf(),
            old(self).bounded_by(timestamp),
        ensures
            final(self).wf(),
            final(self).bounded_by(timestamp),
            final(self).core_id == old(self).core_id,
            spec_out(old(out)@).is_prefix_of(spec_out(final(out)@)),
            final(self).monitor_stack@ == old(self).monitor_stack@,
            final(self).preempted_monitors == old(self).preempted_monitors,
            !spec_some_exec_with_id(old(self).executors@, executor_id) ==> r is Ok && final(self).executors@
                == old(self).executors@ && final(out)@ == old(out)@,
            spec_some_exec_with_id(old(self).executors@, executor_id) ==> ({
                let ei = spec_exec_idx(old(self).executors@, executor_id);
                &&& final(self).executors@ == old(self).executors@.update(
                    ei,
                    final(self).executors@[ei],
                )
                &&& spec_exec_end_rel(
                    old(self).executors@[ei],
                    final(self).executors@[ei],
                    r,
                    timestamp,
                    spec_out(old(out)@),
                    spec_out(final(out)@),
                )
            }),
    {
        match self.find_executor_index(executor_id) {
            Some(i) => {
                let ghost pre = self.executors@;
                proof {
                    lemma_exec_idx_unique(pre, i as int);
                }
                let mut e = self.executors.remove(i);
                let res = e.on_task_exec_end(timestamp, out);
                self.executors.insert(i, e);
                proof {
                    Self::lemma_remove_insert(pre, i as int, e);
                    assert(self.executors@ =~= pre.update(i as int, e));
                    self.lemma_executors_update_ok(pre, i as int, e);
                    assert(spec_out(old(out)@).is_prefix_of(spec_out(out@)));
                }
                match res {
                    Ok(_) => Ok(()),
                    Err(err) => Err(err),
                }
            },
            None => {
                proof {
                    assert(spec_out(out@).is_prefix_of(spec_out(out@)));
                }
                Ok(())
            },
        }
    }

    /// A task of the named executor ended for good; unknown executors are
    /// ignored.
    pub fn on_task_end(&mut self, executor_id: u8, task_id: u16, timestamp: u64, out: &mut Vec<TracingEvent>) -> (r: Result<(), TraceError>)
        requires
            old(self).wf(),
            old(self).bounded_by(timestamp),
        ensures
            final(self).wf(),
            final(self).bounded_by(timestamp),
            final(self).core_id == old(self).core_id,
            spec_out(old(out)@).is_prefix_of(spec_out(final(out)@)),
            final(self).monitor_stack@ == old(self).monitor_stack@,
            final(self).preempted_monitors == old(self).preempted_monitors,
            !spec_some_exec_with_id(old(self).executors@, executor_id) ==> r is Ok && final(self).executors@
                == old(self).executors@ && final(out)@ == old(out)@,
            spec_some_exec_with_id(old(self).executors@, executor_id) ==> ({
                let ei = spec_exec_idx(old(self).executors@, executor_id);
                &&& final(self).executors@ == old(self).executors@.update(
                    ei,
                    final(self).executors@[ei],
                )
                &&& spec_task_end_rel(
                    old(self).executors@[ei],
                    final(self).executors@[ei],
                    r,
                    task_id,
                    timestamp,
                    spec_out(old(out)@),
                    spec_out(final(out)@),
                )
            }),
    {
        match self.find_executor_index(executor_id) {
            Some(i) => {
                let ghost pre = self.executors@;
                proof {
                    lemma_exec_idx_unique(pre, i as int);
                }
                let mut e = self.executors.remove(i);
                let res = e.on_task_end(timestamp, task_id, out);
                self.executors.insert(i, e);
                proof {
                    Self::lemma_remove_insert(pre, i as int, e);
                    assert(self.executors@ =~= pre.update(i as int, e));
                    self.lemma_executors_update_ok(pre, i as int, e);
                    assert(spec_out(old(out)@).is_prefix_of(spec_out(out@)));
                }
                match res {
                    Ok(_) => Ok(()),
                    Err(err) => Err(err),
                }
            },
            None => {
                proof {
                    assert(spec_out(out@).is_prefix_of(spec_out(out@)));
                }
                Ok(())
            },
        }
    }

    /// The named executor started polling on this core. Any other running
    /// executor is preempted first; the overview lane opens a span for the
    /// newly running executor. Unknown executors are ignored (a bare poll
    /// start carries no core attribution).
    pub fn on_executor_poll_start(&mut self, executor_id: u8, timestamp: u64, out: &mut Vec<TracingEvent>) -> (r: Result<(), TraceError>)
        requires
            old(self).wf(),
            old(self).bounded_by(timestamp),
        ensures
            r is Ok,
            final(self).wf(),
            final(self).bounded_by(timestamp),
            final(self).core_id == old(self).core_id,
            spec_out(old(out)@).is_prefix_of(spec_out(final(out)@)),
            forall|j: int|
                0 <= j < old(self).executors@.len() && (#[trigger] old(self).executors@[j]).executor_id
                    == executor_id ==> final(self).executors@[j].current_state
                    == ExecutorState::Scheduling,
            !spec_some_exec_with_id(old(self).executors@, executor_id) ==> final(self).executors@
                == old(self).executors@ && final(self).monitor_stack@ == old(self).monitor_stack@
                && final(self).preempted_monitors == old(self).preempted_monitors && final(out)@
                == old(out)@,
            spec_some_exec_with_id(old(self).executors@, executor_id) ==> ({
                let ei = spec_exec_idx(old(self).executors@, executor_id);
                &&& final(self).executors@.len() == old(self).executors@.len()
                &&& forall|j: int|
                    0 <= j < old(self).executors@.len() ==> (#[trigger] final(self).executors@[j]).executor_id
                        == old(self).executors@[j].executor_id
                &&& forall|j: int|
                    0 <= j < old(self).executors@.len() && j != ei ==> ((
                    #[trigger] final(self).executors@[j]).current_state == old(self).executors@[j].current_state
                        || (spec_exec_is_running(old(self).executors@[j].current_state) && final(self).executors@[j].current_state
                        == (ExecutorState::Preempted {
                        by_executor_id: executor_id,
                        prev_state: spec_prev_of(old(self).executors@[j].current_state),
                    })))
                &&& (!spec_some_running_other(old(self).executors@, executor_id) ==> final(self).monitor_stack@
                    == old(self).monitor_stack@ && final(self).preempted_monitors == old(self).preempted_monitors)
                &&& (spec_some_running_other(old(self).executors@, executor_id) ==> final(self).monitor_stack@.len()
                    == 0 && spec_names(final(self).preempted_monitors@) == spec_names(
                    old(self).preempted_monitors@,
                ) + spec_monitor_stack(old(self).monitor_stack@).map_values(
                    |p: (Seq<char>, u64)| p.0,
                ))
                &&& exists|k: int|
                    spec_out(old(out)@).len() <= k < spec_out(final(out)@).len()
                        && #[trigger] spec_out(final(out)@)[k] == (TraceEventView::Begin {
                        name: spec_executor_label(executor_id),
                        cat: None,
                        ts: timestamp,
                        pid: CORE_OVERVIEW_PID,
                        tid: Some((old(self).core_id + 1) as u32),
                    })
            }),
    {
        let probe = self.find_executor_index(executor_id);
        let ghost probe_idx: int = match probe {
            Some(i) => i as int,
            None => 0int,
        };
        if probe.is_none() {
            return Ok(());
        }
        proof {
            lemma_exec_idx_unique(old(self).executors@, probe_idx);
        }
        self.preempt_running_other(executor_id, timestamp, out);
        let ghost mid = self.executors@;
        match self.find_executor_index(executor_id) {
            Some(i) => {
                let label = executor_label(executor_id);
                let ghost begin_at = spec_out(out@).len() as int;
                emit_begin(out, label, CORE_OVERVIEW_PID, Some(self.core_id as u32 + 1), timestamp);
                let ghost out_beg = spec_out(out@);
                let mut e = self.executors.remove(i);
                let res = e.on_poll_start(timestamp, out);
                self.executors.insert(i, e);
                proof {
                    Self::lemma_remove_insert(mid, i as int, e);
                    assert(self.executors@ =~= mid.update(i as int, e));
                    self.lemma_executors_update_ok(mid, i as int, e);
                    assert(spec_out(old(out)@).is_prefix_of(spec_out(out@)));
                    crate::trace_event::lemma_prefix_index(out_beg, spec_out(out@), begin_at);
                    assert(spec_out(out@)[begin_at] == (TraceEventView::Begin {
                        name: spec_executor_label(executor_id),
                        cat: None,
                        ts: timestamp,
                        pid: CORE_OVERVIEW_PID,
                        tid: Some((old(self).core_id + 1) as u32),
                    }));
                    assert forall|j: int|
                        0 <= j < old(self).executors@.len() && (#[trigger] old(
                            self,
                        ).executors@[j]).executor_id == executor_id implies self.executors@[j].current_state
                        == ExecutorState::Scheduling by {
                        if j != i as int {
                            assert(mid[j].executor_id == mid[i as int].executor_id);
                        }
                    }
                }
                Ok(())
            },
            None => {
                proof {
                    assert(self.executors@[probe_idx].executor_id == executor_id);
                    assert(false);
                }
                Ok(())
            },
        }
    }

    /// The named executor went idle. The overview span for it closes; if it
    /// had preempted another executor and nothing else runs, that executor
    /// resumes exactly where it was, the overview reopens its span, and the
    /// remembered bare-core monitors reopen at the resume instant. Unknown
    /// executors are ignored.
    pub fn on_executor_idle(&mut self, executor_id: u8, timestamp: u64, out: &mut Vec<TracingEvent>) -> (r: Result<(), TraceError>)
        requires
            old(self).wf(),
            old(self).bounded_by(timestamp),
        ensures
            r is Ok,
            final(self).wf(),
            final(self).bounded_by(timestamp),
            final(self).core_id == old(self).core_id,
            spec_out(old(out)@).is_prefix_of(spec_out(final(out)@)),
            !spec_some_exec_with_id(old(self).executors@, executor_id) ==> final(self).executors@
                == old(self).executors@ && final(self).monitor_stack@ == old(self).monitor_stack@
                && final(self).preempted_monitors == old(self).preempted_monitors && final(out)@
                == old(out)@,
            spec_some_exec_with_id(old(self).executors@, executor_id) ==> ({
                let ei = spec_exec_idx(old(self).executors@, executor_id);
                &&& final(self).executors@.len() == old(self).executors@.len()
                &&& forall|j: int|
                    0 <= j < old(self).executors@.len() ==> (#[trigger] final(self).executors@[j]).executor_id
                        == old(self).executors@[j].executor_id
                &&& final(self).executors@[ei].current_state == ExecutorState::Idle
                &&& spec_out(final(out)@).len() > spec_out(old(out)@).len()
                &&& spec_out(final(out)@)[spec_out(old(out)@).len() as int]
                    == (TraceEventView::End {
                    name: Some(spec_executor_label(executor_id)),
                    cat: None,
                    pid: CORE_OVERVIEW_PID,
                    tid: Some((old(self).core_id + 1) as u32),
                    ts: timestamp,
                })
            }),
            spec_some_exec_with_id(old(self).executors@, executor_id) && (forall|j: int|
                0 <= j < old(self).executors@.len() && j != spec_exec_idx(
                    old(self).executors@,
                    executor_id,
                ) ==> !spec_exec_is_running((#[trigger] old(self).executors@[j]).current_state))
                && (exists|j: int|
                0 <= j < old(self).executors@.len() && j != spec_exec_idx(
                    old(self).executors@,
                    executor_id,
                ) && ((#[trigger] old(self).executors@[j]).current_state
                    matches ExecutorState::Preempted { by_executor_id, .. } && by_executor_id
                    == executor_id)) ==> (exists|j: int|
                {
                    &&& 0 <= j < old(self).executors@.len()
                    &&& ((#[trigger] old(self).executors@[j]).current_state
                        matches ExecutorState::Preempted { by_executor_id, .. } && by_executor_id
                        == executor_id)
                    &&& final(self).executors@[j].current_state == spec_prev_as_state(
                        spec_prev_rec(old(self).executors@[j].current_state),
                    )
                    &&& exists|k: int|
                        spec_out(old(out)@).len() <= k < spec_out(final(out)@).len()
                            && #[trigger] spec_out(final(out)@)[k] == (TraceEventView::Begin {
                            name: spec_executor_label(old(self).executors@[j].executor_id),
                            cat: None,
                            ts: timestamp,
                            pid: CORE_OVERVIEW_PID,
                            tid: Some((old(self).core_id + 1) as u32),
                        })
                }) && final(self).preempted_monitors@.len() == 0 && spec_monitor_stack(
                final(self).monitor_stack@,
            ) == spec_monitor_stack(old(self).monitor_stack@) + spec_names(
                old(self).preempted_monitors@,
            ).map_values(|n: Seq<char>| (n, timestamp)),
    {
        let probe = self.find_executor_index(executor_id);
        let ghost probe_idx: int = match probe {
            Some(i) => i as int,
            None => 0int,
        };
        if probe.is_none() {
            return Ok(());
        }
        proof {
            lemma_exec_idx_unique(old(self).executors@, probe_idx);
        }
        let label = executor_label(executor_id);
        emit_end_named(out, label, CORE_OVERVIEW_PID, Some(self.core_id as u32 + 1), timestamp);
        let ghost pre0 = self.executors@;
        match self.find_executor_index(executor_id) {
            Some(i) => {
                let mut e = self.executors.remove(i);
                let res = e.on_idle(timestamp, out);
                self.executors.insert(i, e);
                proof {
                    Self::lemma_remove_insert(pre0, i as int, e);
                    assert(self.executors@ =~= pre0.update(i as int, e));
                    self.lemma_executors_update_ok(pre0, i as int, e);
                    assert(spec_out(old(out)@).is_prefix_of(spec_out(out@)));
                }
            },
            None => {
                proof {
                    assert(self.executors@[probe_idx].executor_id == executor_id);
                    assert(false);
                }
            },
        }
        match self.find_running_index() {
            Some(i2) => {
                proof {
                    assert(spec_out(old(out)@).is_prefix_of(spec_out(out@)));
                    assert(self.executors@[probe_idx].current_state == ExecutorState::Idle);
                    assert(i2 as int != probe_idx);
                    assert(self.executors@[i2 as int] == pre0[i2 as int]);
                    assert(spec_exec_is_running(old(self).executors@[i2 as int].current_state));
                }
                return Ok(());
            },
            None => {},
        }
        let ghost mid = self.executors@;
        match self.find_preempted_by(executor_id) {
            Some(i) => {
                proof {
                    assert(mid[probe_idx].current_state == ExecutorState::Idle);
                    assert(i as int != probe_idx);
                    assert(mid[i as int] == pre0[i as int]);
                }
                let mut e = self.executors.remove(i);
                let resumed_id = e.executor_id();
                let res = e.on_resume(timestamp, out);
                assert(res is Ok);
                self.executors.insert(i, e);
                proof {
                    Self::lemma_remove_insert(mid, i as int, e);
                    assert(self.executors@ =~= mid.update(i as int, e));
                    self.lemma_executors_update_ok(mid, i as int, e);
                    assert(self.executors@[i as int].current_state == spec_prev_as_state(
                        spec_prev_rec(old(self).executors@[i as int].current_state),
                    ));
                }
                let label2 = executor_label(resumed_id);
                let ghost begin_at = spec_out(out@).len() as int;
                emit_begin(out, label2, CORE_OVERVIEW_PID, Some(self.core_id as u32 + 1), timestamp);
                proof {
                    assert(resumed_id == old(self).executors@[i as int].executor_id);
                    assert(spec_out(out@)[begin_at] == (TraceEventView::Begin {
                        name: spec_executor_label(old(self).executors@[i as int].executor_id),
                        cat: None,
                        ts: timestamp,
                        pid: CORE_OVERVIEW_PID,
                        tid: Some((old(self).core_id + 1) as u32),
                    }));
                }
                proof {
                    assert forall|j: int|
                        0 <= j < self.executors@.len() implies (
                    #[trigger] self.executors@[j]).bounded_by(timestamp) by {
                        if j != i as int {
                            assert(self.executors@[j] == mid[j]);
                        }
                    }
                }
                let ghost resumed_state = self.executors@[i as int].current_state;
                let ghost stack_mid = spec_monitor_stack(self.monitor_stack@);
                let ghost execs_mid = self.executors@;
                let ghost names0 = spec_names(self.preempted_monitors@);
                let mut k: usize = 0;
                let n = self.preempted_monitors.len();
                proof {
                    assert(stack_mid + names0.take(0).map_values(|nm: Seq<char>| (nm, timestamp))
                        =~= stack_mid);
                }
                while k < n
                    invariant
                        n == self.preempted_monitors@.len(),
                        k <= n,
                        names0 == spec_names(self.preempted_monitors@),
                        forall|j: int|
                            0 <= j < self.monitor_stack@.len()
                                ==> #[trigger] self.monitor_stack@[j].1 <= timestamp,
                        self.core_id == old(self).core_id,
                        self.wf(),
                        self.executors@ == execs_mid,
                        spec_monitor_stack(self.monitor_stack@) == stack_mid + names0.take(
                            k as int,
                        ).map_values(|nm: Seq<char>| (nm, timestamp)),
                        forall|j: int|
                            0 <= j < self.executors@.len() ==> (
                            #[trigger] self.executors@[j]).bounded_by(timestamp),
                    decreases n - k,
                {
                    let name = self.preempted_monitors[k].clone();
                    let ghost stack_pre = self.monitor_stack@;
                    self.monitor_stack.push((name, timestamp));
                    proof {
                        assert(forall|j: int|
                            0 <= j < stack_pre.len() ==> self.monitor_stack@[j] == stack_pre[j]);
                        assert(spec_monitor_stack(self.monitor_stack@) =~= spec_monitor_stack(
                            stack_pre,
                        ).push((names0[k as int], timestamp)));
                        assert(stack_mid + names0.take(k as int + 1).map_values(
                            |nm: Seq<char>| (nm, timestamp),
                        ) =~= (stack_mid + names0.take(k as int).map_values(
                            |nm: Seq<char>| (nm, timestamp),
                        )).push((names0[k as int], timestamp)));
                    }
                    k = k + 1;
                }
                self.preempted_monitors = Vec::new();
                proof {
                    assert(spec_out(old(out)@).is_prefix_of(spec_out(out@)));
                    assert(names0.take(n as int) =~= names0);
                    assert(names0 == spec_names(old(self).preempted_monitors@));
                    assert(stack_mid == spec_monitor_stack(old(self).monitor_stack@));
                }
                Ok(())
            },
            None => {
                proof {
                    assert(spec_out(old(out)@).is_prefix_of(spec_out(out@)));
                    assert(mid[probe_idx].current_state == ExecutorState::Idle);
                    assert forall|j: int|
                        0 <= j < old(self).executors@.len() && j != probe_idx implies !((
                    #[trigger] old(self).executors@[j]).current_state
                        matches ExecutorState::Preempted { by_executor_id, .. } && by_executor_id
                        == executor_id) by {
                        assert(mid[j] == pre0[j]);
                    }
                }
                Ok(())
            },
        }
    }

    /// The stream lost events on this core: every executor desynchronizes,
    /// the overview lane closes whatever was open and opens a
    /// "Desynchronization" span, and the bare-core monitors are flushed up
    /// to the loss.
    pub fn on_desynchronize(&mut self, timestamp: u64, out: &mut Vec<TracingEvent>)
        requires
            old(self).wf(),
            old(self).bounded_by(timestamp),
        ensures
            final(self).wf(),
            final(self).bounded_by(timestamp),
            final(self).core_id == old(self).core_id,
            final(self).monitor_stack@.len() == 0,
            spec_out(old(out)@).is_prefix_of(spec_out(final(out)@)),
            forall|i: int|
                0 <= i < final(self).executors@.len() ==> (#[trigger] final(self).executors@[i]).current_state
                    == ExecutorState::StreamDesynchronized,
            forall|i: int, k: int|
                0 <= i < final(self).executors@.len() && 0 <= k < (
                #[trigger] final(self).executors@[i]).tasks@.len() ==> (
                #[trigger] final(self).executors@[i].tasks@[k]).state
                    == TaskState::StreamDesynchronized,
            exists|evs: Seq<TraceEventView>|
                #[trigger] spec_out(final(out)@) == spec_out(old(out)@) + evs + seq![
                    TraceEventView::End {
                        name: None,
                        cat: None,
                        pid: CORE_OVERVIEW_PID,
                        tid: Some((old(self).core_id + 1) as u32),
                        ts: timestamp,
                    },
                    TraceEventView::Begin {
                        name: "Desynchronization"@,
                        cat: None,
                        ts: timestamp,
                        pid: CORE_OVERVIEW_PID,
                        tid: Some((old(self).core_id + 1) as u32),
                    },
                ] + spec_flush_events(
                    spec_monitor_stack(old(self).monitor_stack@),
                    CORE_OVERVIEW_PID,
                    (old(self).core_id + 1) as u32,
                    timestamp,
                ),
    {
        let mut i: usize = 0;
        let n = self.executors.len();
        while i < n
            invariant
                n == self.executors@.len(),
                i <= n,
                self.core_id == old(self).core_id,
                forall|j: int|
                    0 <= j < n ==> (#[trigger] self.executors@[j]).wf() && self.executors@[j].bounded_by(
                        timestamp,
                    ) && self.executors@[j].executor_id == old(self).executors@[j].executor_id,
                forall|j: int|
                    0 <= j < i ==> (#[trigger] self.executors@[j]).current_state
                        == ExecutorState::StreamDesynchronized,
                forall|j: int, k: int|
                    0 <= j < i && 0 <= k < (#[trigger] self.executors@[j]).tasks@.len() ==> (
                    #[trigger] self.executors@[j].tasks@[k]).state
                        == TaskState::StreamDesynchronized,
                forall|a: int, b: int|
                    #![trigger self.executors@[a].executor_id, self.executors@[b].executor_id]
                    0 <= a < b < n ==> self.executors@[a].executor_id
                        != self.executors@[b].executor_id,
                forall|j: int|
                    0 <= j < self.monitor_stack@.len() ==> #[trigger] self.monitor_stack@[j].1
                        <= timestamp,
                self.monitor_stack@ == old(self).monitor_stack@,
                spec_out(old(out)@).is_prefix_of(spec_out(out@)),
            decreases n - i,
        {
            let ghost pre = self.executors@;
            let ghost out_pre = out@;
            let mut e = self.executors.remove(i);
            e.on_desynchronize(timestamp, out);
            self.executors.insert(i, e);
            proof {
                Self::lemma_remove_insert(pre, i as int, e);
                assert(self.executors@ =~= pre.update(i as int, e));
                assert(spec_out(out_pre).is_prefix_of(spec_out(out@)));
            }
            i = i + 1;
        }
        let ghost out_loop = spec_out(out@);
        let ghost evs = out_loop.subrange(spec_out(old(out)@).len() as int, out_loop.len() as int);
        proof {
            assert(spec_out(old(out)@) + evs =~= out_loop);
        }
        emit_end(out, CORE_OVERVIEW_PID, Some(self.core_id as u32 + 1), timestamp);
        let desync = String::from_str("Desynchronization");
        emit_begin(out, desync, CORE_OVERVIEW_PID, Some(self.core_id as u32 + 1), timestamp);
        let ghost out_begun = spec_out(out@);
        let ghost stack0 = spec_monitor_stack(self.monitor_stack@);
        let ghost tid32 = (old(self).core_id + 1) as u32;
        proof {
            assert(out_begun + spec_flush_events(stack0.take(0), CORE_OVERVIEW_PID, tid32, timestamp)
                =~= out_begun);
        }
        let mut k: usize = 0;
        let m = self.monitor_stack.len();
        while k < m
            invariant
                m == self.monitor_stack@.len(),
                k <= m,
                tid32 == (old(self).core_id + 1) as u32,
                self.core_id == old(self).core_id,
                stack0 == spec_monitor_stack(self.monitor_stack@),
                forall|j: int|
                    0 <= j < self.monitor_stack@.len() ==> #[trigger] self.monitor_stack@[j].1
                        <= timestamp,
                spec_out(out@) == out_begun + spec_flush_events(
                    stack0.take(k as int),
                    CORE_OVERVIEW_PID,
                    tid32,
                    timestamp,
                ),
                spec_out(old(out)@).is_prefix_of(spec_out(out@)),
            decreases m - k,
        {
            let name = self.monitor_stack[k].0.clone();
            let start = self.monitor_stack[k].1;
            let ghost out_pre = out@;
            emit_monitor_complete(
                out,
                name,
                CORE_OVERVIEW_PID,
                self.core_id as u32 + 1,
                start,
                timestamp - start,
            );
            proof {
                assert(spec_out(out_pre).is_prefix_of(spec_out(out@)));
                assert(spec_flush_events(
                    stack0.take(k as int + 1),
                    CORE_OVERVIEW_PID,
                    tid32,
                    timestamp,
                ) =~= spec_flush_events(
                    stack0.take(k as int),
                    CORE_OVERVIEW_PID,
                    tid32,
                    timestamp,
                ) + seq![
                    TraceEventView::Complete {
                        name: stack0[k as int].0,
                        cat: Some("code_monitor"@),
                        pid: CORE_OVERVIEW_PID,
                        tid: tid32,
                        ts: stack0[k as int].1,
                        dur: (timestamp - stack0[k as int].1) as u64,
                    },
                ]);
                assert(spec_out(out@) =~= out_begun + spec_flush_events(
                    stack0.take(k as int + 1),
                    CORE_OVERVIEW_PID,
                    tid32,
                    timestamp,
                ));
            }
            k = k + 1;
        }
        self.monitor_stack = Vec::new();
        proof {
            assert(spec_out(old(out)@).is_prefix_of(spec_out(out@)));
            assert(stack0.take(m as int) =~= stack0);
            assert(stack0 == spec_monitor_stack(old(self).monitor_stack@));
            assert(out_begun =~= out_loop + seq![
                TraceEventView::End {
                    name: None,
                    cat: None,
                    pid: CORE_OVERVIEW_PID,
                    tid: Some(tid32),
                    ts: timestamp,
                },
                TraceEventView::Begin {
                    name: "Desynchronization"@,
                    cat: None,
                    ts: timestamp,
                    pid: CORE_OVERVIEW_PID,
                    tid: Some(tid32),
                },
            ]);
            assert(spec_out(out@) =~= spec_out(old(out)@) + evs + seq![
                TraceEventView::End {
                    name: None,
                    cat: None,
                    pid: CORE_OVERVIEW_PID,
                    tid: Some(tid32),
                    ts: timestamp,
                },
                TraceEventView::Begin {
                    name: "Desynchronization"@,
                    cat: None,
                    ts: timestamp,
                    pid: CORE_OVERVIEW_PID,
                    tid: Some(tid32),
                },
            ] + spec_flush_events(stack0, CORE_OVERVIEW_PID, tid32, timestamp));
        }
    }

    /// Engine teardown: every executor closes, the bare-core monitors flush
    /// up to the last observed timestamp, and the overview lane closes.
    pub fn on_drop(&mut self, timestamp: u64, out: &mut Vec<TracingEvent>)
        requires
            old(self).wf(),
            old(self).bounded_by(timestamp),
        ensures
            final(self).wf(),
            final(self).bounded_by(timestamp),
            final(self).core_id == old(self).core_id,
            spec_out(old(out)@).is_prefix_of(spec_out(final(out)@)),
            final(self).monitor_stack@.len() == 0,
            final(self).executors@.len() == old(self).executors@.len(),
            forall|j: int|
                0 <= j < old(self).executors@.len() ==> (#[trigger] final(self).executors@[j]).executor_id
                    == old(self).executors@[j].executor_id && final(self).executors@[j].current_state
                    == old(self).executors@[j].current_state,
            forall|j: int, k: int|
                0 <= j < final(self).executors@.len() && 0 <= k < (
                #[trigger] final(self).executors@[j]).tasks@.len() ==> (
                #[trigger] final(self).executors@[j].tasks@[k]).current_monitors@.len() == 0,
    {
        let mut i: usize = 0;
        let n = self.executors.len();
        while i < n
            invariant
                n == self.executors@.len(),
                i <= n,
                self.core_id == old(self).core_id,
                forall|j: int|
                    0 <= j < n ==> (#[trigger] self.executors@[j]).wf() && self.executors@[j].bounded_by(
                        timestamp,
                    ) && self.executors@[j].executor_id == old(self).executors@[j].executor_id
                        && self.executors@[j].current_state == old(self).executors@[j].current_state,
                forall|a: int, b: int|
                    #![trigger self.executors@[a].executor_id, self.executors@[b].executor_id]
                    0 <= a < b < n ==> self.executors@[a].executor_id
                        != self.executors@[b].executor_id,
                forall|a: int, b: int|
                    #![trigger self.executors@[a].current_state, self.executors@[b].current_state]
                    0 <= a < b < n ==> !(spec_exec_is_running(self.executors@[a].current_state)
                        && spec_exec_is_running(self.executors@[b].current_state)),
                forall|j: int|
                    0 <= j < self.monitor_stack@.len() ==> #[trigger] self.monitor_stack@[j].1
                        <= timestamp,
                self.monitor_stack@ == old(self).monitor_stack@,
                forall|j: int, k: int|
                    0 <= j < i && 0 <= k < (#[trigger] self.executors@[j]).tasks@.len() ==> (
                    #[trigger] self.executors@[j].tasks@[k]).current_monitors@.len() == 0,
                spec_out(old(out)@).is_prefix_of(spec_out(out@)),
            decreases n - i,
        {
            let ghost pre = self.executors@;
            let ghost out_pre = out@;
            let mut e = self.executors.remove(i);
            e.on_drop(timestamp, out);
            self.executors.insert(i, e);
            proof {
                Self::lemma_remove_insert(pre, i as int, e);
                assert(self.executors@ =~= pre.update(i as int, e));
                assert(spec_out(out_pre).is_prefix_of(spec_out(out@)));
            }
            i = i + 1;
        }
        let ghost stack0 = spec_monitor_stack(self.monitor_stack@);
        let mut k: usize = 0;
        let m = self.monitor_stack.len();
        while k < m
            invariant
                m == self.monitor_stack@.len(),
                k <= m,
                forall|j: int|
                    0 <= j < self.monitor_stack@.len() ==> #[trigger] self.monitor_stack@[j].1
                        <= timestamp,
                self.core_id == old(self).core_id,
                spec_out(old(out)@).is_prefix_of(spec_out(out@)),
            decreases m - k,
        {
            let name = self.monitor_stack[k].0.clone();
            let start = self.monitor_stack[k].1;
            let ghost out_pre = out@;
            emit_monitor_complete(
                out,
                name,
                CORE_OVERVIEW_PID,
                self.core_id as u32 + 1,
                start,
                timestamp - start,
            );
            proof {
                assert(spec_out(out_pre).is_prefix_of(spec_out(out@)));
            }
            k = k + 1;
        }
        self.monitor_stack = Vec::new();
        emit_end(out, CORE_OVERVIEW_PID, Some(self.core_id as u32 + 1), timestamp);
        proof {
            assert(spec_out(old(out)@).is_prefix_of(spec_out(out@)));
        }
    }
}

} // verus!
