//! Errors the reconstruction engine reports.
//!
//! An illegal transition is a local error: the engine refuses the
//! transition, leaves its state as it was, and surfaces the error to the
//! caller, which may choose to desynchronize the affected core.

use vstd::prelude::*;

verus! {

/// Why the engine refused an event.
#[derive(Debug, Clone, Copy, PartialEq, Eq, Structural)]
pub enum TraceError {
    /// A task was told to become ready in a state that cannot become ready.
    TaskNotReadyable { task_id: u16 },
    /// A task that is not ready was told to begin execution.
    TaskNotReady { task_id: u16 },
    /// A task that is not running was told to end execution.
    TaskNotRunningOnExecEnd { task_id: u16 },
    /// A task that is not running was told to end.
    TaskNotRunningOnEnd { task_id: u16 },
    /// A task that is not running was preempted.
    TaskNotRunningOnPreempt { task_id: u16 },
    /// A task that is not preempted was resumed.
    TaskNotPreempted { task_id: u16 },
    /// An executor was told to begin a task while another task runs.
    ExecutorBusy { executor_id: u8, task_id: u16 },
    /// An executor outside its polling state was told to end a task's
    /// execution.
    ExecutorNotPolling { executor_id: u8 },
    /// An executor that is neither scheduling nor polling was preempted.
    ExecutorNotRunningOnPreempt { executor_id: u8 },
    /// An executor that is not preempted was resumed.
    ExecutorNotPreempted { executor_id: u8 },
}

} // verus!
