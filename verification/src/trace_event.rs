//! Drawable trace records handed to the trace sink.
//!
//! The reconstruction engine publishes immutable records in the Chrome
//! trace-event vocabulary: Begin/End bracket a state on a lane, Complete is
//! a closed span with a duration, Counter is a numeric sample, Instant a
//! point event, and Metadata names processes and threads. Process IDs
//! encode identity: executor short IDs map to their own pid, the core
//! overview lane and the value-monitor lane use the two reserved top pids.

use vstd::prelude::*;

use crate::protocol::MonitorValuePayload;
use vstd::string::StringExecFns;

verus! {

/// The pid of the synthetic "Core Overview" process.
pub const CORE_OVERVIEW_PID: u32 = 0xFFFF_FFFE;

/// The pid shared by all value monitors.
pub const VALUE_MONITOR_PID: u32 = 0xFFFF_FFFF;

/// Where an instant event is drawn.
#[derive(Debug, Clone, Copy, PartialEq, Eq, Structural)]
pub enum InstantScope {
    Thread,
    Process,
    Global,
}

/// The colour name attached to an instant event.
#[derive(Debug, Clone, Copy, PartialEq, Eq, Structural)]
pub enum CName {
    Good,
    Terrible,
}

/// Extra key-value arguments on a record.
pub type TracingArgs = Vec<(String, String)>;

/// One record for the trace sink.
#[derive(Debug, Clone, PartialEq)]
pub enum TracingEvent {
    /// A closed span: `ts` to `ts + dur` on lane (`pid`, `tid`).
    Complete {
        name: String,
        cat: Option<String>,
        pid: u32,
        tid: u32,
        ts: u64,
        dur: u64,
        args: TracingArgs,
    },
    /// A state opens on a lane.
    Begin { name: String, cat: Option<String>, ts: u64, pid: u32, tid: Option<u32>, args: TracingArgs },
    /// The innermost open state on a lane closes.
    End { name: Option<String>, cat: Option<String>, pid: u32, tid: Option<u32>, ts: u64, args: TracingArgs },
    /// A point event.
    Instant {
        name: String,
        cat: Option<String>,
        ts: u64,
        pid: Option<u32>,
        tid: Option<u32>,
        scope: InstantScope,
        args: TracingArgs,
        cname: CName,
    },
    /// A numeric sample on the value-monitor lane.
    Counter { name: String, cat: Option<String>, pid: Option<u32>, ts: u64, value: MonitorValuePayload },
    /// Names a process or a thread.
    Metadata { name: String, cat: Option<String>, pid: u32, tid: Option<u32>, args: TracingArgs },
}

/// The mathematical image of a record: names as character sequences.
#[verifier::ext_equal]
pub enum TraceEventView {
    Complete {
        name: Seq<char>,
        cat: Option<Seq<char>>,
        pid: u32,
        tid: u32,
        ts: u64,
        dur: u64,
    },
    Begin { name: Seq<char>, cat: Option<Seq<char>>, ts: u64, pid: u32, tid: Option<u32> },
    End { name: Option<Seq<char>>, cat: Option<Seq<char>>, pid: u32, tid: Option<u32>, ts: u64 },
    Instant {
        name: Seq<char>,
        cat: Option<Seq<char>>,
        ts: u64,
        pid: Option<u32>,
        tid: Option<u32>,
        scope: InstantScope,
        cname: CName,
    },
    Counter { name: Seq<char>, pid: Option<u32>, ts: u64, value: MonitorValuePayload },
    Metadata {
        name: Seq<char>,
        cat: Option<Seq<char>>,
        pid: u32,
        tid: Option<u32>,
        args: Seq<(Seq<char>, Seq<char>)>,
    },
}

/// The view of an optional string.
pub open spec fn spec_opt_chars(s: Option<String>) -> Option<Seq<char>> {
    match s {
        Some(s) => Some(s@),
        None => None,
    }
}

impl View for TracingEvent {
    type V = TraceEventView;

    open spec fn view(&self) -> TraceEventView {
        match self {
            TracingEvent::Complete { name, cat, pid, tid, ts, dur, .. } => {
                TraceEventView::Complete {
                    name: name@,
                    cat: spec_opt_chars(*cat),
                    pid: *pid,
                    tid: *tid,
                    ts: *ts,
                    dur: *dur,
                }
            },
            TracingEvent::Begin { name, cat, ts, pid, tid, .. } => TraceEventView::Begin {
                name: name@,
                cat: spec_opt_chars(*cat),
                ts: *ts,
                pid: *pid,
                tid: *tid,
            },
            TracingEvent::End { name, cat, pid, tid, ts, .. } => TraceEventView::End {
                name: spec_opt_chars(*name),
                cat: spec_opt_chars(*cat),
                pid: *pid,
                tid: *tid,
                ts: *ts,
            },
            TracingEvent::Instant { name, cat, ts, pid, tid, scope, cname, .. } => {
                TraceEventView::Instant {
                    name: name@,
                    cat: spec_opt_chars(*cat),
                    ts: *ts,
                    pid: *pid,
                    tid: *tid,
                    scope: *scope,
                    cname: *cname,
                }
            },
            TracingEvent::Counter { name, pid, ts, value, .. } => TraceEventView::Counter {
                name: name@,
                pid: *pid,
                ts: *ts,
                value: *value,
            },
            TracingEvent::Metadata { name, cat, pid, tid, args } => TraceEventView::Metadata {
                name: name@,
                cat: spec_opt_chars(*cat),
                pid: *pid,
                tid: *tid,
                args: args@.map_values(|kv: (String, String)| (kv.0@, kv.1@)),
            },
        }
    }
}

/// The views of a sequence of records.
pub open spec fn spec_out(events: Seq<TracingEvent>) -> Seq<TraceEventView> {
    events.map_values(|e: TracingEvent| e@)
}

/// A sequence begins every extension of itself.
pub broadcast proof fn lemma_prefix_of_concat(a: Seq<TraceEventView>, c: Seq<TraceEventView>)
    ensures
        #[trigger] a.is_prefix_of(a + c),
{
    assert((a + c).subrange(0, a.len() as int) =~= a);
}

/// A prefix pins the records it covers.
pub proof fn lemma_prefix_index(a: Seq<TraceEventView>, b: Seq<TraceEventView>, k: int)
    requires
        a.is_prefix_of(b),
        0 <= k < a.len(),
    ensures
        b[k] == a[k],
{
    assert(a[k] == b.subrange(0, a.len() as int)[k]);
}

/// Being a prefix is transitive.
pub proof fn lemma_prefix_trans(a: Seq<TraceEventView>, b: Seq<TraceEventView>, c: Seq<TraceEventView>)
    requires
        a.is_prefix_of(b),
        b.is_prefix_of(c),
    ensures
        a.is_prefix_of(c),
{
    assert(c.subrange(0, a.len() as int) =~= b.subrange(0, a.len() as int)) by {
        assert forall|i: int| 0 <= i < a.len() implies c.subrange(0, a.len() as int)[i]
            == b.subrange(0, a.len() as int)[i] by {
            assert(b.subrange(0, b.len() as int) =~= b);
            assert(c.subrange(0, b.len() as int)[i] == c[i]);
        }
    }
}

/// Every sequence begins with itself.
pub broadcast proof fn lemma_prefix_refl(a: Seq<TraceEventView>)
    ensures
        #[trigger] a.is_prefix_of(a),
{
    assert(a.subrange(0, a.len() as int) =~= a);
}

/// Emit a bare End record: the innermost open state on the lane closes.
pub fn emit_end(out: &mut Vec<TracingEvent>, pid: u32, tid: Option<u32>, ts: u64)
    ensures
        spec_out(final(out)@) == spec_out(old(out)@) + seq![
            TraceEventView::End { name: None, cat: None, pid, tid, ts },
        ],
{
    let ghost pre = out@;
    out.push(TracingEvent::End { name: None, cat: None, pid, tid, ts, args: Vec::new() });
    proof {
        assert(spec_out(out@) =~= spec_out(pre) + seq![
            TraceEventView::End { name: None, cat: None, pid, tid, ts },
        ]);
    }
}

/// Emit an End record naming the state that closes.
pub fn emit_end_named(out: &mut Vec<TracingEvent>, name: String, pid: u32, tid: Option<u32>, ts: u64)
    ensures
        spec_out(final(out)@) == spec_out(old(out)@) + seq![
            TraceEventView::End { name: Some(name@), cat: None, pid, tid, ts },
        ],
{
    let ghost pre = out@;
    let ghost name_view = name@;
    out.push(TracingEvent::End { name: Some(name), cat: None, pid, tid, ts, args: Vec::new() });
    proof {
        assert(spec_out(out@) =~= spec_out(pre) + seq![
            TraceEventView::End { name: Some(name_view), cat: None, pid, tid, ts },
        ]);
    }
}

/// Emit a Begin record: a state named `name` opens on the lane.
pub fn emit_begin(out: &mut Vec<TracingEvent>, name: String, pid: u32, tid: Option<u32>, ts: u64)
    ensures
        spec_out(final(out)@) == spec_out(old(out)@) + seq![
            TraceEventView::Begin { name: name@, cat: None, ts, pid, tid },
        ],
{
    let ghost pre = out@;
    let ghost name_view = name@;
    out.push(TracingEvent::Begin { name, cat: None, ts, pid, tid, args: Vec::new() });
    proof {
        assert(spec_out(out@) =~= spec_out(pre) + seq![
            TraceEventView::Begin { name: name_view, cat: None, ts, pid, tid },
        ]);
    }
}

/// Emit a Complete record for a finished code-monitor span.
pub fn emit_monitor_complete(out: &mut Vec<TracingEvent>, name: String, pid: u32, tid: u32, ts: u64, dur: u64)
    ensures
        spec_out(final(out)@) == spec_out(old(out)@) + seq![
            TraceEventView::Complete {
                name: name@,
                cat: Some("code_monitor"@),
                pid,
                tid,
                ts,
                dur,
            },
        ],
{
    let ghost pre = out@;
    let ghost name_view = name@;
    let cat = String::from_str("code_monitor");
    out.push(
        TracingEvent::Complete { name, cat: Some(cat), pid, tid, ts, dur, args: Vec::new() },
    );
    proof {
        assert(spec_out(out@) =~= spec_out(pre) + seq![
            TraceEventView::Complete {
                name: name_view,
                cat: Some("code_monitor"@),
                pid,
                tid,
                ts,
                dur,
            },
        ]);
    }
}

} // verus!
