//! Tracing and profiling support for embedded asynchronous runtimes.
//!
//! The crate has three layers: the wire protocol with its bit-level codec
//! (time deltas, event payloads, type definitions), the target-side
//! registries and emission path, and the host-side decoder together with the
//! reconstruction engine that rebuilds per-core scheduling state machines and
//! emits drawable trace events.

use vstd::prelude::*;

pub mod ascii;
pub mod buffer;
pub mod core_tracing;
pub mod defmt_line;
pub mod defmt_log_level;
pub mod decoder;
pub mod elf_map;
pub mod emitter;
pub mod embassy_time;
pub mod errors;
pub mod executor;
pub mod instance;
pub mod log_line;
pub mod protocol;
pub mod registry;
pub mod strfmt;
pub mod task;
pub mod time_delta;
pub mod trace_event;
pub mod tracing;

verus! {

/// Derives the 16-bit wire task ID from a 32-bit task address: the two
/// alignment bits are shifted out and the upper half is XOR-folded into the
/// lower half.
pub open spec fn spec_compressed_task_id(task_id: u32) -> u16 {
    (((task_id >> 2) ^ ((task_id >> 2) >> 16)) & 0xFFFF) as u16
}

/// Compress a 32-bit task address into the 16-bit task ID used on the wire.
pub fn compressed_task_id(task_id: u32) -> (r: u16)
    ensures
        r == spec_compressed_task_id(task_id),
{
    let shifted = task_id >> 2;
    let folded = (shifted ^ (shifted >> 16)) & 0xFFFF;
    folded as u16
}

} // verus!
