//! Wire protocol: tagged event payloads and their self-describing
//! serialization.
//!
//! Every record on the wire is `<time-delta> <event-header-byte> <payload>`.
//! The header byte packs a 5-bit event kind in its upper bits and a 3-bit
//! short executor ID in its lower bits. This module holds the shared
//! little-endian helpers and the decode error kinds; the payload families
//! live in the submodules.

use vstd::prelude::*;

use crate::buffer::{BufferReader, BufferWriter, BUFFER_CAPACITY};

pub mod event_payload;
pub mod monitor_value_payload;
pub mod typedef_payload;

pub use event_payload::EventPayload;
pub use monitor_value_payload::{MonitorTypeDirectory, MonitorValuePayload, MonitorValueType};
pub use typedef_payload::TypeDefinitionPayload;

verus! {

/// Why a decode attempt failed.
#[derive(Debug, Clone, Copy, PartialEq, Eq, Structural)]
pub enum DecodeError {
    /// Fewer bytes were available than the record requires; the bytes seen
    /// so far may be the prefix of a record still in flight.
    TruncatedInput,
    /// The event kind in the header byte is not part of the protocol.
    UnknownEventKind,
    /// The sub-kind byte of a type-definition record is not part of the
    /// protocol.
    UnknownTypeDefinition,
    /// A value sample referenced a monitor ID with no registered type.
    UnknownMonitor,
    /// A registered value type tag does not name a representable type.
    UnknownValueType,
    /// A field of the record holds a value the protocol does not allow.
    CorruptFrame,
}

/// The two little-endian bytes of a 16-bit value.
pub open spec fn spec_le2(v: u16) -> Seq<u8> {
    seq![(v & 0xFF) as u8, ((v >> 8) & 0xFF) as u8]
}

/// The four little-endian bytes of a 32-bit value.
pub open spec fn spec_le4(v: u32) -> Seq<u8> {
    seq![
        (v & 0xFF) as u8,
        ((v >> 8) & 0xFF) as u8,
        ((v >> 16) & 0xFF) as u8,
        ((v >> 24) & 0xFF) as u8,
    ]
}

/// The eight little-endian bytes of a 64-bit value.
pub open spec fn spec_le8(v: u64) -> Seq<u8> {
    seq![
        (v & 0xFF) as u8,
        ((v >> 8) & 0xFF) as u8,
        ((v >> 16) & 0xFF) as u8,
        ((v >> 24) & 0xFF) as u8,
        ((v >> 32) & 0xFF) as u8,
        ((v >> 40) & 0xFF) as u8,
        ((v >> 48) & 0xFF) as u8,
        ((v >> 56) & 0xFF) as u8,
    ]
}

/// The 16-bit value read from two little-endian bytes.
pub open spec fn spec_u16_of(b0: u8, b1: u8) -> u16 {
    (b0 as u16) | ((b1 as u16) << 8)
}

/// The 32-bit value read from four little-endian bytes.
pub open spec fn spec_u32_of(b0: u8, b1: u8, b2: u8, b3: u8) -> u32 {
    (b0 as u32) | ((b1 as u32) << 8) | ((b2 as u32) << 16) | ((b3 as u32) << 24)
}

/// The 64-bit value read from eight little-endian bytes.
pub open spec fn spec_u64_of(b0: u8, b1: u8, b2: u8, b3: u8, b4: u8, b5: u8, b6: u8, b7: u8) -> u64 {
    (b0 as u64) | ((b1 as u64) << 8) | ((b2 as u64) << 16) | ((b3 as u64) << 24) | ((b4 as u64)
        << 32) | ((b5 as u64) << 40) | ((b6 as u64) << 48) | ((b7 as u64) << 56)
}

/// Reading back the two little-endian bytes of a value recovers it.
pub proof fn lemma_le2_round_trip(v: u16)
    ensures
        spec_u16_of(spec_le2(v)[0], spec_le2(v)[1]) == v,
{
    assert(((v & 0xFF) as u8 as u16) | ((((v >> 8) & 0xFF) as u8 as u16) << 8) == v)
        by (bit_vector);
}

/// Reading back the four little-endian bytes of a value recovers it.
pub proof fn lemma_le4_round_trip(v: u32)
    ensures
        spec_u32_of(spec_le4(v)[0], spec_le4(v)[1], spec_le4(v)[2], spec_le4(v)[3]) == v,
{
    assert(((v & 0xFF) as u8 as u32) | ((((v >> 8) & 0xFF) as u8 as u32) << 8) | ((((v >> 16)
        & 0xFF) as u8 as u32) << 16) | ((((v >> 24) & 0xFF) as u8 as u32) << 24) == v)
        by (bit_vector);
}

/// Reading back the eight little-endian bytes of a value recovers it.
pub proof fn lemma_le8_round_trip(v: u64)
    ensures
        spec_u64_of(
            spec_le8(v)[0],
            spec_le8(v)[1],
            spec_le8(v)[2],
            spec_le8(v)[3],
            spec_le8(v)[4],
            spec_le8(v)[5],
            spec_le8(v)[6],
            spec_le8(v)[7],
        ) == v,
{
    assert(((v & 0xFF) as u8 as u64) | ((((v >> 8) & 0xFF) as u8 as u64) << 8) | ((((v >> 16)
        & 0xFF) as u8 as u64) << 16) | ((((v >> 24) & 0xFF) as u8 as u64) << 24) | ((((v >> 32)
        & 0xFF) as u8 as u64) << 32) | ((((v >> 40) & 0xFF) as u8 as u64) << 40) | ((((v >> 48)
        & 0xFF) as u8 as u64) << 48) | ((((v >> 56) & 0xFF) as u8 as u64) << 56) == v)
        by (bit_vector);
}

/// Append a 16-bit value in little-endian order.
pub(crate) fn write_u16_le(writer: &mut BufferWriter, v: u16)
    requires
        old(writer)@.len() + 2 <= BUFFER_CAPACITY,
    ensures
        final(writer)@ == old(writer)@ + spec_le2(v),
{
    writer.write_byte((v & 0xFF) as u8);
    writer.write_byte(((v >> 8) & 0xFF) as u8);
    assert(writer@ =~= old(writer)@ + spec_le2(v));
}

/// Append a 32-bit value in little-endian order.
pub(crate) fn write_u32_le(writer: &mut BufferWriter, v: u32)
    requires
        old(writer)@.len() + 4 <= BUFFER_CAPACITY,
    ensures
        final(writer)@ == old(writer)@ + spec_le4(v),
{
    writer.write_byte((v & 0xFF) as u8);
    writer.write_byte(((v >> 8) & 0xFF) as u8);
    writer.write_byte(((v >> 16) & 0xFF) as u8);
    writer.write_byte(((v >> 24) & 0xFF) as u8);
    assert(writer@ =~= old(writer)@ + spec_le4(v));
}

/// Append a 64-bit value in little-endian order.
pub(crate) fn write_u64_le(writer: &mut BufferWriter, v: u64)
    requires
        old(writer)@.len() + 8 <= BUFFER_CAPACITY,
    ensures
        final(writer)@ == old(writer)@ + spec_le8(v),
{
    writer.write_byte((v & 0xFF) as u8);
    writer.write_byte(((v >> 8) & 0xFF) as u8);
    writer.write_byte(((v >> 16) & 0xFF) as u8);
    writer.write_byte(((v >> 24) & 0xFF) as u8);
    writer.write_byte(((v >> 32) & 0xFF) as u8);
    writer.write_byte(((v >> 40) & 0xFF) as u8);
    writer.write_byte(((v >> 48) & 0xFF) as u8);
    writer.write_byte(((v >> 56) & 0xFF) as u8);
    assert(writer@ =~= old(writer)@ + spec_le8(v));
}

/// Read a 16-bit little-endian value, or yield nothing on truncated input.
pub(crate) fn read_u16_le(reader: &mut BufferReader) -> (r: Option<u16>)
    requires
        old(reader).wf(),
    ensures
        final(reader)@ == old(reader)@,
        final(reader).wf(),
        match r {
            Some(v) => {
                &&& old(reader).spec_position() + 2 <= old(reader)@.len()
                &&& v == spec_u16_of(
                    old(reader)@[old(reader).spec_position()],
                    old(reader)@[old(reader).spec_position() + 1],
                )
                &&& final(reader).spec_position() == old(reader).spec_position() + 2
            },
            None => {
                &&& old(reader)@.len() < old(reader).spec_position() + 2
                &&& final(reader).spec_position() >= old(reader).spec_position()
            },
        },
{
    let b0 = match reader.read_byte() {
        Some(b) => b,
        None => {
            return None;
        },
    };
    let b1 = match reader.read_byte() {
        Some(b) => b,
        None => {
            return None;
        },
    };
    Some((b0 as u16) | ((b1 as u16) << 8))
}

/// Read a 32-bit little-endian value, or yield nothing on truncated input.
pub(crate) fn read_u32_le(reader: &mut BufferReader) -> (r: Option<u32>)
    requires
        old(reader).wf(),
    ensures
        final(reader)@ == old(reader)@,
        final(reader).wf(),
        match r {
            Some(v) => {
                &&& old(reader).spec_position() + 4 <= old(reader)@.len()
                &&& v == spec_u32_of(
                    old(reader)@[old(reader).spec_position()],
                    old(reader)@[old(reader).spec_position() + 1],
                    old(reader)@[old(reader).spec_position() + 2],
                    old(reader)@[old(reader).spec_position() + 3],
                )
                &&& final(reader).spec_position() == old(reader).spec_position() + 4
            },
            None => {
                &&& old(reader)@.len() < old(reader).spec_position() + 4
                &&& final(reader).spec_position() >= old(reader).spec_position()
            },
        },
{
    let b0 = match reader.read_byte() {
        Some(b) => b,
        None => {
            return None;
        },
    };
    let b1 = match reader.read_byte() {
        Some(b) => b,
        None => {
            return None;
        },
    };
    let b2 = match reader.read_byte() {
        Some(b) => b,
        None => {
            return None;
        },
    };
    let b3 = match reader.read_byte() {
        Some(b) => b,
        None => {
            return None;
        },
    };
    Some((b0 as u32) | ((b1 as u32) << 8) | ((b2 as u32) << 16) | ((b3 as u32) << 24))
}

/// Read a 64-bit little-endian value, or yield nothing on truncated input.
pub(crate) fn read_u64_le(reader: &mut BufferReader) -> (r: Option<u64>)
    requires
        old(reader).wf(),
    ensures
        final(reader)@ == old(reader)@,
        final(reader).wf(),
        match r {
            Some(v) => {
                &&& old(reader).spec_position() + 8 <= old(reader)@.len()
                &&& v == spec_u64_of(
                    old(reader)@[old(reader).spec_position()],
                    old(reader)@[old(reader).spec_position() + 1],
                    old(reader)@[old(reader).spec_position() + 2],
                    old(reader)@[old(reader).spec_position() + 3],
                    old(reader)@[old(reader).spec_position() + 4],
                    old(reader)@[old(reader).spec_position() + 5],
                    old(reader)@[old(reader).spec_position() + 6],
                    old(reader)@[old(reader).spec_position() + 7],
                )
                &&& final(reader).spec_position() == old(reader).spec_position() + 8
            },
            None => {
                &&& old(reader)@.len() < old(reader).spec_position() + 8
                &&& final(reader).spec_position() >= old(reader).spec_position()
            },
        },
{
    let lo = match read_u32_le(reader) {
        Some(v) => v,
        None => {
            return None;
        },
    };
    let hi = match read_u32_le(reader) {
        Some(v) => v,
        None => {
            return None;
        },
    };
    let r = (lo as u64) | ((hi as u64) << 32);
    proof {
        let p = old(reader).spec_position();
        let b = old(reader)@;
        assert((spec_u32_of(b[p], b[p + 1], b[p + 2], b[p + 3]) as u64) | ((spec_u32_of(
            b[p + 4],
            b[p + 5],
            b[p + 6],
            b[p + 7],
        ) as u64) << 32) == spec_u64_of(
            b[p],
            b[p + 1],
            b[p + 2],
            b[p + 3],
            b[p + 4],
            b[p + 5],
            b[p + 6],
            b[p + 7],
        )) by {
            let x0 = b[p];
            let x1 = b[p + 1];
            let x2 = b[p + 2];
            let x3 = b[p + 3];
            let x4 = b[p + 4];
            let x5 = b[p + 5];
            let x6 = b[p + 6];
            let x7 = b[p + 7];
            assert((((x0 as u32) | ((x1 as u32) << 8) | ((x2 as u32) << 16) | ((x3 as u32) << 24))
                as u64) | ((((x4 as u32) | ((x5 as u32) << 8) | ((x6 as u32) << 16) | ((x7 as u32)
                << 24)) as u64) << 32) == ((x0 as u64) | ((x1 as u64) << 8) | ((x2 as u64) << 16)
                | ((x3 as u64) << 24) | ((x4 as u64) << 32) | ((x5 as u64) << 40) | ((x6 as u64)
                << 48) | ((x7 as u64) << 56))) by (bit_vector);
        }
    }
    Some(r)
}

} // verus!
