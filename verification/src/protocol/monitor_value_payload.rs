//! Payloads of value-monitor samples.
//!
//! A value monitor is a named numeric channel. Each sample carries one of
//! eight scalar types; the type is fixed when the monitor is registered and
//! the sample bytes on the wire are just the little-endian scalar, so a
//! decoder needs the registered type to read a sample back.

use vstd::prelude::*;

use crate::buffer::{BufferReader, BufferWriter, BUFFER_CAPACITY};
use crate::protocol::{
    lemma_le2_round_trip, lemma_le4_round_trip, lemma_le8_round_trip, read_u16_le, read_u32_le,
    read_u64_le, spec_le2, spec_le4, spec_le8, spec_u16_of, spec_u32_of, spec_u64_of, write_u16_le,
    write_u32_le, write_u64_le, DecodeError,
};

verus! {

/// One numeric sample reported by a value monitor.
#[derive(Debug, Clone, Copy, PartialEq, Eq, Structural)]
pub enum MonitorValuePayload {
    U8(u8),
    U16(u16),
    U32(u32),
    U64(u64),
    I8(i8),
    I16(i16),
    I32(i32),
    I64(i64),
}

/// The wire type tag of a sample.
pub open spec fn spec_value_type_id(v: MonitorValuePayload) -> u8 {
    match v {
        MonitorValuePayload::U8(_) => 0,
        MonitorValuePayload::U16(_) => 1,
        MonitorValuePayload::U32(_) => 2,
        MonitorValuePayload::U64(_) => 3,
        MonitorValuePayload::I8(_) => 4,
        MonitorValuePayload::I16(_) => 5,
        MonitorValuePayload::I32(_) => 6,
        MonitorValuePayload::I64(_) => 7,
    }
}

/// The wire bytes of a sample: the scalar in little-endian order.
pub open spec fn spec_value_bytes(v: MonitorValuePayload) -> Seq<u8> {
    match v {
        MonitorValuePayload::U8(x) => seq![x],
        MonitorValuePayload::U16(x) => spec_le2(x),
        MonitorValuePayload::U32(x) => spec_le4(x),
        MonitorValuePayload::U64(x) => spec_le8(x),
        MonitorValuePayload::I8(x) => seq![x as u8],
        MonitorValuePayload::I16(x) => spec_le2(x as u16),
        MonitorValuePayload::I32(x) => spec_le4(x as u32),
        MonitorValuePayload::I64(x) => spec_le8(x as u64),
    }
}

/// Reading a sample of the given registered type from the front of `bytes`:
/// the sample and the number of bytes consumed, a truncated-input failure
/// when too few bytes are available, or an unknown-value-type failure when
/// the tag names no representable type.
pub open spec fn spec_read_value(type_id: u8, bytes: Seq<u8>) -> Result<
    (MonitorValuePayload, int),
    DecodeError,
> {
    if type_id == 0 {
        if bytes.len() >= 1 {
            Ok((MonitorValuePayload::U8(bytes[0]), 1))
        } else {
            Err(DecodeError::TruncatedInput)
        }
    } else if type_id == 1 {
        if bytes.len() >= 2 {
            Ok((MonitorValuePayload::U16(spec_u16_of(bytes[0], bytes[1])), 2))
        } else {
            Err(DecodeError::TruncatedInput)
        }
    } else if type_id == 2 {
        if bytes.len() >= 4 {
            Ok((MonitorValuePayload::U32(spec_u32_of(bytes[0], bytes[1], bytes[2], bytes[3])), 4))
        } else {
            Err(DecodeError::TruncatedInput)
        }
    } else if type_id == 3 {
        if bytes.len() >= 8 {
            Ok(
                (
                    MonitorValuePayload::U64(
                        spec_u64_of(
                            bytes[0],
                            bytes[1],
                            bytes[2],
                            bytes[3],
                            bytes[4],
                            bytes[5],
                            bytes[6],
                            bytes[7],
                        ),
                    ),
                    8,
                ),
            )
        } else {
            Err(DecodeError::TruncatedInput)
        }
    } else if type_id == 4 {
        if bytes.len() >= 1 {
            Ok((MonitorValuePayload::I8(bytes[0] as i8), 1))
        } else {
            Err(DecodeError::TruncatedInput)
        }
    } else if type_id == 5 {
        if bytes.len() >= 2 {
            Ok((MonitorValuePayload::I16(spec_u16_of(bytes[0], bytes[1]) as i16), 2))
        } else {
            Err(DecodeError::TruncatedInput)
        }
    } else if type_id == 6 {
        if bytes.len() >= 4 {
            Ok(
                (
                    MonitorValuePayload::I32(
                        spec_u32_of(bytes[0], bytes[1], bytes[2], bytes[3]) as i32,
                    ),
                    4,
                ),
            )
        } else {
            Err(DecodeError::TruncatedInput)
        }
    } else if type_id == 7 {
        if bytes.len() >= 8 {
            Ok(
                (
                    MonitorValuePayload::I64(
                        spec_u64_of(
                            bytes[0],
                            bytes[1],
                            bytes[2],
                            bytes[3],
                            bytes[4],
                            bytes[5],
                            bytes[6],
                            bytes[7],
                        ) as i64,
                    ),
                    8,
                ),
            )
        } else {
            Err(DecodeError::TruncatedInput)
        }
    } else {
        Err(DecodeError::UnknownValueType)
    }
}

/// Sample round trip: reading a sample's bytes back under its own type tag
/// recovers the sample and consumes exactly its encoding.
pub proof fn lemma_value_round_trip(v: MonitorValuePayload, rest: Seq<u8>)
    ensures
        spec_read_value(spec_value_type_id(v), spec_value_bytes(v) + rest) == Ok::<
            _,
            DecodeError,
        >((v, spec_value_bytes(v).len() as int)),
{
    let all = spec_value_bytes(v) + rest;
    match v {
        MonitorValuePayload::U8(x) => {
            assert(all[0] == x);
        },
        MonitorValuePayload::U16(x) => {
            assert(all[0] == spec_le2(x)[0] && all[1] == spec_le2(x)[1]);
            lemma_le2_round_trip(x);
        },
        MonitorValuePayload::U32(x) => {
            assert(forall|i: int| 0 <= i < 4 ==> all[i] == spec_le4(x)[i]);
            lemma_le4_round_trip(x);
        },
        MonitorValuePayload::U64(x) => {
            assert(forall|i: int| 0 <= i < 8 ==> all[i] == spec_le8(x)[i]);
            lemma_le8_round_trip(x);
        },
        MonitorValuePayload::I8(x) => {
            assert(all[0] == (x as u8));
            assert((x as u8) as i8 == x) by (bit_vector);
        },
        MonitorValuePayload::I16(x) => {
            assert(all[0] == spec_le2(x as u16)[0] && all[1] == spec_le2(x as u16)[1]);
            lemma_le2_round_trip(x as u16);
            assert((x as u16) as i16 == x) by (bit_vector);
        },
        MonitorValuePayload::I32(x) => {
            assert(forall|i: int| 0 <= i < 4 ==> all[i] == spec_le4(x as u32)[i]);
            lemma_le4_round_trip(x as u32);
            assert((x as u32) as i32 == x) by (bit_vector);
        },
        MonitorValuePayload::I64(x) => {
            assert(forall|i: int| 0 <= i < 8 ==> all[i] == spec_le8(x as u64)[i]);
            lemma_le8_round_trip(x as u64);
            assert((x as u64) as i64 == x) by (bit_vector);
        },
    }
}

impl MonitorValuePayload {
    /// The wire type tag of this sample.
    pub fn type_id(&self) -> (r: u8)
        ensures
            r == spec_value_type_id(*self),
    {
        match self {
            MonitorValuePayload::U8(_) => 0,
            MonitorValuePayload::U16(_) => 1,
            MonitorValuePayload::U32(_) => 2,
            MonitorValuePayload::U64(_) => 3,
            MonitorValuePayload::I8(_) => 4,
            MonitorValuePayload::I16(_) => 5,
            MonitorValuePayload::I32(_) => 6,
            MonitorValuePayload::I64(_) => 7,
        }
    }

    /// The sample's wire bytes, little-endian.
    pub fn data_bytes(&self) -> (r: Vec<u8>)
        ensures
            r@ == spec_value_bytes(*self),
    {
        let mut out: Vec<u8> = Vec::new();
        match self {
            MonitorValuePayload::U8(x) => {
                out.push(*x);
            },
            MonitorValuePayload::U16(x) => {
                out.push((*x & 0xFF) as u8);
                out.push(((*x >> 8) & 0xFF) as u8);
            },
            MonitorValuePayload::U32(x) => {
                out.push((*x & 0xFF) as u8);
                out.push(((*x >> 8) & 0xFF) as u8);
                out.push(((*x >> 16) & 0xFF) as u8);
                out.push(((*x >> 24) & 0xFF) as u8);
            },
            MonitorValuePayload::U64(x) => {
                out.push((*x & 0xFF) as u8);
                out.push(((*x >> 8) & 0xFF) as u8);
                out.push(((*x >> 16) & 0xFF) as u8);
                out.push(((*x >> 24) & 0xFF) as u8);
                out.push(((*x >> 32) & 0xFF) as u8);
                out.push(((*x >> 40) & 0xFF) as u8);
                out.push(((*x >> 48) & 0xFF) as u8);
                out.push(((*x >> 56) & 0xFF) as u8);
            },
            MonitorValuePayload::I8(x) => {
                out.push(*x as u8);
            },
            MonitorValuePayload::I16(x) => {
                let v = *x as u16;
                out.push((v & 0xFF) as u8);
                out.push(((v >> 8) & 0xFF) as u8);
            },
            MonitorValuePayload::I32(x) => {
                let v = *x as u32;
                out.push((v & 0xFF) as u8);
                out.push(((v >> 8) & 0xFF) as u8);
                out.push(((v >> 16) & 0xFF) as u8);
                out.push(((v >> 24) & 0xFF) as u8);
            },
            MonitorValuePayload::I64(x) => {
                let v = *x as u64;
                out.push((v & 0xFF) as u8);
                out.push(((v >> 8) & 0xFF) as u8);
                out.push(((v >> 16) & 0xFF) as u8);
                out.push(((v >> 24) & 0xFF) as u8);
                out.push(((v >> 32) & 0xFF) as u8);
                out.push(((v >> 40) & 0xFF) as u8);
                out.push(((v >> 48) & 0xFF) as u8);
                out.push(((v >> 56) & 0xFF) as u8);
            },
        }
        assert(out@ =~= spec_value_bytes(*self));
        out
    }

    /// Append the sample's wire bytes to the writer.
    pub fn write_bytes(&self, writer: &mut BufferWriter)
        requires
            old(writer)@.len() + spec_value_bytes(*self).len() <= BUFFER_CAPACITY,
        ensures
            final(writer)@ == old(writer)@ + spec_value_bytes(*self),
    {
        match self {
            MonitorValuePayload::U8(x) => {
                writer.write_byte(*x);
                assert(writer@ =~= old(writer)@ + spec_value_bytes(*self));
            },
            MonitorValuePayload::U16(x) => {
                write_u16_le(writer, *x);
            },
            MonitorValuePayload::U32(x) => {
                write_u32_le(writer, *x);
            },
            MonitorValuePayload::U64(x) => {
                write_u64_le(writer, *x);
            },
            MonitorValuePayload::I8(x) => {
                writer.write_byte(*x as u8);
                assert(writer@ =~= old(writer)@ + spec_value_bytes(*self));
            },
            MonitorValuePayload::I16(x) => {
                write_u16_le(writer, *x as u16);
            },
            MonitorValuePayload::I32(x) => {
                write_u32_le(writer, *x as u32);
            },
            MonitorValuePayload::I64(x) => {
                write_u64_le(writer, *x as u64);
            },
        }
    }

    /// Read a sample of the given registered type from the reader.
    pub fn from_bytes(type_id: u8, reader: &mut BufferReader) -> (r: Result<
        MonitorValuePayload,
        DecodeError,
    >)
        requires
            old(reader).wf(),
        ensures
            final(reader)@ == old(reader)@,
            final(reader).wf(),
            final(reader).spec_position() >= old(reader).spec_position(),
            ({
                let rem = old(reader)@.subrange(old(reader).spec_position(), old(reader)@.len() as int);
                match r {
                    Ok(v) => spec_read_value(type_id, rem) == Ok::<_, DecodeError>(
                        (v, final(reader).spec_position() - old(reader).spec_position()),
                    ),
                    Err(e) => spec_read_value(type_id, rem) is Err && spec_read_value(type_id, rem)
                        == Err::<(MonitorValuePayload, int), _>(e),
                }
            }),
    {
        let ghost rem = old(reader)@.subrange(old(reader).spec_position(), old(reader)@.len() as int);
        match type_id {
            0 => {
                match reader.read_byte() {
                    Some(b) => Ok(MonitorValuePayload::U8(b)),
                    None => Err(DecodeError::TruncatedInput),
                }
            },
            1 => {
                match read_u16_le(reader) {
                    Some(v) => Ok(MonitorValuePayload::U16(v)),
                    None => Err(DecodeError::TruncatedInput),
                }
            },
            2 => {
                match read_u32_le(reader) {
                    Some(v) => Ok(MonitorValuePayload::U32(v)),
                    None => Err(DecodeError::TruncatedInput),
                }
            },
            3 => {
                match read_u64_le(reader) {
                    Some(v) => Ok(MonitorValuePayload::U64(v)),
                    None => Err(DecodeError::TruncatedInput),
                }
            },
            4 => {
                match reader.read_byte() {
                    Some(b) => Ok(MonitorValuePayload::I8(b as i8)),
                    None => Err(DecodeError::TruncatedInput),
                }
            },
            5 => {
                match read_u16_le(reader) {
                    Some(v) => Ok(MonitorValuePayload::I16(v as i16)),
                    None => Err(DecodeError::TruncatedInput),
                }
            },
            6 => {
                match read_u32_le(reader) {
                    Some(v) => Ok(MonitorValuePayload::I32(v as i32)),
                    None => Err(DecodeError::TruncatedInput),
                }
            },
            7 => {
                match read_u64_le(reader) {
                    Some(v) => Ok(MonitorValuePayload::I64(v as i64)),
                    None => Err(DecodeError::TruncatedInput),
                }
            },
            _ => Err(DecodeError::UnknownValueType),
        }
    }
}

/// Numeric types that can be sampled by a value monitor.
pub trait MonitorValueType {
    /// The sample this value turns into.
    spec fn spec_payload(&self) -> MonitorValuePayload;

    /// Wrap the value in its sample payload.
    fn to_payload(&self) -> (r: MonitorValuePayload)
        ensures
            r == self.spec_payload(),
    ;

    /// The wire type tag of this value's type.
    fn get_monitor_value_type_id(&self) -> (r: u8)
        ensures
            r == spec_value_type_id(self.spec_payload()),
    ;
}

impl MonitorValueType for u8 {
    open spec fn spec_payload(&self) -> MonitorValuePayload {
        MonitorValuePayload::U8(*self)
    }

    fn to_payload(&self) -> MonitorValuePayload {
        MonitorValuePayload::U8(*self)
    }

    fn get_monitor_value_type_id(&self) -> u8 {
        0
    }
}

impl MonitorValueType for u16 {
    open spec fn spec_payload(&self) -> MonitorValuePayload {
        MonitorValuePayload::U16(*self)
    }

    fn to_payload(&self) -> MonitorValuePayload {
        MonitorValuePayload::U16(*self)
    }

    fn get_monitor_value_type_id(&self) -> u8 {
        1
    }
}

impl MonitorValueType for u32 {
    open spec fn spec_payload(&self) -> MonitorValuePayload {
        MonitorValuePayload::U32(*self)
    }

    fn to_payload(&self) -> MonitorValuePayload {
        MonitorValuePayload::U32(*self)
    }

    fn get_monitor_value_type_id(&self) -> u8 {
        2
    }
}

impl MonitorValueType for u64 {
    open spec fn spec_payload(&self) -> MonitorValuePayload {
        MonitorValuePayload::U64(*self)
    }

    fn to_payload(&self) -> MonitorValuePayload {
        MonitorValuePayload::U64(*self)
    }

    fn get_monitor_value_type_id(&self) -> u8 {
        3
    }
}

impl MonitorValueType for i8 {
    open spec fn spec_payload(&self) -> MonitorValuePayload {
        MonitorValuePayload::I8(*self)
    }

    fn to_payload(&self) -> MonitorValuePayload {
        MonitorValuePayload::I8(*self)
    }

    fn get_monitor_value_type_id(&self) -> u8 {
        4
    }
}

impl MonitorValueType for i16 {
    open spec fn spec_payload(&self) -> MonitorValuePayload {
        MonitorValuePayload::I16(*self)
    }

    fn to_payload(&self) -> MonitorValuePayload {
        MonitorValuePayload::I16(*self)
    }

    fn get_monitor_value_type_id(&self) -> u8 {
        5
    }
}

impl MonitorValueType for i32 {
    open spec fn spec_payload(&self) -> MonitorValuePayload {
        MonitorValuePayload::I32(*self)
    }

    fn to_payload(&self) -> MonitorValuePayload {
        MonitorValuePayload::I32(*self)
    }

    fn get_monitor_value_type_id(&self) -> u8 {
        6
    }
}

impl MonitorValueType for i64 {
    open spec fn spec_payload(&self) -> MonitorValuePayload {
        MonitorValuePayload::I64(*self)
    }

    fn to_payload(&self) -> MonitorValuePayload {
        MonitorValuePayload::I64(*self)
    }

    fn get_monitor_value_type_id(&self) -> u8 {
        7
    }
}

/// The monitor-ID to value-type dictionary a decoder learns from
/// value-monitor type definitions. Monitor IDs are bytes, so the directory
/// is a fixed table of 256 entries.
pub struct MonitorTypeDirectory {
    types: Vec<Option<u8>>,
}

impl MonitorTypeDirectory {
    /// The registered type of each monitor ID.
    pub closed spec fn view(&self) -> Seq<Option<u8>> {
        self.types@
    }

    /// The directory always has one slot per possible monitor ID.
    pub open spec fn wf(&self) -> bool {
        self@.len() == 256
    }

    /// An empty directory: no monitor has a registered type.
    pub fn new() -> (r: MonitorTypeDirectory)
        ensures
            r.wf(),
            forall|i: int| 0 <= i < 256 ==> r@[i] is None,
    {
        let mut types: Vec<Option<u8>> = Vec::new();
        let mut i: usize = 0;
        while i < 256
            invariant
                i <= 256,
                types@.len() == i,
                forall|j: int| 0 <= j < i ==> types@[j] is None,
            decreases 256 - i,
        {
            types.push(None);
            i = i + 1;
        }
        MonitorTypeDirectory { types }
    }

    /// Record the value type registered for a monitor ID.
    pub fn register(&mut self, monitor_id: u8, type_id: u8)
        requires
            old(self).wf(),
        ensures
            final(self).wf(),
            final(self)@ == old(self)@.update(monitor_id as int, Some(type_id)),
    {
        self.types[monitor_id as usize] = Some(type_id);
    }

    /// The value type registered for a monitor ID, if any.
    pub fn lookup(&self, monitor_id: u8) -> (r: Option<u8>)
        requires
            self.wf(),
        ensures
            r == self@[monitor_id as int],
    {
        self.types[monitor_id as usize]
    }
}

} // verus!
