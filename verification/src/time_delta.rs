//! Variable-length time-delta codec.
//!
//! A delta is an unsigned number of microseconds since the previous event.
//! Two wire formats exist: short (15 bits, high bit 0, two bytes big-endian)
//! and extended (31 bits, high bit 1, four bytes big-endian). Deltas of
//! 2^15 or more use the extended format; deltas above 2^31 - 1 are clamped
//! to that value on encode.

use vstd::prelude::*;

use crate::buffer::{BufferReader, BufferWriter, BUFFER_CAPACITY};

verus! {

/// Largest delta the extended format can carry; larger deltas are clamped.
pub const MAX_DELTA_US: u32 = 0x7FFF_FFFF;

/// A time delta in microseconds.
#[derive(Debug, Clone, Copy, PartialEq, Eq, Structural)]
pub struct TimeDelta {
    delta: u32,
}

/// The wire bytes of a delta: two big-endian bytes with the high bit clear
/// for deltas under 2^15, else four big-endian bytes with the high bit set
/// and the delta clamped to 2^31 - 1.
pub open spec fn spec_delta_bytes(d: u32) -> Seq<u8> {
    if d < 0x8000 {
        seq![((d >> 8) & 0xFF) as u8, (d & 0xFF) as u8]
    } else {
        let c: u32 = if d > MAX_DELTA_US {
            MAX_DELTA_US
        } else {
            d
        };
        let v: u32 = c | 0x8000_0000;
        seq![
            ((v >> 24) & 0xFF) as u8,
            ((v >> 16) & 0xFF) as u8,
            ((v >> 8) & 0xFF) as u8,
            (v & 0xFF) as u8,
        ]
    }
}

/// Reading a delta from the front of `bytes`: the format is detected from
/// the high bit of the first byte. Yields the delta and the number of bytes
/// consumed, or nothing when the input is truncated.
pub open spec fn spec_read_delta(bytes: Seq<u8>) -> Option<(u32, int)> {
    if bytes.len() < 2 {
        None
    } else if bytes[0] & 0x80 == 0 {
        Some(((((bytes[0] as u32) << 8) | (bytes[1] as u32)), 2))
    } else if bytes.len() < 4 {
        None
    } else {
        Some(
            (
                (((bytes[0] & 0x7F) as u32) << 24) | ((bytes[1] as u32) << 16) | (
                (bytes[2] as u32) << 8) | (bytes[3] as u32),
                4,
            ),
        )
    }
}

/// The delta a decoder recovers: the original value clamped to 2^31 - 1.
pub open spec fn spec_clamped_delta(d: u32) -> u32 {
    if d > MAX_DELTA_US {
        MAX_DELTA_US
    } else {
        d
    }
}

/// Codec round trip: decoding an encoded delta, with arbitrary bytes
/// following it, consumes exactly the encoding and yields the delta clamped
/// at 2^31 - 1; the encoding is two bytes exactly when the delta fits in 15
/// bits, else four.
pub proof fn lemma_time_delta_round_trip(d: u32, rest: Seq<u8>)
    ensures
        spec_delta_bytes(d).len() == if d < 0x8000 {
            2int
        } else {
            4int
        },
        spec_read_delta(spec_delta_bytes(d) + rest) == Some(
            (spec_clamped_delta(d), spec_delta_bytes(d).len() as int),
        ),
{
    let enc = spec_delta_bytes(d);
    let all = enc + rest;
    if d < 0x8000 {
        assert(all[0] == ((d >> 8) & 0xFF) as u8);
        assert(all[1] == (d & 0xFF) as u8);
        assert((((d >> 8) & 0xFF) as u8) & 0x80 == 0 && ((((((d >> 8) & 0xFF) as u8) as u32) << 8)
            | (((d & 0xFF) as u8) as u32)) == d) by (bit_vector)
            requires
                d < 0x8000,
        ;
    } else {
        let c: u32 = if d > MAX_DELTA_US {
            MAX_DELTA_US
        } else {
            d
        };
        let v: u32 = c | 0x8000_0000;
        assert(all[0] == ((v >> 24) & 0xFF) as u8);
        assert(all[1] == ((v >> 16) & 0xFF) as u8);
        assert(all[2] == ((v >> 8) & 0xFF) as u8);
        assert(all[3] == (v & 0xFF) as u8);
        assert((((v >> 24) & 0xFF) as u8) & 0x80 != 0 && (((((((v >> 24) & 0xFF) as u8) & 0x7F)
            as u32) << 24) | (((((v >> 16) & 0xFF) as u8) as u32) << 16) | (((((v >> 8) & 0xFF)
            as u8) as u32) << 8) | (((v & 0xFF) as u8) as u32)) == c) by (bit_vector)
            requires
                v == c | 0x8000_0000,
                c <= 0x7FFF_FFFFu32,
                0x8000 <= c,
        ;
    }
}

impl TimeDelta {
    /// The delta in microseconds.
    pub closed spec fn spec_delta_us(&self) -> u32 {
        self.delta
    }

    /// Wrap a raw microsecond delta.
    pub fn new(delta_us: u32) -> (r: TimeDelta)
        ensures
            r.spec_delta_us() == delta_us,
    {
        TimeDelta { delta: delta_us }
    }

    /// Whether the delta needs the extended four-byte format.
    pub fn is_extended(&self) -> (r: bool)
        ensures
            r == (self.spec_delta_us() >= 0x8000),
    {
        self.delta >= 0x8000
    }

    /// The delta in microseconds.
    pub fn get_delta_us(&self) -> (r: u32)
        ensures
            r == self.spec_delta_us(),
    {
        self.delta
    }

    /// Serialize the delta in its short or extended format.
    pub fn write_bytes(&self, writer: &mut BufferWriter)
        requires
            old(writer)@.len() + 4 <= BUFFER_CAPACITY,
        ensures
            final(writer)@ == old(writer)@ + spec_delta_bytes(self.spec_delta_us()),
    {
        if self.is_extended() {
            let capped_delta = if self.delta > MAX_DELTA_US {
                MAX_DELTA_US
            } else {
                self.delta
            };
            let extended_value = capped_delta | 0x8000_0000;
            writer.write_byte(((extended_value >> 24) & 0xFF) as u8);
            writer.write_byte(((extended_value >> 16) & 0xFF) as u8);
            writer.write_byte(((extended_value >> 8) & 0xFF) as u8);
            writer.write_byte((extended_value & 0xFF) as u8);
            assert(writer@ =~= old(writer)@ + spec_delta_bytes(self.delta));
        } else {
            writer.write_byte(((self.delta >> 8) & 0xFF) as u8);
            writer.write_byte((self.delta & 0xFF) as u8);
            assert(writer@ =~= old(writer)@ + spec_delta_bytes(self.delta));
        }
    }

    /// Read a delta from the reader, detecting the format from the high bit
    /// of the first byte. Yields nothing on truncated input, leaving the
    /// cursor wherever the partial read stopped.
    pub fn read_bytes(reader: &mut BufferReader) -> (r: Option<TimeDelta>)
        requires
            old(reader).wf(),
        ensures
            final(reader)@ == old(reader)@,
            final(reader).wf(),
            match r {
                Some(td) => {
                    &&& spec_read_delta(
                        old(reader)@.subrange(old(reader).spec_position(), old(reader)@.len() as int),
                    ) == Some(
                        (
                            td.spec_delta_us(),
                            final(reader).spec_position() - old(reader).spec_position(),
                        ),
                    )
                    &&& final(reader).spec_position() > old(reader).spec_position()
                },
                None => {
                    &&& spec_read_delta(
                        old(reader)@.subrange(old(reader).spec_position(), old(reader)@.len() as int),
                    ) is None
                    &&& final(reader).spec_position() >= old(reader).spec_position()
                },
            },
    {
        let ghost rem = old(reader)@.subrange(
            old(reader).spec_position(),
            old(reader)@.len() as int,
        );
        let first_byte = match reader.read_byte() {
            Some(b) => b,
            None => {
                return None;
            },
        };
        assert(rem[0] == first_byte);
        let second_byte = match reader.read_byte() {
            Some(b) => b,
            None => {
                assert(rem.len() < 2);
                return None;
            },
        };
        assert(rem[1] == second_byte);
        assert(rem.len() >= 2);
        if (first_byte & 0x80) == 0 {
            let delta = ((first_byte as u32) << 8) | (second_byte as u32);
            Some(TimeDelta { delta })
        } else {
            let third_byte = match reader.read_byte() {
                Some(b) => b,
                None => {
                    assert(rem.len() < 4);
                    return None;
                },
            };
            let fourth_byte = match reader.read_byte() {
                Some(b) => b,
                None => {
                    assert(rem.len() < 4);
                    return None;
                },
            };
            assert(rem[2] == third_byte);
            assert(rem[3] == fourth_byte);
            let delta = (((first_byte & 0x7F) as u32) << 24) | ((second_byte as u32) << 16) | ((
            third_byte as u32) << 8) | (fourth_byte as u32);
            Some(TimeDelta { delta })
        }
    }
}

} // verus!
