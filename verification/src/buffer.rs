//! Fixed-capacity byte writer and cursor reader used by the wire codec.
//!
//! The writer has a fixed 32-byte capacity: the protocol guarantees that a
//! single event record (time delta plus payload) always fits. Callers
//! guarantee capacity before writing. The reader walks an immutable byte
//! slice and yields nothing on exhaustion.

use vstd::prelude::*;

verus! {

/// Capacity of the event serialization buffer in bytes.
pub const BUFFER_CAPACITY: usize = 32;

/// Byte writer over a fixed-capacity buffer.
pub struct BufferWriter {
    buffer: Vec<u8>,
}

impl BufferWriter {
    /// The bytes written so far.
    pub closed spec fn view(&self) -> Seq<u8> {
        self.buffer@
    }

    /// Create an empty writer.
    pub fn new() -> (r: BufferWriter)
        ensures
            r@ == Seq::<u8>::empty(),
    {
        BufferWriter { buffer: Vec::new() }
    }

    /// Append a single byte. The caller guarantees remaining capacity.
    pub fn write_byte(&mut self, byte: u8)
        requires
            old(self)@.len() < BUFFER_CAPACITY,
        ensures
            final(self)@ == old(self)@.push(byte),
    {
        self.buffer.push(byte);
    }

    /// Append a slice of bytes. The caller guarantees remaining capacity.
    pub fn write_bytes(&mut self, data: &[u8])
        requires
            old(self)@.len() + data@.len() <= BUFFER_CAPACITY,
        ensures
            final(self)@ == old(self)@ + data@,
    {
        let mut i: usize = 0;
        while i < data.len()
            invariant
                i <= data@.len(),
                self@ == old(self)@ + data@.subrange(0, i as int),
                old(self)@.len() + data@.len() <= BUFFER_CAPACITY,
            decreases data@.len() - i,
        {
            self.buffer.push(data[i]);
            i = i + 1;
            assert(self@ =~= old(self)@ + data@.subrange(0, i as int));
        }
        assert(self@ =~= old(self)@ + data@);
    }

    /// The written bytes, as a slice.
    pub fn as_slice(&self) -> (r: &[u8])
        ensures
            r@ == self@,
    {
        self.buffer.as_slice()
    }

    /// How many bytes have been written.
    pub fn len(&self) -> (r: usize)
        ensures
            r == self@.len(),
    {
        self.buffer.len()
    }
}

/// Cursor reader over an immutable byte slice.
pub struct BufferReader<'a> {
    buffer: &'a [u8],
    position: usize,
}

impl<'a> BufferReader<'a> {
    /// The underlying bytes.
    pub closed spec fn view(&self) -> Seq<u8> {
        self.buffer@
    }

    /// The current cursor position.
    pub closed spec fn spec_position(&self) -> int {
        self.position as int
    }

    /// The cursor never runs past the end of the buffer.
    pub open spec fn wf(&self) -> bool {
        0 <= self.spec_position() <= self@.len()
    }

    /// Create a reader over the given bytes, positioned at the start.
    pub fn new(buffer: &'a [u8]) -> (r: BufferReader<'a>)
        ensures
            r@ == buffer@,
            r.spec_position() == 0,
            r.wf(),
    {
        BufferReader { buffer, position: 0 }
    }

    /// Create a reader positioned partway into the given bytes.
    pub fn new_at(buffer: &'a [u8], position: usize) -> (r: BufferReader<'a>)
        requires
            position <= buffer@.len(),
        ensures
            r@ == buffer@,
            r.spec_position() == position,
            r.wf(),
    {
        BufferReader { buffer, position }
    }

    /// Read one byte and advance, or yield nothing at the end of the buffer.
    pub fn read_byte(&mut self) -> (r: Option<u8>)
        requires
            old(self).wf(),
        ensures
            final(self)@ == old(self)@,
            final(self).wf(),
            match r {
                Some(b) => {
                    &&& old(self).spec_position() < old(self)@.len()
                    &&& b == old(self)@[old(self).spec_position()]
                    &&& final(self).spec_position() == old(self).spec_position() + 1
                },
                None => {
                    &&& old(self).spec_position() == old(self)@.len()
                    &&& final(self).spec_position() == old(self).spec_position()
                },
            },
    {
        if self.position >= self.buffer.len() {
            return None;
        }
        let byte = self.buffer[self.position];
        self.position = self.position + 1;
        Some(byte)
    }

    /// Read `length` bytes as a slice and advance, or yield nothing when
    /// fewer bytes remain.
    pub fn read_bytes(&mut self, length: usize) -> (r: Option<&'a [u8]>)
        requires
            old(self).wf(),
        ensures
            final(self)@ == old(self)@,
            final(self).wf(),
            match r {
                Some(bytes) => {
                    &&& old(self).spec_position() + length <= old(self)@.len()
                    &&& bytes@ == old(self)@.subrange(
                        old(self).spec_position(),
                        old(self).spec_position() + length,
                    )
                    &&& final(self).spec_position() == old(self).spec_position() + length
                },
                None => {
                    &&& old(self)@.len() < old(self).spec_position() + length
                    &&& final(self).spec_position() == old(self).spec_position()
                },
            },
    {
        if length > self.buffer.len() - self.position {
            return None;
        }
        let bytes = vstd::slice::slice_subrange(self.buffer, self.position, self.position + length);
        self.position = self.position + length;
        Some(bytes)
    }

    /// The current cursor position.
    pub fn get_position(&self) -> (r: usize)
        ensures
            r == self.spec_position(),
    {
        self.position
    }
}

} // verus!
