//! The byte buffer from which headers and records are built, and the
//! little-endian encoding of their fields.

use vstd::prelude::*;
use vstd::string::StringSliceAdditionalSpecFns;

verus! {

/// The two bytes of `value`, least significant first.
pub open spec fn le_bytes_u16(value: u16) -> Seq<u8> {
    seq![(value % 256) as u8, (value / 256) as u8]
}

/// The four bytes of `value`, least significant first.
pub open spec fn le_bytes_u32(value: u32) -> Seq<u8> {
    seq![
        (value % 256) as u8,
        (value / 256 % 256) as u8,
        (value / 65536 % 256) as u8,
        (value / 16777216) as u8,
    ]
}

/// The number that two bytes stand for, least significant first.
pub open spec fn u16_of_le_bytes(bytes: Seq<u8>) -> int
    recommends
        bytes.len() == 2,
{
    bytes[0] + 256 * bytes[1]
}

/// The number that four bytes stand for, least significant first.
pub open spec fn u32_of_le_bytes(bytes: Seq<u8>) -> int
    recommends
        bytes.len() == 4,
{
    bytes[0] + 256 * bytes[1] + 65536 * bytes[2] + 16777216 * bytes[3]
}

/// A 16-bit value is read back from its little-endian bytes.
pub proof fn lemma_le_bytes_u16_round_trip(value: u16)
    ensures
        le_bytes_u16(value).len() == 2,
        u16_of_le_bytes(le_bytes_u16(value)) == value,
{
}

/// A 32-bit value is read back from its little-endian bytes.
pub proof fn lemma_le_bytes_u32_round_trip(value: u32)
    ensures
        le_bytes_u32(value).len() == 4,
        u32_of_le_bytes(le_bytes_u32(value)) == value,
{
}

/// An append-only byte buffer from which every header and record is built.
pub struct ArchiveDescriptor {
    buffer: Vec<u8>,
}

impl View for ArchiveDescriptor {
    type V = Seq<u8>;

    closed spec fn view(&self) -> Seq<u8> {
        self.buffer@
    }
}

impl ArchiveDescriptor {
    /// Creates an empty buffer with room for `capacity` bytes.
    pub fn new(capacity: usize) -> (descriptor: ArchiveDescriptor)
        ensures
            descriptor@ == Seq::<u8>::empty(),
    {
        ArchiveDescriptor { buffer: Vec::with_capacity(capacity) }
    }

    /// Appends `value` in little-endian order.
    pub fn write_u16(&mut self, value: u16)
        ensures
            final(self)@ == old(self)@ + le_bytes_u16(value),
    {
        self.buffer.push((value % 256) as u8);
        self.buffer.push((value / 256) as u8);
        assert(self.buffer@ =~= old(self).buffer@ + le_bytes_u16(value));
    }

    /// Appends `value` in little-endian order.
    pub fn write_u32(&mut self, value: u32)
        ensures
            final(self)@ == old(self)@ + le_bytes_u32(value),
    {
        self.buffer.push((value % 256) as u8);
        self.buffer.push((value / 256 % 256) as u8);
        self.buffer.push((value / 65536 % 256) as u8);
        self.buffer.push((value / 16777216) as u8);
        assert(self.buffer@ =~= old(self).buffer@ + le_bytes_u32(value));
    }

    /// Appends the bytes of `bytes` unchanged.
    pub fn write_bytes(&mut self, bytes: &[u8])
        ensures
            final(self)@ == old(self)@ + bytes@,
    {
        let mut index: usize = 0;
        while index < bytes.len()
            invariant
                index <= bytes.len(),
                self.buffer@ == old(self).buffer@ + bytes@.take(index as int),
            decreases bytes.len() - index,
        {
            self.buffer.push(bytes[index]);
            assert(bytes@.take(index + 1) =~= bytes@.take(index as int).push(bytes@[index as int]));
            index += 1;
        }
        assert(bytes@.take(bytes.len() as int) =~= bytes@);
    }

    /// Appends the UTF-8 bytes of `text`, without a length prefix.
    pub fn write_str(&mut self, text: &str)
        ensures
            final(self)@ == old(self)@ + text.spec_bytes(),
    {
        self.write_bytes(text.as_bytes());
    }

    /// Empties the buffer and keeps its allocation.
    pub fn clear(&mut self)
        ensures
            final(self)@ == Seq::<u8>::empty(),
    {
        self.buffer.clear();
    }

    /// The bytes appended so far.
    pub fn buffer(&self) -> (bytes: &[u8])
        ensures
            bytes@ == self@,
    {
        self.buffer.as_slice()
    }

    /// The number of bytes appended so far.
    pub fn len(&self) -> (length: usize)
        ensures
            length == self@.len(),
    {
        self.buffer.len()
    }

    /// Gives up the buffer.
    pub fn finish(self) -> (bytes: Vec<u8>)
        ensures
            bytes@ == self@,
    {
        self.buffer
    }
}

} // verus!
