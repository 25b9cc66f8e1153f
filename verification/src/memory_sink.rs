//! The in-memory sink with a write position that can be moved.

use vstd::prelude::*;
use crate::error::ArchiveError;

verus! {

/// What a sink holds after `bytes` have been written at `position`: they replace
/// what stood there and lengthen the contents where they reach past its end.
pub open spec fn overwrite(contents: Seq<u8>, position: int, bytes: Seq<u8>) -> Seq<u8> {
    Seq::new(
        if contents.len() >= position + bytes.len() {
            contents.len()
        } else {
            (position + bytes.len()) as nat
        },
        |index: int|
            if position <= index < position + bytes.len() {
                bytes[index - position]
            } else {
                contents[index]
            },
    )
}

/// Writing at or behind `origin` leaves what stands before `origin` as it is,
/// and what stands between `origin` and the written bytes too.
pub proof fn lemma_overwrite_extends(contents: Seq<u8>, origin: int, position: int, bytes: Seq<u8>)
    requires
        0 <= origin <= position <= contents.len(),
    ensures
        overwrite(contents, position, bytes).take(origin) == contents.take(origin),
        overwrite(contents, position, bytes).subrange(origin, position + bytes.len())
            == contents.subrange(origin, position) + bytes,
{
    let after = overwrite(contents, position, bytes);
    assert(after.take(origin) =~= contents.take(origin));
    assert(after.subrange(origin, position + bytes.len()) =~= contents.subrange(origin, position)
        + bytes);
}

/// Two writes, one behind the other, are one write of both.
pub proof fn lemma_overwrite_twice(
    contents: Seq<u8>,
    position: int,
    first: Seq<u8>,
    second: Seq<u8>,
)
    requires
        0 <= position <= contents.len(),
    ensures
        overwrite(overwrite(contents, position, first), position + first.len(), second)
            == overwrite(contents, position, first + second),
{
    assert(overwrite(overwrite(contents, position, first), position + first.len(), second)
        =~= overwrite(contents, position, first + second));
}

/// Going back into bytes that were just written and replacing a part of them
/// gives what writing them with that part replaced would have given.
pub proof fn lemma_overwrite_patch(
    contents: Seq<u8>,
    position: int,
    before: Seq<u8>,
    blank: Seq<u8>,
    patch: Seq<u8>,
    after: Seq<u8>,
)
    requires
        0 <= position <= contents.len(),
        blank.len() == patch.len(),
    ensures
        overwrite(
            overwrite(contents, position, before + blank + after),
            position + before.len(),
            patch,
        ) == overwrite(contents, position, before + patch + after),
{
    assert(overwrite(
        overwrite(contents, position, before + blank + after),
        position + before.len(),
        patch,
    ) =~= overwrite(contents, position, before + patch + after));
}

/// An in-memory sink with a write position that can be moved back and forth
/// within what has been written.
pub struct MemorySink {
    buffer: Vec<u8>,
    position: usize,
}

impl View for MemorySink {
    type V = Seq<u8>;

    /// Everything that the sink holds.
    closed spec fn view(&self) -> Seq<u8> {
        self.buffer@
    }
}

impl MemorySink {
    /// Where the next byte will be written.
    pub closed spec fn position(&self) -> nat {
        self.position as nat
    }

    /// The write position lies within the contents or at their end.
    pub open spec fn wf(&self) -> bool {
        self.position() <= self@.len()
    }

    /// The contents fit into memory: a `usize` holds their length.
    pub proof fn lemma_length_fits(&self)
        ensures
            self@.len() <= usize::MAX,
    {
        assert(self.buffer.len() == self.buffer@.len());
    }

    /// An empty sink.
    pub fn new() -> (sink: MemorySink)
        ensures
            sink.wf(),
            sink@ == Seq::<u8>::empty(),
            sink.position() == 0,
    {
        MemorySink { buffer: Vec::new(), position: 0 }
    }

    /// A sink that holds `buffer`, with the write position at its start.
    pub fn from_vec(buffer: Vec<u8>) -> (sink: MemorySink)
        ensures
            sink.wf(),
            sink@ == buffer@,
            sink.position() == 0,
    {
        MemorySink { buffer, position: 0 }
    }

    /// Gives up the contents.
    pub fn into_inner(self) -> (buffer: Vec<u8>)
        ensures
            buffer@ == self@,
    {
        self.buffer
    }

    /// The contents.
    pub fn get_ref(&self) -> (buffer: &[u8])
        ensures
            buffer@ == self@,
    {
        self.buffer.as_slice()
    }

    /// The write position.
    pub fn stream_position(&self) -> (position: u64)
        ensures
            position == self.position(),
    {
        self.position as u64
    }

    /// Moves the write position to `position`, counted from the start of the
    /// sink. A position behind the end of the contents is refused, and the sink
    /// stays as it is.
    pub fn seek(&mut self, position: u64) -> (result: Result<u64, ArchiveError>)
        ensures
            final(self)@ == old(self)@,
            position <= old(self)@.len() ==> result == Ok::<u64, ArchiveError>(position)
                && final(self).position() == position,
            position > old(self)@.len() ==> result == Err::<u64, ArchiveError>(
                ArchiveError::SeekError(position),
            ) && final(self).position() == old(self).position(),
    {
        if position <= self.buffer.len() as u64 {
            self.position = position as usize;
            Ok(position)
        } else {
            Err(ArchiveError::SeekError(position))
        }
    }

    /// Writes `bytes` at the write position and moves the position behind them.
    pub fn write_all(&mut self, bytes: &[u8])
        requires
            old(self).wf(),
        ensures
            final(self).wf(),
            final(self)@ == overwrite(old(self)@, old(self).position() as int, bytes@),
            final(self).position() == old(self).position() + bytes@.len(),
    {
        let mut index: usize = 0;
        while index < bytes.len()
            invariant
                index <= bytes.len(),
                self.position == old(self).position + index,
                self.position <= self.buffer@.len(),
                self.buffer@ == overwrite(
                    old(self).buffer@,
                    old(self).position as int,
                    bytes@.take(index as int),
                ),
            decreases bytes.len() - index,
        {
            if self.position < self.buffer.len() {
                self.buffer.set(self.position, bytes[index]);
            } else {
                self.buffer.push(bytes[index]);
            }
            assert(self.position < self.buffer.len());
            assert(self.buffer@ =~= overwrite(
                old(self).buffer@,
                old(self).position as int,
                bytes@.take(index + 1),
            ));
            self.position += 1;
            index += 1;
        }
        assert(bytes@.take(bytes.len() as int) =~= bytes@);
        assert(self.buffer@ =~= overwrite(old(self).buffer@, old(self).position as int, bytes@));
    }
}

} // verus!
