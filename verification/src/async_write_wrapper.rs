//! The sink that counts what is written to it.

use vstd::prelude::*;

verus! {

/// An in-memory sink that counts the bytes written through it.
///
/// Bytes that the vector held when it was wrapped stay in front and are not
/// counted.
pub struct AsyncWriteWrapper {
    writer: Vec<u8>,
    written_bytes_count: usize,
}

impl View for AsyncWriteWrapper {
    type V = Seq<u8>;

    /// The bytes written through the wrapper, in order.
    closed spec fn view(&self) -> Seq<u8> {
        self.writer@.skip(self.writer@.len() - self.written_bytes_count)
    }
}

impl AsyncWriteWrapper {
    /// The count is the number of bytes written through the wrapper.
    pub closed spec fn wf(&self) -> bool {
        self.written_bytes_count <= self.writer@.len()
    }

    /// The bytes that the vector held before it was wrapped.
    pub closed spec fn initial(&self) -> Seq<u8> {
        self.writer@.take(self.writer@.len() - self.written_bytes_count)
    }

    pub fn new(w: Vec<u8>) -> (wrapper: AsyncWriteWrapper)
        ensures
            wrapper.wf(),
            wrapper@ == Seq::<u8>::empty(),
            wrapper.initial() == w@,
    {
        let wrapper = AsyncWriteWrapper { writer: w, written_bytes_count: 0 };
        assert(wrapper@ =~= Seq::<u8>::empty());
        assert(wrapper.initial() =~= w@);
        wrapper
    }

    pub fn get_written_bytes_count(&self) -> (count: usize)
        requires
            self.wf(),
        ensures
            count == self@.len(),
    {
        self.written_bytes_count
    }

    /// What the vector holds: what it held at first, then what was written.
    pub fn get_ref(&self) -> (bytes: &[u8])
        requires
            self.wf(),
        ensures
            bytes@ == self.initial() + self@,
    {
        assert(self.writer@ =~= self.initial() + self@);
        self.writer.as_slice()
    }

    /// Gives up the vector: what it held at first, then what was written.
    pub fn retrieve_writer(self) -> (w: Vec<u8>)
        requires
            self.wf(),
        ensures
            w@ == self.initial() + self@,
    {
        assert(self.writer@ =~= self.initial() + self@);
        self.writer
    }

    /// Passes `bytes` on to the vector and adds their number to the count.
    pub fn write_all(&mut self, bytes: &[u8])
        requires
            old(self).wf(),
        ensures
            final(self).wf(),
            final(self)@ == old(self)@ + bytes@,
            final(self).initial() == old(self).initial(),
    {
        let mut index: usize = 0;
        while index < bytes.len()
            invariant
                index <= bytes.len(),
                self.written_bytes_count == old(self).written_bytes_count + index,
                self.writer@ == old(self).writer@ + bytes@.take(index as int),
                old(self).wf(),
            decreases bytes.len() - index,
        {
            self.writer.push(bytes[index]);
            assert(bytes@.take(index + 1) =~= bytes@.take(index as int).push(bytes@[index as int]));
            assert(self.written_bytes_count < self.writer.len());
            self.written_bytes_count += 1;
            index += 1;
        }
        assert(bytes@.take(bytes.len() as int) =~= bytes@);
        assert(self@ =~= old(self)@ + bytes@);
        assert(self.initial() =~= old(self).initial());
    }
}

} // verus!
