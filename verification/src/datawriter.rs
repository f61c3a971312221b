use vstd::prelude::*;

verus! {

/// Utility structure that simplifies the process of writing data that's
/// constant over a single frame into a fixed-size staging buffer: a bounded
/// sequential byte writer that accepts as much of each write as still fits
/// and never writes past the end of its buffer.
pub struct ConstantDataWriter {
    buffer: Vec<u8>,
    bytes_written: usize,
}

impl ConstantDataWriter {
    /// The contents of the staging buffer.
    pub closed spec fn spec_buffer(&self) -> Seq<u8> {
        self.buffer@
    }

    /// How many bytes have been written since construction.
    pub closed spec fn spec_bytes_written(&self) -> usize {
        self.bytes_written
    }

    /// Well-formedness: the write position never passes the end of the
    /// buffer.
    pub closed spec fn wf(&self) -> bool {
        self.bytes_written <= self.buffer@.len()
    }

    /// Creates a writer over a zeroed buffer of `buffer_size` bytes.
    pub fn new(buffer_size: usize) -> (r: Self)
        ensures
            r.wf(),
            r.spec_buffer().len() == buffer_size,
            r.spec_bytes_written() == 0,
            forall|i: int| 0 <= i < buffer_size ==> r.spec_buffer()[i] == 0,
    {
        let mut buffer: Vec<u8> = Vec::new();
        let mut i: usize = 0;
        while i < buffer_size
            invariant
                i <= buffer_size,
                buffer@.len() == i,
                forall|j: int| 0 <= j < i ==> buffer@[j] == 0,
            decreases buffer_size - i,
        {
            buffer.push(0);
            i = i + 1;
        }
        ConstantDataWriter { buffer, bytes_written: 0 }
    }

    /// The staging buffer as written so far.
    pub fn contents(&self) -> (r: &Vec<u8>)
        ensures
            r@ == self.spec_buffer(),
    {
        &self.buffer
    }

    /// The current write position in 32-bit words.
    pub fn dword_offset(&self) -> (r: u32)
        requires
            self.spec_bytes_written() / 4 <= u32::MAX,
        ensures
            r == self.spec_bytes_written() / 4,
    {
        (self.bytes_written / 4) as u32
    }

    /// Copies as much of `buf` as still fits into the buffer, starting at
    /// the current write position, and returns how many bytes were
    /// accepted; the rest of the buffer keeps its contents.
    pub fn write(&mut self, buf: &Vec<u8>) -> (n: usize)
        requires
            old(self).wf(),
        ensures
            final(self).wf(),
            n == if buf@.len() <= old(self).spec_buffer().len() - old(self).spec_bytes_written() {
                buf@.len() as int
            } else {
                old(self).spec_buffer().len() - old(self).spec_bytes_written()
            },
            final(self).spec_bytes_written() == old(self).spec_bytes_written() + n,
            final(self).spec_buffer() == old(self).spec_buffer().take(
                old(self).spec_bytes_written() as int,
            ) + buf@.take(n as int) + old(self).spec_buffer().skip(
                old(self).spec_bytes_written() + n,
            ),
    {
        let bytes_remaining = self.buffer.len() - self.bytes_written;
        let bytes_written = if buf.len() <= bytes_remaining {
            buf.len()
        } else {
            bytes_remaining
        };

        let ghost start = self.bytes_written as int;
        let mut i: usize = 0;
        while i < bytes_written
            invariant
                i <= bytes_written,
                bytes_written <= buf@.len(),
                self.bytes_written == old(self).spec_bytes_written(),
                start == self.bytes_written as int,
                self.bytes_written + bytes_written <= self.buffer@.len(),
                self.buffer@.len() <= usize::MAX,
                self.buffer@.len() == old(self).spec_buffer().len(),
                self.buffer@ == old(self).spec_buffer().take(start) + buf@.take(i as int) + old(
                    self,
                ).spec_buffer().skip(start + i),
            decreases bytes_written - i,
        {
            self.buffer.set(self.bytes_written + i, buf[i]);
            proof {
                assert(self.buffer@ =~= old(self).spec_buffer().take(start) + buf@.take(i + 1)
                    + old(self).spec_buffer().skip(start + i + 1));
            }
            i = i + 1;
        }
        proof {
            assert(self.buffer@ =~= old(self).spec_buffer().take(start) + buf@.take(
                bytes_written as int,
            ) + old(self).spec_buffer().skip(start + bytes_written));
        }

        self.bytes_written = self.bytes_written + bytes_written;

        bytes_written
    }
}

} // verus!
