//! A byte queue fed by the capture device, cut into fixed-size chunks.

use vstd::prelude::*;
use std::collections::VecDeque;

verus! {

/// The bytes of `chunks`, one chunk after another.
pub open spec fn concat_chunks(chunks: Seq<Vec<u8>>) -> Seq<u8>
    decreases chunks.len(),
{
    if chunks.len() == 0 {
        Seq::empty()
    } else {
        concat_chunks(chunks.drop_last()) + chunks.last()@
    }
}

/// Bytes received from the device and not yet handed out, oldest first.
pub struct CaptureBuffer {
    bytes: VecDeque<u8>,
}

impl View for CaptureBuffer {
    type V = Seq<u8>;

    closed spec fn view(&self) -> Seq<u8> {
        self.bytes@
    }
}

impl CaptureBuffer {
    /// An empty buffer.
    pub fn new() -> (r: CaptureBuffer)
        ensures
            r@ == Seq::<u8>::empty(),
    {
        CaptureBuffer { bytes: VecDeque::new() }
    }

    /// An empty buffer with room reserved for `capacity` bytes.
    pub fn with_capacity(capacity: usize) -> (r: CaptureBuffer)
        ensures
            r@ == Seq::<u8>::empty(),
    {
        CaptureBuffer { bytes: VecDeque::with_capacity(capacity) }
    }

    /// Number of bytes held.
    pub fn len(&self) -> (r: usize)
        ensures
            r == self@.len(),
    {
        self.bytes.len()
    }

    /// A copy of the bytes held, oldest first.
    pub fn to_vec(&self) -> (r: Vec<u8>)
        ensures
            r@ == self@,
    {
        let mut out: Vec<u8> = Vec::with_capacity(self.bytes.len());
        let mut i: usize = 0;
        while i < self.bytes.len()
            invariant
                i <= self@.len(),
                out@ == self@.subrange(0, i as int),
            decreases self@.len() - i,
        {
            out.push(self.bytes[i]);
            assert(out@ =~= self@.subrange(0, i as int + 1));
            i = i + 1;
        }
        assert(out@ =~= self@);
        out
    }

    /// Adds `data` at the tail.
    pub fn append(&mut self, data: &[u8])
        ensures
            final(self)@ == old(self)@ + data@,
    {
        let mut i: usize = 0;
        while i < data.len()
            invariant
                i <= data@.len(),
                self@ == old(self)@ + data@.subrange(0, i as int),
            decreases data@.len() - i,
        {
            self.bytes.push_back(data[i]);
            assert(data@.subrange(0, i as int + 1) =~= data@.subrange(0, i as int).push(data@[i as int]));
            i = i + 1;
        }
        assert(data@.subrange(0, data@.len() as int) =~= data@);
    }

    /// Takes the oldest `size` bytes as a chunk, provided that more than `size`
    /// bytes are held; otherwise leaves the buffer as it is.
    pub fn next_chunk(&mut self, size: usize) -> (r: Option<Vec<u8>>)
        ensures
            old(self)@.len() > size ==> r is Some && r->Some_0@ == old(self)@.subrange(0, size as int)
                && final(self)@ == old(self)@.subrange(size as int, old(self)@.len() as int),
            old(self)@.len() <= size ==> r is None && final(self)@ == old(self)@,
    {
        if self.bytes.len() <= size {
            return None;
        }
        let mut chunk: Vec<u8> = Vec::with_capacity(size);
        let mut i: usize = 0;
        while i < size
            invariant
                i <= size < old(self)@.len(),
                chunk@ == old(self)@.subrange(0, i as int),
                self@ == old(self)@.subrange(i as int, old(self)@.len() as int),
            decreases size - i,
        {
            match self.bytes.pop_front() {
                Some(b) => {
                    chunk.push(b);
                },
                None => {},
            }
            assert(chunk@ =~= old(self)@.subrange(0, i as int + 1));
            i = i + 1;
        }
        Some(chunk)
    }

    /// Takes chunks of `size` bytes from the head while more than `size` bytes
    /// are held. The chunks, in order, followed by what is left, are the bytes
    /// held before.
    pub fn drain_chunks(&mut self, size: usize) -> (r: Vec<Vec<u8>>)
        requires
            size > 0,
        ensures
            concat_chunks(r@) + final(self)@ == old(self)@,
            forall|k: int| 0 <= k < r@.len() ==> (#[trigger] r@[k])@.len() == size,
            final(self)@.len() <= size,
            old(self)@.len() > 0 ==> final(self)@.len() > 0,
    {
        let mut out: Vec<Vec<u8>> = Vec::new();
        assert(concat_chunks(out@) + self@ =~= old(self)@);
        loop
            invariant
                size > 0,
                concat_chunks(out@) + self@ == old(self)@,
                forall|k: int| 0 <= k < out@.len() ==> (#[trigger] out@[k])@.len() == size,
                old(self)@.len() > 0 ==> self@.len() > 0,
            decreases self@.len(),
        {
            let ghost before = self@;
            let ghost prev = out@;
            match self.next_chunk(size) {
                Some(c) => {
                    out.push(c);
                    assert(out@.drop_last() =~= prev);
                    assert(concat_chunks(out@) + self@ =~= concat_chunks(prev) + before);
                },
                None => {
                    return out;
                },
            }
        }
    }
}

} // verus!
