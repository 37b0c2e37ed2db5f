//! A bounded hand-off of chunks from the capture side to the analysis side.
//!
//! A send into a full pipe is refused and hands the chunk back: the producer
//! waits until the consumer has taken a chunk, which is what bounds memory when
//! analysis falls behind capture. Chunks leave in the order they came in.

use vstd::prelude::*;
use std::collections::VecDeque;

verus! {

/// Why a chunk was not accepted; the chunk is handed back unchanged.
#[derive(Debug)]
pub enum SendError {
    /// The pipe already holds as many chunks as its capacity.
    Full(Vec<u8>),
    /// The pipe was closed; no more chunks are accepted.
    Closed(Vec<u8>),
}

/// A first-in first-out queue of chunks holding at most `capacity` of them.
pub struct CapturePipe {
    capacity: usize,
    queue: VecDeque<Vec<u8>>,
    closed: bool,
}

impl CapturePipe {
    /// Chunks waiting to be received, oldest first.
    pub closed spec fn pending(&self) -> Seq<Vec<u8>> {
        self.queue@
    }

    /// Most chunks the pipe holds at once.
    pub closed spec fn max_pending(&self) -> nat {
        self.capacity as nat
    }

    /// Whether the sending side has shut the pipe.
    pub closed spec fn is_shut(&self) -> bool {
        self.closed
    }

    /// The pipe's invariant: a positive capacity that the pending chunks respect.
    pub open spec fn wf(&self) -> bool {
        &&& self.max_pending() > 0
        &&& self.pending().len() <= self.max_pending()
    }

    /// An open, empty pipe for at most `capacity` chunks.
    pub fn new(capacity: usize) -> (r: CapturePipe)
        requires
            capacity > 0,
        ensures
            r.wf(),
            r.pending() == Seq::<Vec<u8>>::empty(),
            r.max_pending() == capacity,
            !r.is_shut(),
    {
        CapturePipe { capacity, queue: VecDeque::new(), closed: false }
    }

    /// Offers `chunk` to the pipe. It is queued at the tail when the pipe is
    /// open and not full; otherwise it comes back in the error.
    pub fn try_send(&mut self, chunk: Vec<u8>) -> (r: Result<(), SendError>)
        requires
            old(self).wf(),
        ensures
            final(self).wf(),
            final(self).max_pending() == old(self).max_pending(),
            final(self).is_shut() == old(self).is_shut(),
            old(self).is_shut() ==> (match r {
                Err(SendError::Closed(c)) => c == chunk,
                _ => false,
            }) && final(self).pending() == old(self).pending(),
            !old(self).is_shut() && old(self).pending().len() == old(self).max_pending() ==> (
            match r {
                Err(SendError::Full(c)) => c == chunk,
                _ => false,
            }) && final(self).pending() == old(self).pending(),
            !old(self).is_shut() && old(self).pending().len() < old(self).max_pending() ==> r is Ok
                && final(self).pending() == old(self).pending().push(chunk),
    {
        if self.closed {
            return Err(SendError::Closed(chunk));
        }
        if self.queue.len() >= self.capacity {
            return Err(SendError::Full(chunk));
        }
        self.queue.push_back(chunk);
        Ok(())
    }

    /// Takes the oldest pending chunk, if any.
    pub fn try_recv(&mut self) -> (r: Option<Vec<u8>>)
        requires
            old(self).wf(),
        ensures
            final(self).wf(),
            final(self).max_pending() == old(self).max_pending(),
            final(self).is_shut() == old(self).is_shut(),
            old(self).pending().len() == 0 ==> r is None && final(self).pending() == old(
                self,
            ).pending(),
            old(self).pending().len() > 0 ==> r == Some(old(self).pending()[0])
                && final(self).pending() == old(self).pending().drop_first(),
    {
        let r = self.queue.pop_front();
        proof {
            if old(self).pending().len() > 0 {
                assert(self.queue@ =~= old(self).pending().drop_first());
            }
        }
        r
    }

    /// Shuts the pipe: chunks already queued can still be received.
    pub fn close(&mut self)
        requires
            old(self).wf(),
        ensures
            final(self).wf(),
            final(self).is_shut(),
            final(self).pending() == old(self).pending(),
            final(self).max_pending() == old(self).max_pending(),
    {
        self.closed = true;
    }

    /// Whether the pipe has been shut.
    pub fn is_closed(&self) -> (r: bool)
        ensures
            r == self.is_shut(),
    {
        self.closed
    }

    /// Whether the pipe is shut and empty: the consumer has nothing more to wait for.
    pub fn is_finished(&self) -> (r: bool)
        ensures
            r == (self.is_shut() && self.pending().len() == 0),
    {
        self.closed && self.queue.len() == 0
    }

    /// Number of chunks waiting.
    pub fn len(&self) -> (r: usize)
        ensures
            r == self.pending().len(),
    {
        self.queue.len()
    }

    /// Most chunks the pipe holds at once.
    pub fn capacity(&self) -> (r: usize)
        ensures
            r == self.max_pending(),
    {
        self.capacity
    }
}

} // verus!
