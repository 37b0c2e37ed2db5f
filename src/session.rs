//! The decisions of the capture side, as a state machine.
//!
//! The device work itself (waiting for readiness, reading, handing chunks on)
//! is done by the caller, which asks [`CaptureSession::next_action`] what to do
//! and reports back what happened. A wait that times out is retried without
//! end; only a device failure ends capture.

use vstd::prelude::*;
use crate::capture::CaptureBuffer;

verus! {

/// Where the capture side stands.
#[derive(Debug, Clone, Copy, PartialEq, Eq, Structural)]
pub enum CaptureState {
    /// Waiting for the device to signal that data is ready.
    WaitingForDevice,
    /// About to read what the device holds.
    Buffering,
    /// Handing out every full chunk the buffer holds.
    Draining,
    /// The device failed or the consumer went away; capture is over.
    FatalError,
}

/// How a wait for device readiness ended.
#[derive(Debug, Clone, Copy, PartialEq, Eq, Structural)]
pub enum WaitOutcome {
    /// Data is ready to be read.
    Ready,
    /// The wait timed out; capture keeps going.
    TimedOut,
    /// The device reported an error it cannot recover from.
    Failed,
}

/// What the caller is to do next.
#[derive(Debug)]
pub enum CaptureAction {
    /// Wait for the device to signal readiness, then report with `on_wait`.
    WaitForDevice,
    /// Read what the device holds, then report with `on_read`.
    ReadDevice,
    /// Hand this chunk to the consumer, then ask again.
    SendChunk(Vec<u8>),
    /// Capture is over.
    Stop,
}

/// State after a wait with outcome `o`, from state `s`.
pub open spec fn after_wait(s: CaptureState, o: WaitOutcome) -> CaptureState {
    match s {
        CaptureState::WaitingForDevice => match o {
            WaitOutcome::Ready => CaptureState::Draining,
            WaitOutcome::TimedOut => CaptureState::WaitingForDevice,
            WaitOutcome::Failed => CaptureState::FatalError,
        },
        _ => s,
    }
}

/// Capture state, the bytes not yet handed out, and the chunk size.
pub struct CaptureSession {
    state: CaptureState,
    buffer: CaptureBuffer,
    chunk_size: usize,
}

impl CaptureSession {
    /// Current state.
    pub closed spec fn phase(&self) -> CaptureState {
        self.state
    }

    /// Bytes received and not yet handed out, oldest first.
    pub closed spec fn buffered(&self) -> Seq<u8> {
        self.buffer@
    }

    /// Size in bytes of every chunk handed out.
    pub closed spec fn spec_chunk_size(&self) -> nat {
        self.chunk_size as nat
    }

    /// A session that starts by draining an empty buffer, cutting chunks of
    /// `chunk_size` bytes; `reserve` bytes are set aside for the buffer.
    pub fn new(chunk_size: usize, reserve: usize) -> (r: CaptureSession)
        requires
            chunk_size > 0,
        ensures
            r.phase() == CaptureState::Draining,
            r.buffered() == Seq::<u8>::empty(),
            r.spec_chunk_size() == chunk_size,
    {
        CaptureSession {
            state: CaptureState::Draining,
            buffer: CaptureBuffer::with_capacity(reserve),
            chunk_size,
        }
    }

    /// Current state.
    pub fn state(&self) -> (r: CaptureState)
        ensures
            r == self.phase(),
    {
        self.state
    }

    /// Number of bytes held back.
    pub fn buffered_len(&self) -> (r: usize)
        ensures
            r == self.buffered().len(),
    {
        self.buffer.len()
    }

    /// Decides the next step. While draining, a full chunk is handed out when more
    /// than a chunk's worth is held, and otherwise the session moves on to reading.
    pub fn next_action(&mut self) -> (r: CaptureAction)
        ensures
            final(self).spec_chunk_size() == old(self).spec_chunk_size(),
            old(self).phase() == CaptureState::Draining && old(self).buffered().len()
                > old(self).spec_chunk_size() ==> (match r {
                CaptureAction::SendChunk(c) => c@ == old(self).buffered().subrange(
                    0,
                    old(self).spec_chunk_size() as int,
                ),
                _ => false,
            }) && final(self).phase() == CaptureState::Draining && final(self).buffered() == old(
                self,
            ).buffered().subrange(
                old(self).spec_chunk_size() as int,
                old(self).buffered().len() as int,
            ),
            old(self).phase() == CaptureState::Draining && old(self).buffered().len()
                <= old(self).spec_chunk_size() ==> r is ReadDevice && final(self).phase()
                == CaptureState::Buffering && final(self).buffered() == old(self).buffered(),
            old(self).phase() == CaptureState::Buffering ==> r is ReadDevice && *final(self) == *old(
                self,
            ),
            old(self).phase() == CaptureState::WaitingForDevice ==> r is WaitForDevice
                && *final(self) == *old(self),
            old(self).phase() == CaptureState::FatalError ==> r is Stop && *final(self) == *old(
                self,
            ),
    {
        match self.state {
            CaptureState::Draining => match self.buffer.next_chunk(self.chunk_size) {
                Some(c) => CaptureAction::SendChunk(c),
                None => {
                    self.state = CaptureState::Buffering;
                    CaptureAction::ReadDevice
                },
            },
            CaptureState::Buffering => CaptureAction::ReadDevice,
            CaptureState::WaitingForDevice => CaptureAction::WaitForDevice,
            CaptureState::FatalError => CaptureAction::Stop,
        }
    }

    /// Reports bytes read from the device. While buffering they are added at the
    /// tail and the session goes on to wait; in any other state nothing changes.
    pub fn on_read(&mut self, data: &[u8])
        ensures
            final(self).spec_chunk_size() == old(self).spec_chunk_size(),
            old(self).phase() == CaptureState::Buffering ==> final(self).phase()
                == CaptureState::WaitingForDevice && final(self).buffered() == old(self).buffered()
                + data@,
            old(self).phase() != CaptureState::Buffering ==> *final(self) == *old(self),
    {
        if self.state == CaptureState::Buffering {
            self.buffer.append(data);
            self.state = CaptureState::WaitingForDevice;
        }
    }

    /// Reports how a wait for readiness ended.
    pub fn on_wait(&mut self, outcome: WaitOutcome)
        ensures
            final(self).phase() == after_wait(old(self).phase(), outcome),
            final(self).buffered() == old(self).buffered(),
            final(self).spec_chunk_size() == old(self).spec_chunk_size(),
    {
        if self.state == CaptureState::WaitingForDevice {
            self.state = match outcome {
                WaitOutcome::Ready => CaptureState::Draining,
                WaitOutcome::TimedOut => CaptureState::WaitingForDevice,
                WaitOutcome::Failed => CaptureState::FatalError,
            };
        }
    }

    /// Reports a failure that ends capture: a failed read, or a consumer gone.
    pub fn on_failure(&mut self)
        ensures
            final(self).phase() == CaptureState::FatalError,
            final(self).buffered() == old(self).buffered(),
            final(self).spec_chunk_size() == old(self).spec_chunk_size(),
    {
        self.state = CaptureState::FatalError;
    }
}

} // verus!
