//! Tempo estimation for a live stream of 16-bit audio samples.
//!
//! Bytes from a capture device are gathered by [`capture::CaptureBuffer`], cut
//! into fixed-size chunks, handed through the bounded [`pipe::CapturePipe`], and
//! each chunk is decoded, turned into an energy envelope, searched for energy
//! onsets, and reduced to a tempo in beats per minute.

pub mod bpm;
pub mod capture;
pub mod decode;
pub mod energy;
pub mod peaks;
pub mod pipe;
pub mod session;
pub mod tempo;
