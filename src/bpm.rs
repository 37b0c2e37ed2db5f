//! The whole analysis of one chunk: samples to envelope to onsets to tempo.

use vstd::prelude::*;
use crate::decode::{decode_le16, le16_at};
use crate::energy::{energy_envelope, envelope_of, lemma_constant_envelope_never_rises};
use crate::peaks::{as_ints, detect_peaks, diffs_of, lemma_no_rise_no_onset, onsets_of};
use crate::tempo::{
    estimate_spec, estimate_tempo, normalize_octave, normalized, window_len, AnalysisError,
};

verus! {

/// Sample rate of the capture stream, in samples per second.
pub const SAMPLE_RATE: u32 = 44100;

/// The unsigned samples held in a chunk of whole 16-bit little-endian samples.
pub open spec fn samples_of(bytes: Seq<u8>) -> Seq<u16> {
    Seq::new(bytes.len() / 2, |i: int| le16_at(bytes, i))
}

/// Tempo of `samples` before octave folding, or why there is none.
pub open spec fn raw_tempo(samples: Seq<u16>, rate: u32) -> Result<u64, AnalysisError> {
    estimate_spec(onsets_of(envelope_of(samples, window_len(rate))), rate)
}

/// What one chunk of bytes yields: a folded tempo, or why there is none.
pub open spec fn chunk_tempo(bytes: Seq<u8>, rate: u32) -> Result<u64, AnalysisError> {
    if bytes.len() % 2 == 1 {
        Err(AnalysisError::MalformedChunk)
    } else {
        match raw_tempo(samples_of(bytes), rate) {
            Ok(b) => Ok(normalized(b as nat) as u64),
            Err(e) => Err(e),
        }
    }
}

/// A stream of equal samples, silence included, never rises in energy, so no
/// onset is found in it and no tempo comes out.
pub proof fn lemma_constant_stream_has_no_beat(samples: Seq<u16>, c: u16, rate: u32)
    requires
        rate >= 10,
        forall|i: int| 0 <= i < samples.len() ==> samples[i] == c,
    ensures
        raw_tempo(samples, rate) == Err::<u64, AnalysisError>(AnalysisError::NoBeatDetected),
{
    let w = window_len(rate);
    let e = envelope_of(samples, w);
    let d = diffs_of(e);
    assert forall|i: int| 0 <= i < d.len() implies d[i] <= 0 by {
        lemma_constant_envelope_never_rises(samples, c, w, i);
    }
    lemma_no_rise_no_onset(d, d.len());
}

/// A chunk of zero bytes made of whole samples yields no tempo.
pub proof fn lemma_zero_chunk_has_no_beat(bytes: Seq<u8>, rate: u32)
    requires
        rate >= 10,
        bytes.len() % 2 == 0,
        forall|i: int| 0 <= i < bytes.len() ==> bytes[i] == 0,
    ensures
        chunk_tempo(bytes, rate) == Err::<u64, AnalysisError>(AnalysisError::NoBeatDetected),
{
    let s = samples_of(bytes);
    assert forall|i: int| 0 <= i < s.len() implies s[i] == 0u16 by {
        assert(bytes[2 * i] == 0 && bytes[2 * i + 1] == 0);
    }
    lemma_constant_stream_has_no_beat(s, 0u16, rate);
}

/// Envelope, onsets and tempo of `samples`, before octave folding.
fn raw_tempo_of(samples: &Vec<u16>, sample_rate: u32) -> (r: Result<u64, AnalysisError>)
    requires
        sample_rate >= 10,
    ensures
        r == raw_tempo(samples@, sample_rate),
        r is Ok ==> r->Ok_0 <= 60 * sample_rate,
{
    let envelope = energy_envelope(samples, sample_rate);
    assert(as_ints(envelope@) =~= envelope_of(samples@, window_len(sample_rate)));
    let peaks = detect_peaks(&envelope);
    estimate_tempo(&peaks, sample_rate)
}

/// Tempo of 16-bit unsigned samples at 44100 Hz, before octave folding;
/// 0 where fewer than two onsets are found.
pub fn bpm_detect(audio_data: Vec<u16>) -> (r: usize)
    ensures
        r == match raw_tempo(audio_data@, SAMPLE_RATE) {
            Ok(b) => b as int,
            Err(_) => 0,
        },
{
    match raw_tempo_of(&audio_data, SAMPLE_RATE) {
        Ok(b) => b as usize,
        Err(_) => 0,
    }
}

/// Decodes one chunk and estimates its tempo, folded into the canonical octave.
pub fn analyze_chunk(chunk: &Vec<u8>, sample_rate: u32) -> (r: Result<u64, AnalysisError>)
    requires
        sample_rate >= 10,
    ensures
        r == chunk_tempo(chunk@, sample_rate),
        r is Ok ==> r->Ok_0 == 0 || (60 <= r->Ok_0 <= 180),
{
    let samples = match decode_le16(chunk) {
        Ok(s) => s,
        Err(e) => {
            return Err(e);
        },
    };
    assert(samples@ =~= samples_of(chunk@));
    match raw_tempo_of(&samples, sample_rate) {
        Ok(b) => Ok(normalize_octave(b)),
        Err(e) => Err(e),
    }
}

} // verus!
