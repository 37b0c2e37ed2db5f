//! Turning onset positions into a tempo, and folding a tempo into the canonical
//! octave of 60 to 180 beats per minute.
//!
//! An onset is given by the index of the envelope window where it was seen: the
//! onset at index `i` lies `i * window / rate` seconds after the chunk start,
//! where `window = rate / 10` samples. Keeping indices instead of seconds keeps
//! every step exact.

use vstd::prelude::*;
use vstd::arithmetic::div_mod::{lemma_div_is_ordered_by_denominator, lemma_div_multiples_vanish};

verus! {

/// Ways in which one chunk of audio yields no tempo.
#[derive(Debug, Clone, Copy, PartialEq, Eq, Structural)]
pub enum AnalysisError {
    /// The chunk's length is not a whole number of 16-bit samples.
    MalformedChunk,
    /// Fewer than two onsets were found, so no interval can be formed.
    NoBeatDetected,
}

/// Lower edge of the canonical tempo octave.
pub const MIN_BPM: u64 = 60;

/// Upper edge of the canonical tempo octave.
pub const MAX_BPM: u64 = 180;

/// Number of samples in one 100 ms envelope window.
pub open spec fn window_len(rate: u32) -> nat {
    (rate / 10) as nat
}

/// The onset indices are strictly increasing.
pub open spec fn strictly_increasing(p: Seq<usize>) -> bool {
    forall|i: int, j: int| 0 <= i < j < p.len() ==> p[i] < p[j]
}

/// Sum of the gaps between consecutive onsets, in windows.
pub open spec fn interval_sum(p: Seq<usize>) -> int
    decreases p.len(),
{
    if p.len() < 2 {
        0
    } else {
        interval_sum(p.drop_last()) + (p.last() - p[p.len() - 2])
    }
}

/// `floor(60 / mean interval)`, where the mean interval in seconds is
/// `interval_sum(p) * window / (rate * (len(p) - 1))`.
pub open spec fn tempo_of(p: Seq<usize>, rate: u32) -> int {
    (60 * rate * (p.len() - 1)) / (interval_sum(p) * window_len(rate))
}

/// Result of tempo estimation on onset indices `p`.
pub open spec fn estimate_spec(p: Seq<usize>, rate: u32) -> Result<u64, AnalysisError> {
    if p.len() < 2 {
        Err(AnalysisError::NoBeatDetected)
    } else {
        Ok(tempo_of(p, rate) as u64)
    }
}

/// The gaps between consecutive onsets add up to the span from first to last.
pub proof fn lemma_interval_sum_telescopes(p: Seq<usize>)
    requires
        p.len() >= 1,
    ensures
        interval_sum(p) == p.last() - p[0],
    decreases p.len(),
{
    if p.len() >= 2 {
        lemma_interval_sum_telescopes(p.drop_last());
    }
}

/// Estimates the tempo of onsets at window indices `peaks`, sampled at `sample_rate`.
pub fn estimate_tempo(peaks: &Vec<usize>, sample_rate: u32) -> (r: Result<u64, AnalysisError>)
    requires
        sample_rate >= 10,
        strictly_increasing(peaks@),
    ensures
        r == estimate_spec(peaks@, sample_rate),
        peaks@.len() < 2 ==> r == Err::<u64, AnalysisError>(AnalysisError::NoBeatDetected),
        r is Ok ==> r->Ok_0 <= 60 * sample_rate,
{
    let n = peaks.len();
    if n < 2 {
        return Err(AnalysisError::NoBeatDetected);
    }
    let mut sum: usize = 0;
    let mut i: usize = 0;
    while i + 1 < n
        invariant
            n == peaks@.len(),
            n >= 2,
            i < n,
            strictly_increasing(peaks@),
            sum == peaks@[i as int] - peaks@[0],
            sum >= i,
            sum == interval_sum(peaks@.subrange(0, i as int + 1)),
        decreases n - i,
    {
        let ghost prev = peaks@.subrange(0, i as int + 1);
        assert(peaks@.subrange(0, i as int + 2).drop_last() =~= prev);
        sum = sum + (peaks[i + 1] - peaks[i]);
        i = i + 1;
    }
    assert(peaks@.subrange(0, n as int) =~= peaks@);
    let window: u128 = (sample_rate / 10) as u128;
    let intervals: u128 = (n - 1) as u128;
    assert(window <= 0xffff_ffff);
    assert((sum as u128) * window <= 0xffff_ffff_ffff_ffff * 0xffff_ffff) by (nonlinear_arith)
        requires
            sum <= 0xffff_ffff_ffff_ffff,
            window <= 0xffff_ffff,
    ;
    assert(60 * (sample_rate as u128) * intervals <= 60 * 0xffff_ffff * 0xffff_ffff_ffff_ffff)
        by (nonlinear_arith)
        requires
            sample_rate <= 0xffff_ffff,
            intervals <= 0xffff_ffff_ffff_ffff,
    ;
    let num: u128 = 60 * (sample_rate as u128) * intervals;
    let den: u128 = (sum as u128) * window;
    proof {
        assert(sum >= n - 1);
        assert(window >= 1);
        assert(den >= intervals) by (nonlinear_arith)
            requires
                den == sum * window,
                sum >= intervals,
                window >= 1,
        ;
        let x: int = 60 * sample_rate;
        assert(num == intervals * x) by (nonlinear_arith)
            requires
                num == 60 * sample_rate * intervals,
                x == 60 * sample_rate,
        ;
        lemma_div_is_ordered_by_denominator(num as int, intervals as int, den as int);
        lemma_div_multiples_vanish(x, intervals as int);
    }
    let bpm: u128 = num / den;
    Ok(bpm as u64)
}

/// Tempo folded into the canonical octave: doubled while below 60, halved
/// (rounding down) while above 180. Zero has no octave and stays zero.
pub open spec fn normalized(b: nat) -> nat
    decreases
            (if b < 60 {
                1nat
            } else {
                0nat
            }),
            (if b < 60 {
                (60 - b) as nat
            } else {
                b
            }),
{
    if b == 0 {
        0
    } else if b < 60 {
        normalized(2 * b)
    } else if b > 180 {
        normalized(b / 2)
    } else {
        b
    }
}

/// Every positive tempo folds into the band from 60 to 180.
pub proof fn lemma_normalized_in_band(b: nat)
    requires
        b > 0,
    ensures
        60 <= normalized(b) <= 180,
    decreases
            (if b < 60 {
                1nat
            } else {
                0nat
            }),
            (if b < 60 {
                (60 - b) as nat
            } else {
                b
            }),
{
    if b < 60 {
        lemma_normalized_in_band(2 * b);
    } else if b > 180 {
        lemma_normalized_in_band(b / 2);
    }
}

/// A tempo already inside the band is left as it is.
pub proof fn lemma_normalized_fixed_in_band(b: nat)
    requires
        60 <= b <= 180,
    ensures
        normalized(b) == b,
{
}

/// Zero stays zero: the degenerate tempo is returned without folding.
pub proof fn lemma_normalized_zero()
    ensures
        normalized(0) == 0,
{
}

/// Folds a tempo into the canonical octave.
pub fn normalize_octave(bpm: u64) -> (r: u64)
    ensures
        r == normalized(bpm as nat),
        bpm == 0 ==> r == 0,
        bpm > 0 ==> MIN_BPM <= r <= MAX_BPM,
        MIN_BPM <= bpm <= MAX_BPM ==> r == bpm,
{
    if bpm == 0 {
        return 0;
    }
    proof {
        lemma_normalized_in_band(bpm as nat);
    }
    let mut b: u64 = bpm;
    while b < MIN_BPM
        invariant
            0 < b,
            normalized(b as nat) == normalized(bpm as nat),
        decreases (if b < MIN_BPM {
            MIN_BPM - b
        } else {
            0
        }),
    {
        b = b * 2;
    }
    while b > MAX_BPM
        invariant
            b >= MIN_BPM,
            normalized(b as nat) == normalized(bpm as nat),
        decreases b,
    {
        b = b / 2;
    }
    b
}

} // verus!
