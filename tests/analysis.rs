use bpm_capture::bpm::{analyze_chunk, bpm_detect, SAMPLE_RATE};
use bpm_capture::decode::decode_le16;
use bpm_capture::energy::energy_envelope;
use bpm_capture::peaks::detect_peaks;
use bpm_capture::tempo::{estimate_tempo, normalize_octave, AnalysisError};

const SILENT: u16 = 32768;
const LOUD: u16 = 65535;
const SPIKE_LEN: usize = 441;

/// Five seconds at 44100 Hz, silent but for a short full-scale burst at each start.
fn spike_stream(spacing: usize) -> Vec<u16> {
    let total = 44100 * 5;
    let mut s = vec![SILENT; total];
    let mut start = 0;
    while start < total {
        for k in start..(start + SPIKE_LEN).min(total) {
            s[k] = LOUD;
        }
        start += spacing;
    }
    s
}

fn to_bytes(samples: &[u16]) -> Vec<u8> {
    let mut out = Vec::new();
    for s in samples {
        out.extend_from_slice(&s.to_le_bytes());
    }
    out
}

#[test]
fn normalize_zero_stays_zero() {
    assert_eq!(normalize_octave(0), 0);
}

#[test]
fn normalize_keeps_band_values() {
    for b in 60..=180u64 {
        assert_eq!(normalize_octave(b), b);
    }
}

#[test]
fn normalize_folds_into_band() {
    assert_eq!(normalize_octave(240), 120);
    assert_eq!(normalize_octave(181), 90);
    assert_eq!(normalize_octave(59), 118);
    assert_eq!(normalize_octave(30), 60);
    assert_eq!(normalize_octave(1), 64);
    assert_eq!(normalize_octave(1000), 125);
    for b in 1..5000u64 {
        let r = normalize_octave(b);
        assert!((60..=180).contains(&r));
    }
}

#[test]
fn decode_reads_low_byte_first() {
    let r = decode_le16(&vec![0x34, 0x12, 0xff, 0x00]).unwrap();
    assert_eq!(r, vec![0x1234, 0x00ff]);
    assert_eq!(decode_le16(&vec![]).unwrap(), Vec::<u16>::new());
}

#[test]
fn decode_refuses_odd_length() {
    assert_eq!(decode_le16(&vec![1, 2, 3]), Err(AnalysisError::MalformedChunk));
}

#[test]
fn envelope_length_is_ceiling_of_windows() {
    assert_eq!(energy_envelope(&vec![SILENT; 44100], 44100).len(), 10);
    assert_eq!(energy_envelope(&vec![SILENT; 44101], 44100).len(), 11);
    assert_eq!(energy_envelope(&vec![SILENT; 1], 44100).len(), 1);
    assert!(energy_envelope(&vec![], 44100).is_empty());
}

#[test]
fn envelope_sums_squared_amplitudes() {
    // Windows of two samples at 20 Hz; the last window is short.
    let s = vec![SILENT + 3, SILENT - 4, 0, SILENT, LOUD];
    let e = energy_envelope(&s, 20);
    assert_eq!(e, vec![25, 1 << 30, 32767 * 32767]);
}

#[test]
fn envelope_of_zero_samples_is_constant() {
    let e = energy_envelope(&vec![0u16; 10], 40);
    assert_eq!(e, vec![4 << 30, 4 << 30, 2 << 30]);
}

#[test]
fn peaks_above_three_fifths_of_largest_rise() {
    assert_eq!(detect_peaks(&vec![0, 10, 10, 20, 0]), vec![0, 2]);
    assert_eq!(detect_peaks(&vec![0, 10, 15, 16]), vec![0]);
    assert_eq!(detect_peaks(&vec![0, 10, 16, 16]), vec![0]);
    assert_eq!(detect_peaks(&vec![0, 10, 17, 17]), vec![0, 1]);
}

#[test]
fn peaks_none_below_two_windows() {
    assert!(detect_peaks(&vec![]).is_empty());
    assert!(detect_peaks(&vec![123]).is_empty());
}

#[test]
fn peaks_none_without_rise() {
    assert!(detect_peaks(&vec![5, 5, 5, 5]).is_empty());
    assert!(detect_peaks(&vec![9, 7, 4, 0]).is_empty());
}

#[test]
fn estimate_needs_two_onsets() {
    assert_eq!(estimate_tempo(&vec![], 44100), Err(AnalysisError::NoBeatDetected));
    assert_eq!(estimate_tempo(&vec![7], 44100), Err(AnalysisError::NoBeatDetected));
}

#[test]
fn estimate_from_mean_interval() {
    assert_eq!(estimate_tempo(&vec![4, 9, 14], 44100), Ok(120));
    assert_eq!(estimate_tempo(&vec![1, 4, 6, 9, 11], 44100), Ok(240));
    assert_eq!(estimate_tempo(&vec![0, 3], 44100), Ok(200));
    assert_eq!(estimate_tempo(&vec![0, 7], 44100), Ok(85));
}

#[test]
fn silent_chunk_has_no_beat() {
    let chunk = vec![0u8; 2 * 44100 * 5];
    assert_eq!(analyze_chunk(&chunk, SAMPLE_RATE), Err(AnalysisError::NoBeatDetected));
    let quiet = to_bytes(&vec![SILENT; 3001]);
    assert_eq!(analyze_chunk(&quiet, SAMPLE_RATE), Err(AnalysisError::NoBeatDetected));
    assert_eq!(bpm_detect(vec![0u16; 12345]), 0);
}

#[test]
fn odd_chunk_is_malformed() {
    assert_eq!(analyze_chunk(&vec![0u8; 7], SAMPLE_RATE), Err(AnalysisError::MalformedChunk));
}

#[test]
fn spikes_every_half_second_give_120() {
    let s = spike_stream(22050);
    assert_eq!(bpm_detect(s.clone()), 120);
    assert_eq!(analyze_chunk(&to_bytes(&s), SAMPLE_RATE), Ok(120));
}

#[test]
fn spikes_every_quarter_second_fold_to_120() {
    let s = spike_stream(11025);
    assert_eq!(bpm_detect(s.clone()), 240);
    assert_eq!(analyze_chunk(&to_bytes(&s), SAMPLE_RATE), Ok(120));
}
