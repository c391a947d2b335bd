use stem_align::align::TrackDuration;
use stem_align::pad::{apply_padding, build_padded_samples};
use stem_align::pcm::{AudioBuffer, PcmSpec};

// The padding region is all zeros and the original samples follow
// unchanged.
#[test]
fn padded_samples_layout() {
    let samples = vec![5i16, -6, 7, -8];
    let padded = build_padded_samples(&samples, 6);
    assert_eq!(padded.len(), 10);
    assert_eq!(&padded[..6], &[0i16; 6]);
    assert_eq!(&padded[6..], &[5, -6, 7, -8]);
}

// The padding region of an aligned stereo asset holds exactly
// floor(padding * rate) * channels zero samples.
#[test]
fn apply_padding_length() {
    // member: 2.0 s at 44100 Hz stereo; reference: 3.0 s
    let audio = AudioBuffer {
        format: PcmSpec { channels: 2, sample_rate: 44100 },
        samples: vec![9i16; 176400],
    };
    let reference = TrackDuration { frames: 132300, rate: 44100 };
    let padded = apply_padding(&audio, &reference);
    // 1.0 s of padding: 44100 frames, 88200 interleaved samples
    assert_eq!(padded.samples.len(), 264600);
    assert!(padded.samples[..88200].iter().all(|&s| s == 0));
    assert!(padded.samples[88200..].iter().all(|&s| s == 9));
    assert_eq!(padded.format.sample_rate, 44100);
    assert_eq!(padded.format.channels, 2);
}

// A member longer than the reference is preserved, not trimmed.
#[test]
fn apply_padding_excess_preserved() {
    let audio = AudioBuffer {
        format: PcmSpec { channels: 2, sample_rate: 44100 },
        samples: vec![3i16; 308700],
    };
    let reference = TrackDuration { frames: 132300, rate: 44100 };
    let padded = apply_padding(&audio, &reference);
    assert_eq!(padded.samples.len(), 308700);
    assert!(padded.samples.iter().all(|&s| s == 3));
}
