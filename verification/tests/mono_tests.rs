use stem_align::errors::DownmixError;
use stem_align::mono::{downmix_buffer, mono_sample};
use stem_align::pcm::{AudioBuffer, PcmSpec};

// The stereo pair (100, -100) averages to 0; (100, 101) averages to 100,
// the floor of 100.5.
#[test]
fn downmix_pairs() {
    assert_eq!(mono_sample(100, -100), 0);
    assert_eq!(mono_sample(100, 101), 100);
}

// The average rounds toward negative infinity.
#[test]
fn downmix_negative_floor() {
    assert_eq!(mono_sample(-3, 0), -2);
    assert_eq!(mono_sample(-100, -101), -101);
}

// Extreme samples stay within range.
#[test]
fn downmix_extremes() {
    assert_eq!(mono_sample(i16::MIN, i16::MIN), i16::MIN);
    assert_eq!(mono_sample(i16::MAX, i16::MAX), i16::MAX);
}

// A stereo buffer downmixes pair by pair, halving the sample count and
// keeping the rate.
#[test]
fn downmix_buffer_pairs() {
    let audio = AudioBuffer {
        format: PcmSpec { channels: 2, sample_rate: 22050 },
        samples: vec![100, -100, 100, 101, 7, 7],
    };
    let mono = downmix_buffer(&audio).unwrap();
    assert_eq!(mono.samples, vec![0, 100, 7]);
    assert_eq!(mono.format.channels, 1);
    assert_eq!(mono.format.sample_rate, 22050);
}

// Mono input to the downmixer always fails; it is never passed through.
#[test]
fn downmix_rejects_mono() {
    let audio = AudioBuffer {
        format: PcmSpec { channels: 1, sample_rate: 44100 },
        samples: vec![1, 2, 3, 4],
    };
    match downmix_buffer(&audio) {
        Err(DownmixError::NotStereo) => {}
        Ok(_) => panic!("mono input must not pass through the downmixer"),
    }
}
