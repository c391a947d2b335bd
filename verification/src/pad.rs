//! The padder: re-materializes a track with computed silence prepended, in
//! one pass over the decoded samples.

use vstd::prelude::*;
use crate::align::{TrackDuration, padding_frame_count, spec_padding_frames};
use crate::pcm::AudioBuffer;

verus! {

/// `n` interleaved samples of digital silence.
pub open spec fn zero_samples(n: int) -> Seq<i16> {
    Seq::new(n as nat, |i: int| 0i16)
}

/// Prepends `pad_count` zero samples to the given interleaved samples.
pub fn build_padded_samples(samples: &Vec<i16>, pad_count: usize) -> (r: Vec<i16>)
    ensures
        r@ == zero_samples(pad_count as int) + samples@,
        r@.len() == pad_count + samples@.len(),
{
    let mut out: Vec<i16> = Vec::new();
    let mut i: usize = 0;
    while i < pad_count
        invariant
            i <= pad_count,
            out@ =~= zero_samples(i as int),
        decreases pad_count - i,
    {
        out.push(0i16);
        proof {
            assert(out@ =~= zero_samples(i + 1));
        }
        i = i + 1;
    }
    let mut j: usize = 0;
    while j < samples.len()
        invariant
            j <= samples@.len(),
            out@ =~= zero_samples(pad_count as int) + samples@.take(j as int),
        decreases samples@.len() - j,
    {
        out.push(samples[j]);
        proof {
            assert(out@ =~= zero_samples(pad_count as int) + samples@.take(j + 1));
        }
        j = j + 1;
    }
    proof {
        assert(samples@.take(samples@.len() as int) =~= samples@);
        assert(out@ =~= zero_samples(pad_count as int) + samples@);
    }
    out
}

/// Number of interleaved padding samples for one member track:
/// `floor(padding_duration * rate) * channels`.
pub open spec fn spec_padding_samples(reference: TrackDuration, audio: AudioBuffer) -> int {
    spec_padding_frames(
        reference.frames as int,
        reference.rate as int,
        audio.spec_frames(),
        audio.format.sample_rate as int,
    ) * (audio.format.channels as int)
}

/// Produces the aligned stereo track: exactly
/// `floor(padding_duration * rate) * channels` zero samples, then the
/// original decoded samples, unchanged.
pub fn apply_padding(audio: &AudioBuffer, reference: &TrackDuration) -> (r: AudioBuffer)
    requires
        audio.wf(),
        audio.format.channels == 2,
        reference.wf(),
        spec_padding_samples(*reference, *audio) + audio.samples@.len() <= usize::MAX,
    ensures
        r.wf(),
        r.format == audio.format,
        r.samples@ == zero_samples(spec_padding_samples(*reference, *audio)) + audio.samples@,
{
    let duration = audio.duration();
    let pad_frames: u128 = padding_frame_count(reference, &duration);
    let pad_count: usize = (pad_frames as usize) * 2;
    let samples = build_padded_samples(&audio.samples, pad_count);
    proof {
        let total = samples@.len() as int;
        assert(total % 2 == 0);
    }
    AudioBuffer { format: audio.format, samples }
}

} // verus!
