//! The downmixer: converts a stereo buffer into mono, averaging each
//! consecutive sample pair with truncation toward negative infinity.

use vstd::prelude::*;
use crate::errors::DownmixError;
use crate::pcm::{AudioBuffer, PcmSpec};

verus! {

/// One mono sample: `floor((left + right) / 2)`, not dithered.
pub open spec fn spec_mono_sample(l: i16, r: i16) -> int {
    (l as int + r as int) / 2
}

/// The downmix of an interleaved stereo sample sequence.
pub open spec fn spec_downmixed(s: Seq<i16>) -> Seq<i16> {
    Seq::new(
        (s.len() as int / 2) as nat,
        |i: int| spec_mono_sample(s[2 * i], s[2 * i + 1]) as i16,
    )
}

/// Floor of the average of one stereo sample pair.
pub fn mono_sample(l: i16, r: i16) -> (m: i16)
    ensures
        m as int == spec_mono_sample(l, r),
{
    let s: i32 = l as i32 + r as i32;
    let q: i32 = if s >= 0 {
        s / 2
    } else {
        let t: i32 = -s;
        if t % 2 == 0 {
            -(t / 2)
        } else {
            -(t / 2) - 1
        }
    };
    q as i16
}

/// Downmixes a buffer known to be stereo.
pub fn downmix_core(audio: &AudioBuffer) -> (m: AudioBuffer)
    requires
        audio.wf(),
        audio.format.channels == 2,
    ensures
        m.wf(),
        m.format.channels == 1,
        m.format.sample_rate == audio.format.sample_rate,
        m.samples@ == spec_downmixed(audio.samples@),
{
    let frames: usize = audio.samples.len() / 2;
    let mut out: Vec<i16> = Vec::new();
    let mut i: usize = 0;
    while i < frames
        invariant
            i <= frames,
            audio.samples@.len() <= usize::MAX,
            frames == audio.samples@.len() as int / 2,
            audio.samples@.len() as int % 2 == 0,
            out@ =~= spec_downmixed(audio.samples@).take(i as int),
        decreases frames - i,
    {
        proof {
            assert(2 * (audio.samples@.len() as int / 2) == audio.samples@.len() as int);
            assert(2 * i + 1 < audio.samples@.len());
        }
        let m = mono_sample(audio.samples[2 * i], audio.samples[2 * i + 1]);
        out.push(m);
        proof {
            assert(out@ =~= spec_downmixed(audio.samples@).take(i + 1));
        }
        i = i + 1;
    }
    proof {
        assert(spec_downmixed(audio.samples@).take(frames as int) =~= spec_downmixed(
            audio.samples@,
        ));
    }
    AudioBuffer {
        format: PcmSpec { channels: 1, sample_rate: audio.format.sample_rate },
        samples: out,
    }
}

/// Downmixes a stereo buffer to mono. Fails, and never passes the input
/// through, unless the buffer is exactly two channels wide.
pub fn downmix_buffer(audio: &AudioBuffer) -> (r: Result<AudioBuffer, DownmixError>)
    requires
        audio.wf(),
    ensures
        match r {
            Ok(m) => {
                &&& audio.format.channels == 2
                &&& m.wf()
                &&& m.format.channels == 1
                &&& m.format.sample_rate == audio.format.sample_rate
                &&& m.samples@ == spec_downmixed(audio.samples@)
            },
            Err(e) => e == DownmixError::NotStereo && audio.format.channels != 2,
        },
{
    if audio.format.channels != 2 {
        return Err(DownmixError::NotStereo);
    }
    Ok(downmix_core(audio))
}

} // verus!
