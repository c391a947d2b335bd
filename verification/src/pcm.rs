//! Decoded audio: forced-stereo 16-bit PCM buffers and their durations.
//!
//! The decode edge hands this module one packet's worth of per-channel
//! samples at a time; the assembly here interleaves them, duplicating a
//! mono source into both channels, so every decoded track comes out with
//! exactly two channels.

use vstd::prelude::*;
use crate::align::TrackDuration;

verus! {

/// Format of a PCM buffer. Bit depth is fixed at 16 throughout.
#[derive(Clone, Copy, PartialEq, Eq, Structural, Debug)]
pub struct PcmSpec {
    pub channels: u16,
    pub sample_rate: u32,
}

impl PcmSpec {
    pub open spec fn wf(self) -> bool {
        &&& 1 <= self.channels <= 2
        &&& self.sample_rate >= 1
    }
}

/// Interleaving of two equally long channel planes: left samples at even
/// positions, right samples at odd ones.
pub open spec fn spec_interleaved(l: Seq<i16>, r: Seq<i16>) -> Seq<i16> {
    Seq::new(2 * l.len(), |i: int| if i % 2 == 0 { l[i / 2] } else { r[i / 2] })
}

/// A decoded track: interleaved 16-bit samples plus their format.
pub struct AudioBuffer {
    pub format: PcmSpec,
    pub samples: Vec<i16>,
}

impl AudioBuffer {
    /// The sample count is always a whole number of frames.
    pub open spec fn wf(self) -> bool {
        &&& self.format.wf()
        &&& self.samples@.len() as int % (self.format.channels as int) == 0
    }

    /// Number of frames: one sample per channel each.
    pub open spec fn spec_frames(self) -> int {
        self.samples@.len() as int / (self.format.channels as int)
    }

    /// Fresh, empty forced-stereo buffer for the decode assembly.
    pub fn new_stereo(sample_rate: u32) -> (r: AudioBuffer)
        requires
            sample_rate >= 1,
        ensures
            r.wf(),
            r.format.channels == 2,
            r.format.sample_rate == sample_rate,
            r.samples@ =~= Seq::<i16>::empty(),
    {
        AudioBuffer { format: PcmSpec { channels: 2, sample_rate }, samples: Vec::new() }
    }

    /// Appends one packet of two-channel audio, interleaving the planes.
    pub fn push_stereo_frames(&mut self, left: &Vec<i16>, right: &Vec<i16>)
        requires
            old(self).wf(),
            old(self).format.channels == 2,
            left@.len() == right@.len(),
        ensures
            final(self).wf(),
            final(self).format == old(self).format,
            final(self).samples@ == old(self).samples@ + spec_interleaved(left@, right@),
    {
        let ghost orig = self.samples@;
        let mut i: usize = 0;
        while i < left.len()
            invariant
                i <= left@.len(),
                left@.len() == right@.len(),
                self.samples@ =~= orig + spec_interleaved(
                    left@.take(i as int),
                    right@.take(i as int),
                ),
                self.format == old(self).format,
            decreases left@.len() - i,
        {
            self.samples.push(left[i]);
            self.samples.push(right[i]);
            proof {
                let l1 = left@.take(i + 1);
                let r1 = right@.take(i + 1);
                assert(spec_interleaved(l1, r1) =~= spec_interleaved(
                    left@.take(i as int),
                    right@.take(i as int),
                ) + seq![left@[i as int], right@[i as int]]);
            }
            i = i + 1;
        }
        proof {
            assert(left@.take(left@.len() as int) =~= left@);
            assert(right@.take(right@.len() as int) =~= right@);
            assert(self.samples@ =~= orig + spec_interleaved(left@, right@));
            lemma_even_mod(orig.len() as int, spec_interleaved(left@, right@).len() as int);
        }
    }

    /// Appends one packet of single-channel audio, duplicated to both
    /// channels.
    pub fn push_mono_frames(&mut self, plane: &Vec<i16>)
        requires
            old(self).wf(),
            old(self).format.channels == 2,
        ensures
            final(self).wf(),
            final(self).format == old(self).format,
            final(self).samples@ == old(self).samples@ + spec_interleaved(plane@, plane@),
    {
        self.push_stereo_frames(plane, plane)
    }

    /// Duration of the buffer, derived from the decoded sample count.
    pub fn duration(&self) -> (r: TrackDuration)
        requires
            self.wf(),
        ensures
            r.frames == self.spec_frames(),
            r.rate == self.format.sample_rate,
            r.wf(),
    {
        TrackDuration {
            frames: (self.samples.len() / (self.format.channels as usize)) as u64,
            rate: self.format.sample_rate,
        }
    }
}

proof fn lemma_even_mod(a: int, b: int)
    requires
        a >= 0,
        b >= 0,
        a % 2 == 0,
        b % 2 == 0,
    ensures
        (a + b) % 2 == 0,
{
}

/// Every forced-stereo decoded track has an even sample count, and its
/// duration in seconds, `frames / rate`, equals `count / (2 * rate)`:
/// cross-multiplied, `2 * frames == count`.
pub proof fn lemma_decoded_duration(b: AudioBuffer)
    requires
        b.wf(),
        b.format.channels == 2,
    ensures
        b.samples@.len() % 2 == 0,
        2 * b.spec_frames() == b.samples@.len(),
        b.spec_frames() * (2 * b.format.sample_rate as int) == b.samples@.len()
            * (b.format.sample_rate as int),
{
    let n = b.samples@.len() as int;
    let r = b.format.sample_rate as int;
    assert(2 * (n / 2) == n);
    assert((n / 2) * (2 * r) == n * r) by (nonlinear_arith)
        requires
            2 * (n / 2) == n,
    ;
}

} // verus!
