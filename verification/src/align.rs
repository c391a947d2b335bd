//! The aligner: computes, for each member track, the silence padding that
//! brings its start in line with the reference track.
//!
//! Durations are exact rationals derived from decoded sample counts,
//! never from container-reported totals.

use vstd::prelude::*;

verus! {

/// Duration of a decoded track as an exact rational number of seconds:
/// `frames / rate`, where a frame is one sample per channel.
pub struct TrackDuration {
    pub frames: u64,
    pub rate: u32,
}

impl TrackDuration {
    pub open spec fn wf(self) -> bool {
        self.rate >= 1
    }
}

/// A span of time in seconds, kept exactly as the fraction `num / den`.
pub struct TimeSpan {
    pub num: u128,
    pub den: u128,
}

/// Numerator of `max(0, reference - member)` over the common denominator
/// `rr * mr`, where the reference lasts `rf / rr` seconds and the member
/// `mf / mr` seconds.
pub open spec fn spec_padding_num(rf: int, rr: int, mf: int, mr: int) -> int {
    if rf * mr >= mf * rr {
        rf * mr - mf * rr
    } else {
        0
    }
}

/// Number of whole frames of silence to prepend to the member:
/// `floor(max(0, reference_duration - member_duration) * mr)`.
pub open spec fn spec_padding_frames(rf: int, rr: int, mf: int, mr: int) -> int {
    let scaled = (rf * mr) / rr;
    if scaled >= mf {
        scaled - mf
    } else {
        0
    }
}

/// The aligner proper: the padding duration for one member track is
/// `max(0, reference_duration - member_duration)`, in exact seconds.
/// A member longer than the reference gets zero padding.
pub fn padding_duration(reference: &TrackDuration, member: &TrackDuration) -> (r: TimeSpan)
    requires
        reference.wf(),
        member.wf(),
    ensures
        r.den == reference.rate as int * member.rate as int,
        r.num == spec_padding_num(
            reference.frames as int,
            reference.rate as int,
            member.frames as int,
            member.rate as int,
        ),
        r.den >= 1,
{
    proof {
        lemma_u64_u32_product_fits(reference.frames, member.rate);
        lemma_u64_u32_product_fits(member.frames, reference.rate);
        lemma_u64_u32_product_fits(reference.rate as u64, member.rate);
        assert(reference.rate as int * member.rate as int >= 1) by (nonlinear_arith)
            requires
                reference.rate >= 1,
                member.rate >= 1,
        ;
    }
    let a: u128 = reference.frames as u128 * member.rate as u128;
    let b: u128 = member.frames as u128 * reference.rate as u128;
    let num: u128 = if a >= b {
        a - b
    } else {
        0
    };
    TimeSpan { num, den: reference.rate as u128 * member.rate as u128 }
}

/// Number of whole frames of silence to prepend to the member track, i.e.
/// the padding duration multiplied by the member's sample rate, rounded down.
pub fn padding_frame_count(reference: &TrackDuration, member: &TrackDuration) -> (r: u128)
    requires
        reference.wf(),
        member.wf(),
    ensures
        r == spec_padding_frames(
            reference.frames as int,
            reference.rate as int,
            member.frames as int,
            member.rate as int,
        ),
{
    proof {
        lemma_u64_u32_product_fits(reference.frames, member.rate);
    }
    let scaled: u128 = (reference.frames as u128 * member.rate as u128)
        / (reference.rate as u128);
    let mf: u128 = member.frames as u128;
    if scaled >= mf {
        scaled - mf
    } else {
        0
    }
}

/// The aligner's two views agree: the padding frame count equals the
/// real-valued padding duration, `padding_num / padding_den` seconds,
/// multiplied by the member's sample rate and rounded down.
pub proof fn lemma_padding_frames_match_duration(rf: u64, rr: u32, mf: u64, mr: u32)
    requires
        rr >= 1,
        mr >= 1,
    ensures
        spec_padding_frames(rf as int, rr as int, mf as int, mr as int) == (spec_padding_num(
            rf as int,
            rr as int,
            mf as int,
            mr as int,
        ) * (mr as int)) / ((rr as int) * (mr as int)),
{
    let a = rf as int * mr as int;
    let c = mf as int * rr as int;
    let dr = rr as int;
    let dm = mr as int;
    let num = spec_padding_num(rf as int, rr as int, mf as int, mr as int);
    assert(num >= 0);
    assert(dr * dm == dm * dr) by (nonlinear_arith);
    assert(dr * dm > 0) by (nonlinear_arith)
        requires
            dr >= 1,
            dm >= 1,
    ;
    vstd::arithmetic::div_mod::lemma_div_denominator(num * dm, dm, dr);
    vstd::arithmetic::div_mod::lemma_div_by_multiple(num, dm);
    assert((num * dm) / (dr * dm) == num / dr);
    if a >= c {
        assert(num == a - c);
        vstd::arithmetic::div_mod::lemma_hoist_over_denominator(a - c, mf as int, rr as nat);
        assert((a - c) / dr + mf as int == (a - c + (mf as int) * dr) / dr);
        assert(a - c + (mf as int) * dr == a);
        assert((a - c) / dr == a / dr - mf as int);
        vstd::arithmetic::div_mod::lemma_div_is_ordered(c, a, dr);
        vstd::arithmetic::div_mod::lemma_div_by_multiple(mf as int, dr);
        assert(c / dr == mf as int);
        assert(a / dr >= mf as int);
    } else {
        assert(num == 0);
        assert(num / dr == 0) by {
            vstd::arithmetic::div_mod::lemma_div_of0(dr);
        }
        assert(a < dr * (mf as int)) by (nonlinear_arith)
            requires
                a < c,
                c == mf as int * dr,
        ;
        vstd::arithmetic::div_mod::lemma_multiply_divide_lt(a, dr, mf as int);
        assert(a / dr < mf as int);
    }
}

pub proof fn lemma_u64_u32_product_fits(a: u64, b: u32)
    ensures
        a as int * b as int <= u64::MAX as int * u32::MAX as int,
        a as int * b as int <= u128::MAX as int,
{
    assert(a as int * b as int <= u64::MAX as int * u32::MAX as int) by (nonlinear_arith)
        requires
            a as int <= u64::MAX as int,
            b as int <= u32::MAX as int,
    ;
}

} // verus!
