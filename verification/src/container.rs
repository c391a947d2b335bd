//! The container writer: emits the chunked binary interchange manifest —
//! an outer container chunk holding a fixed-size header chunk and one list
//! chunk of clip descriptors, one per mono asset. All lengths are computed
//! before serializing, so every chunk length field equals its payload's
//! true byte length.

use vstd::prelude::*;
use crate::AudioProcessor;

verus! {

/// One clip descriptor: the mono asset's stems-root-relative path
/// (forward-slash normalized UTF-8 bytes), its sample rate, channel count
/// and total sample count.
pub struct ClipEntry {
    pub path: Vec<u8>,
    pub sample_rate: u32,
    pub channels: u16,
    pub sample_count: u32,
}

/// Big-endian bytes of a 32-bit value.
pub open spec fn spec_be32(x: u32) -> Seq<u8> {
    seq![
        (x as int / 0x1000000) as u8,
        ((x as int / 0x10000) % 256) as u8,
        ((x as int / 0x100) % 256) as u8,
        (x as int % 256) as u8,
    ]
}

/// Big-endian bytes of a 16-bit value.
pub open spec fn spec_be16(x: u16) -> Seq<u8> {
    seq![(x as int / 0x100) as u8, (x as int % 256) as u8]
}

/// The outer container tag.
pub open spec fn form_tag() -> Seq<u8> {
    seq![0x46u8, 0x4Fu8, 0x52u8, 0x4Du8]
}

/// The container type tag.
pub open spec fn omfi_tag() -> Seq<u8> {
    seq![0x4Fu8, 0x4Du8, 0x46u8, 0x49u8]
}

/// The header chunk tag.
pub open spec fn head_tag() -> Seq<u8> {
    seq![0x48u8, 0x45u8, 0x41u8, 0x44u8]
}

/// The clip list chunk tag.
pub open spec fn mobj_tag() -> Seq<u8> {
    seq![0x4Du8, 0x4Fu8, 0x42u8, 0x4Au8]
}

/// The clip chunk tag.
pub open spec fn clip_tag() -> Seq<u8> {
    seq![0x43u8, 0x4Cu8, 0x49u8, 0x50u8]
}

/// Byte length of one clip chunk's payload: length-prefixed path, sample
/// rate, channel count, sample count.
pub open spec fn spec_clip_len(c: ClipEntry) -> int {
    14 + c.path@.len() as int
}

/// One clip chunk: tag, payload length, payload.
pub open spec fn spec_clip_chunk(c: ClipEntry) -> Seq<u8> {
    clip_tag() + spec_be32(spec_clip_len(c) as u32) + spec_be32(c.path@.len() as u32) + c.path@
        + spec_be32(c.sample_rate) + spec_be16(c.channels) + spec_be32(c.sample_count)
}

/// Byte length of the clip list chunk's payload: all clip chunks, each with
/// its own 8-byte chunk header.
pub open spec fn spec_mobj_len(clips: Seq<ClipEntry>) -> int
    decreases clips.len(),
{
    if clips.len() == 0 {
        0
    } else {
        22 + clips[0].path@.len() + spec_mobj_len(clips.drop_first())
    }
}

/// The clip list chunk's payload: the clip chunks in order.
pub open spec fn spec_mobj_payload(clips: Seq<ClipEntry>) -> Seq<u8>
    decreases clips.len(),
{
    if clips.len() == 0 {
        Seq::empty()
    } else {
        spec_clip_chunk(clips[0]) + spec_mobj_payload(clips.drop_first())
    }
}

/// Everything of the container before the timestamp: outer chunk header,
/// header chunk tag and length, version and byte-order flag.
pub open spec fn spec_container_prefix(clips: Seq<ClipEntry>) -> Seq<u8> {
    form_tag() + spec_be32((28 + spec_mobj_len(clips)) as u32) + omfi_tag() + head_tag()
        + spec_be32(8u32) + seq![0x02u8, 0x00u8] + seq![0x00u8, 0x00u8]
}

/// Everything of the container after the timestamp: the clip list chunk.
pub open spec fn spec_container_suffix(clips: Seq<ClipEntry>) -> Seq<u8> {
    mobj_tag() + spec_be32(spec_mobj_len(clips) as u32) + spec_mobj_payload(clips)
}

/// The whole container document.
pub open spec fn spec_container(clips: Seq<ClipEntry>, ts: u32) -> Seq<u8> {
    spec_container_prefix(clips) + spec_be32(ts) + spec_container_suffix(clips)
}

pub proof fn lemma_mobj_len_nonneg(clips: Seq<ClipEntry>)
    ensures
        spec_mobj_len(clips) >= 0,
    decreases clips.len(),
{
    if clips.len() > 0 {
        lemma_mobj_len_nonneg(clips.drop_first());
    }
}

pub proof fn lemma_mobj_payload_len(clips: Seq<ClipEntry>)
    ensures
        spec_mobj_payload(clips).len() == spec_mobj_len(clips),
    decreases clips.len(),
{
    if clips.len() > 0 {
        lemma_mobj_payload_len(clips.drop_first());
    }
}

proof fn lemma_mobj_payload_push(clips: Seq<ClipEntry>, c: ClipEntry)
    ensures
        spec_mobj_payload(clips.push(c)) == spec_mobj_payload(clips) + spec_clip_chunk(c),
        spec_mobj_len(clips.push(c)) == spec_mobj_len(clips) + 22 + c.path@.len(),
    decreases clips.len(),
{
    if clips.len() == 0 {
        assert(clips.push(c)[0] == c);
        assert(clips.push(c).drop_first() =~= Seq::<ClipEntry>::empty());
        assert(spec_mobj_payload(Seq::<ClipEntry>::empty()) =~= Seq::<u8>::empty());
        assert(spec_mobj_len(Seq::<ClipEntry>::empty()) == 0);
        assert(spec_mobj_payload(clips.push(c)) =~= spec_mobj_payload(clips) + spec_clip_chunk(
            c,
        ));
    } else {
        assert(clips.push(c).drop_first() =~= clips.drop_first().push(c));
        lemma_mobj_payload_push(clips.drop_first(), c);
        assert(spec_mobj_payload(clips.push(c)) =~= spec_mobj_payload(clips) + spec_clip_chunk(
            c,
        ));
    }
}

fn push4(out: &mut Vec<u8>, a: u8, b: u8, c: u8, d: u8)
    ensures
        final(out)@ == old(out)@ + seq![a, b, c, d],
{
    out.push(a);
    out.push(b);
    out.push(c);
    out.push(d);
    proof {
        assert(out@ =~= old(out)@ + seq![a, b, c, d]);
    }
}

fn push_be32(out: &mut Vec<u8>, x: u32)
    ensures
        final(out)@ == old(out)@ + spec_be32(x),
{
    out.push((x / 0x1000000) as u8);
    out.push(((x / 0x10000) % 256) as u8);
    out.push(((x / 0x100) % 256) as u8);
    out.push((x % 256) as u8);
    proof {
        assert(out@ =~= old(out)@ + spec_be32(x));
    }
}

fn push_be16(out: &mut Vec<u8>, x: u16)
    ensures
        final(out)@ == old(out)@ + spec_be16(x),
{
    out.push((x / 0x100) as u8);
    out.push((x % 256) as u8);
    proof {
        assert(out@ =~= old(out)@ + spec_be16(x));
    }
}

fn append_bytes(dst: &mut Vec<u8>, src: &Vec<u8>)
    ensures
        final(dst)@ == old(dst)@ + src@,
{
    let mut i: usize = 0;
    while i < src.len()
        invariant
            i <= src@.len(),
            dst@ =~= old(dst)@ + src@.take(i as int),
        decreases src@.len() - i,
    {
        dst.push(src[i]);
        proof {
            assert(dst@ =~= old(dst)@ + src@.take(i + 1));
        }
        i = i + 1;
    }
    proof {
        assert(src@.take(src@.len() as int) =~= src@);
        assert(dst@ =~= old(dst)@ + src@);
    }
}

fn append_clip_chunk(out: &mut Vec<u8>, c: &ClipEntry)
    requires
        c.path@.len() + 14 <= u32::MAX,
    ensures
        final(out)@ == old(out)@ + spec_clip_chunk(*c),
{
    push4(out, 0x43, 0x4C, 0x49, 0x50);
    push_be32(out, (c.path.len() as u32) + 14);
    push_be32(out, c.path.len() as u32);
    append_bytes(out, &c.path);
    push_be32(out, c.sample_rate);
    push_be16(out, c.channels);
    push_be32(out, c.sample_count);
    proof {
        assert(out@ =~= old(out)@ + spec_clip_chunk(*c));
    }
}

impl AudioProcessor {
    /// Serializes the container document for the given clip descriptors and
    /// generation timestamp. The caller supplies the timestamp — reading
    /// the wall clock is left outside the library, whose functions never
    /// panic — and the output depends on nothing but the arguments.
    pub fn generate_aaf(clips: &Vec<ClipEntry>, timestamp: u32) -> (r: Vec<u8>)
        requires
            spec_mobj_len(clips@) + 36 <= u32::MAX,
        ensures
            r@ == spec_container(clips@, timestamp),
    {
        proof {
            lemma_mobj_len_nonneg(clips@);
            assert(clips@.take(0) =~= Seq::<ClipEntry>::empty());
        }
        let mut mobj_len: u32 = 0;
        let mut k: usize = 0;
        while k < clips.len()
            invariant
                k <= clips@.len(),
                mobj_len == spec_mobj_len(clips@.take(k as int)),
                spec_mobj_len(clips@) + 36 <= u32::MAX,
            decreases clips@.len() - k,
        {
            proof {
                assert(clips@.take(k + 1) =~= clips@.take(k as int).push(clips@[k as int]));
                lemma_mobj_payload_push(clips@.take(k as int), clips@[k as int]);
                lemma_mobj_len_prefix_bound(clips@, k + 1);
            }
            mobj_len = mobj_len + 22 + (clips[k].path.len() as u32);
            k = k + 1;
        }
        proof {
            assert(clips@.take(clips@.len() as int) =~= clips@);
        }
        let mut out: Vec<u8> = Vec::new();
        push4(&mut out, 0x46, 0x4F, 0x52, 0x4D);
        push_be32(&mut out, 28 + mobj_len);
        push4(&mut out, 0x4F, 0x4D, 0x46, 0x49);
        push4(&mut out, 0x48, 0x45, 0x41, 0x44);
        push_be32(&mut out, 8);
        out.push(0x02);
        out.push(0x00);
        out.push(0x00);
        out.push(0x00);
        push_be32(&mut out, timestamp);
        push4(&mut out, 0x4D, 0x4F, 0x42, 0x4A);
        push_be32(&mut out, mobj_len);
        let ghost base = out@;
        proof {
            assert(base =~= spec_container_prefix(clips@) + spec_be32(timestamp) + mobj_tag()
                + spec_be32(spec_mobj_len(clips@) as u32));
            assert(spec_mobj_payload(clips@.take(0)) =~= Seq::<u8>::empty());
            assert(out@ =~= base + spec_mobj_payload(clips@.take(0)));
        }
        let mut i: usize = 0;
        while i < clips.len()
            invariant
                i <= clips@.len(),
                spec_mobj_len(clips@) + 36 <= u32::MAX,
                base == spec_container_prefix(clips@) + spec_be32(timestamp) + mobj_tag()
                    + spec_be32(spec_mobj_len(clips@) as u32),
                out@ == base + spec_mobj_payload(clips@.take(i as int)),
            decreases clips@.len() - i,
        {
            proof {
                lemma_mobj_len_prefix_bound(clips@, i + 1);
                lemma_mobj_len_nonneg(clips@.take(i as int));
                assert(clips@.take(i + 1) =~= clips@.take(i as int).push(clips@[i as int]));
                lemma_mobj_payload_push(clips@.take(i as int), clips@[i as int]);
            }
            append_clip_chunk(&mut out, &clips[i]);
            proof {
                assert(out@ =~= base + spec_mobj_payload(clips@.take(i + 1)));
            }
            i = i + 1;
        }
        proof {
            assert(clips@.take(clips@.len() as int) =~= clips@);
            assert(out@ =~= spec_container(clips@, timestamp));
        }
        out
    }
}

/// Layout facts of one clip chunk: its length field equals its payload's
/// actual byte length.
pub proof fn lemma_clip_chunk_lengths(c: ClipEntry)
    requires
        c.path@.len() + 14 <= u32::MAX,
    ensures
        spec_clip_chunk(c).len() == 8 + spec_clip_len(c),
        spec_clip_chunk(c).subrange(4, 8) == spec_be32(spec_clip_len(c) as u32),
        spec_clip_chunk(c).subrange(8, spec_clip_chunk(c).len() as int).len() == spec_clip_len(c),
{
    assert(spec_clip_chunk(c).subrange(4, 8) =~= spec_be32(spec_clip_len(c) as u32));
}

/// Layout facts of the whole container: the outer length field equals the
/// total size minus the outer chunk's own 8-byte header, the header
/// chunk's length field equals its fixed payload length, and the list
/// chunk's length field equals the byte length of the clip chunks that
/// follow it.
pub proof fn lemma_container_lengths(clips: Seq<ClipEntry>, ts: u32)
    requires
        spec_mobj_len(clips) + 36 <= u32::MAX,
    ensures
        spec_container(clips, ts).len() == 36 + spec_mobj_len(clips),
        spec_container(clips, ts).subrange(4, 8) == spec_be32(
            (spec_container(clips, ts).len() - 8) as u32,
        ),
        spec_container(clips, ts).subrange(16, 20) == spec_be32(8u32),
        spec_container(clips, ts).subrange(32, 36) == spec_be32(spec_mobj_len(clips) as u32),
        spec_container(clips, ts).subrange(36, spec_container(clips, ts).len() as int)
            == spec_mobj_payload(clips),
{
    lemma_mobj_len_nonneg(clips);
    lemma_mobj_payload_len(clips);
    let doc = spec_container(clips, ts);
    assert(doc.len() == 36 + spec_mobj_len(clips));
    assert(doc.subrange(4, 8) =~= spec_be32((28 + spec_mobj_len(clips)) as u32));
    assert(doc.subrange(16, 20) =~= spec_be32(8u32));
    assert(doc.subrange(32, 36) =~= spec_be32(spec_mobj_len(clips) as u32));
    assert(doc.subrange(36, doc.len() as int) =~= spec_mobj_payload(clips));
}

/// Re-running container generation on unchanged clips and another
/// wall-clock time yields identical bytes except the four timestamp bytes
/// of the header chunk.
pub proof fn lemma_container_timestamp_only(clips: Seq<ClipEntry>, t1: u32, t2: u32)
    ensures
        spec_container_prefix(clips).len() == 24,
        spec_container(clips, t1).len() == spec_container(clips, t2).len(),
        forall|i: int|
            0 <= i < spec_container(clips, t1).len() && !(24 <= i < 28)
                ==> spec_container(clips, t1)[i] == spec_container(clips, t2)[i],
{
    assert(spec_container_prefix(clips).len() == 24);
    assert forall|i: int|
        0 <= i < spec_container(clips, t1).len() && !(24 <= i < 28)
            implies spec_container(clips, t1)[i] == spec_container(clips, t2)[i] by {
        if i < 24 {
            assert(spec_container(clips, t1)[i] == spec_container_prefix(clips)[i]);
            assert(spec_container(clips, t2)[i] == spec_container_prefix(clips)[i]);
        } else {
            assert(spec_container(clips, t1)[i] == spec_container_suffix(clips)[i - 28]);
            assert(spec_container(clips, t2)[i] == spec_container_suffix(clips)[i - 28]);
        }
    }
}

/// The length of any prefix of the clip list is bounded by the length of
/// the whole list.
pub proof fn lemma_mobj_len_prefix_bound(clips: Seq<ClipEntry>, k: int)
    requires
        0 <= k <= clips.len(),
    ensures
        spec_mobj_len(clips.take(k)) <= spec_mobj_len(clips),
    decreases k,
{
    lemma_mobj_len_split(clips, k);
    lemma_mobj_len_nonneg(clips.skip(k));
}

/// The clip list's length splits over any cut of the list.
pub proof fn lemma_mobj_len_split(clips: Seq<ClipEntry>, k: int)
    requires
        0 <= k <= clips.len(),
    ensures
        spec_mobj_len(clips.take(k)) + spec_mobj_len(clips.skip(k)) == spec_mobj_len(clips),
    decreases k,
{
    if k == 0 {
        assert(clips.take(0) =~= Seq::<ClipEntry>::empty());
        assert(clips.skip(0) =~= clips);
    } else {
        assert(clips.take(k)[0] == clips[0]);
        assert(clips.take(k).drop_first() =~= clips.drop_first().take(k - 1));
        assert(clips.skip(k) =~= clips.drop_first().skip(k - 1));
        lemma_mobj_len_split(clips.drop_first(), k - 1);
    }
}

} // verus!
