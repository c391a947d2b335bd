//! The project document writer: emits the deterministic text timeline
//! session, one track block per mono asset (reference first, then members
//! in discovery order) and one synthetic end-marker track.

use vstd::prelude::*;
use vstd::string::*;
use crate::AudioProcessor;
use crate::align::lemma_u64_u32_product_fits;
use crate::numfmt::{spec_dec, spec_duration_dec, push_dec, push_dec_u128, push_duration_dec};
use crate::strutil::chars_to_string;

verus! {

/// One stem track as the project document sees it: the mono asset's file
/// stem and name, the absolute path written into the document, and the
/// asset's duration as sample count and rate.
pub struct ProjectTrack {
    pub stem: String,
    pub file_name: String,
    pub path: String,
    pub frames: u64,
    pub rate: u32,
}

impl ProjectTrack {
    pub open spec fn wf(self) -> bool {
        self.rate >= 1
    }
}

/// The fixed project header: tempo, master volume and metronome block,
/// with the generation timestamp after the version words.
pub open spec fn spec_header(ts: int) -> Seq<char> {
    "<REAPER_PROJECT 0.1 \"6.13/linux64\" "@ + spec_dec(ts) + spec_header_rest()
}

/// Everything of the header after the timestamp.
pub open spec fn spec_header_rest() -> Seq<char> {
    "\n  TEMPO 120 4 4\n  MASTER_VOLUME 1 0 -1 -1 1\n  <METRONOME 6 2\n    VOL 0.25 0.125\n    FREQ 800 1600 1\n    BEATLEN 4\n    SAMPLES \"\" \"\"\n    PATTERN 2863311530 2863311529\n  >\n"@
}

/// One stem track block: deterministic identifiers derived from the track's
/// position index, hard-left pan for the reference and hard-right pan for
/// members, and one looped item spanning the track's whole duration.
pub open spec fn spec_track_block(t: ProjectTrack, idx: int, is_reference: bool) -> Seq<char> {
    "  <TRACK "@ + spec_dec(idx + 1) + "\n    NAME \""@ + t.stem@
        + "\"\n    PEAKCOL 16576\n    BEAT -1\n    AUTOMODE 0\n    VOLPAN 1 "@ + (if is_reference {
        "-1"@
    } else {
        "1"@
    })
        + " -1 -1 1\n    MUTESOLO 0 0 0\n    IPHASE 0\n    ISBUS 0 0\n    BUSCOMP 0 0 0 0 0\n    SHOWINMIX 1 0.6667 0.5 1 0.5 0 -1 0\n    FREEMODE 0\n    SEL 0\n    REC 0 0 1 0 0 0 0\n    VU 2\n    TRACKHEIGHT 0 0 0 0 0 0\n    INQ 0 0 0 0.5 100 0 0 100\n    NCHAN 2\n    FX 1\n    TRACKID {7FE0D07C-DFA2-4D85-8A77-6AB24173DC8"@
        + spec_dec(idx) + "}\n    PERF 0\n    MIDIOUT -1\n    MAINSEND 1 0\n    <ITEM\n      POSITION 0\n      SNAPOFFS 0\n      LENGTH "@
        + spec_duration_dec(t.frames as int, t.rate as int)
        + "\n      LOOP 1\n      ALLTAKES 0\n      FADEIN 1 0.01 0 1 0 0 0\n      FADEOUT 1 0.01 0 1 0 0 0\n      MUTE 0 0\n      SEL 0\n      IGUID {EAE098FB-B9B0-4F57-9D7C-2656D9861A0"@
        + spec_dec(idx) + "}\n      IID 1\n      NAME \""@ + t.file_name@
        + "\"\n      VOLPAN 1 0 1 -1\n      SOFFS 0\n      PLAYRATE 1 1 0 -1 0 0.0025\n      CHANMODE 0\n      GUID {5E5B68F0-4717-4D85-8A77-6AB24173DC8"@
        + spec_dec(idx) + "}\n      <SOURCE WAVE\n        FILE \""@ + t.path@
        + "\"\n      >\n    >\n  >\n"@
}

/// The member track blocks, indices counting on from `from_idx`.
pub open spec fn spec_member_blocks(members: Seq<ProjectTrack>, from_idx: int) -> Seq<char>
    decreases members.len(),
{
    if members.len() == 0 {
        Seq::empty()
    } else {
        spec_track_block(members[0], from_idx, false) + spec_member_blocks(
            members.drop_first(),
            from_idx + 1,
        )
    }
}

/// The synthetic end-marker track: one item spanning the maximum duration
/// across all tracks, with controller-off events at tick zero and at the
/// tick of that duration, at 120 beats per minute and 960 ticks per
/// quarter note.
pub open spec fn spec_marker_block(n: int, max_frames: int, max_rate: int) -> Seq<char> {
    "  <TRACK "@ + spec_dec(n + 1)
        + "\n    NAME \"MIDI\"\n    PEAKCOL 16576\n    BEAT -1\n    AUTOMODE 0\n    VOLPAN 1 0 -1 -1 1\n    MUTESOLO 0 0 0\n    IPHASE 0\n    ISBUS 0 0\n    BUSCOMP 0 0 0 0 0\n    SHOWINMIX 1 0.6667 0.5 1 0.5 0 -1 0\n    FREEMODE 0\n    SEL 0\n    REC 1 5088 1 0 0 0 0\n    VU 2\n    TRACKHEIGHT 0 0 0 0 0 0\n    INQ 0 0 0 0.5 100 0 0 100\n    NCHAN 2\n    FX 1\n    TRACKID {7FE0D07C-DFA2-4D85-8A77-6AB24173DC9"@
        + spec_dec(n)
        + "}\n    PERF 0\n    MIDIOUT -1\n    MAINSEND 1 0\n    <ITEM MIDI\n      POSITION 0\n      SNAPOFFS 0\n      LENGTH "@
        + spec_duration_dec(max_frames, max_rate)
        + "\n      ALLTAKES 0\n      FADEIN 1 0.01 0 1 0 0 0\n      FADEOUT 1 0.01 0 1 0 0 0\n      MUTE 0 0\n      SEL 0\n      IGUID {EAE098FB-B9B0-4F57-9D7C-2656D9861A1"@
        + spec_dec(n)
        + "}\n      IID 2\n      NAME \"MIDI\"\n      VOLPAN 1 0 1 -1\n      SOFFS 0\n      PLAYRATE 1 1 0 -1 0 0.0025\n      CHANMODE 0\n      GUID {5E5B68F0-4717-4D85-8A77-6AB24173DC9"@
        + spec_dec(n) + "}\n      <SOURCE MIDI\n        HASDATA 1 960 QN\n        E 0 b0 7b 00\n        E "@
        + spec_dec((max_frames * 1920) / max_rate) + " b0 7b 00\n      >\n    >\n  >\n>\n"@
}

/// The duration maximum over the tracks, folded left over `(frames, rate)`
/// pairs; a later track replaces the current maximum only when strictly
/// longer.
pub open spec fn spec_max_fold(tracks: Seq<ProjectTrack>, cur: (u64, u32)) -> (u64, u32)
    decreases tracks.len(),
{
    if tracks.len() == 0 {
        cur
    } else {
        let t = tracks[0];
        let next: (u64, u32) = if (t.frames as int) * (cur.1 as int) > (cur.0 as int) * (
        t.rate as int) {
            (t.frames, t.rate)
        } else {
            cur
        };
        spec_max_fold(tracks.drop_first(), next)
    }
}

/// The whole project document.
pub open spec fn spec_project_doc(
    reference: ProjectTrack,
    members: Seq<ProjectTrack>,
    ts: int,
) -> Seq<char> {
    let max_pair = spec_max_fold(seq![reference] + members, (0u64, 1u32));
    spec_header(ts) + spec_track_block(reference, 0, true) + spec_member_blocks(members, 1)
        + spec_marker_block(1 + members.len() as int, max_pair.0 as int, max_pair.1 as int)
}

fn append_dec(doc: &mut String, n: u64)
    ensures
        final(doc)@ == old(doc)@ + spec_dec(n as int),
{
    let mut v: Vec<char> = Vec::new();
    push_dec(&mut v, n);
    let s = chars_to_string(&v);
    doc.append(s.as_str());
}

fn append_dec_u128(doc: &mut String, n: u128)
    ensures
        final(doc)@ == old(doc)@ + spec_dec(n as int),
{
    let mut v: Vec<char> = Vec::new();
    push_dec_u128(&mut v, n);
    let s = chars_to_string(&v);
    doc.append(s.as_str());
}

fn append_duration(doc: &mut String, frames: u64, rate: u32)
    requires
        rate >= 1,
    ensures
        final(doc)@ == old(doc)@ + spec_duration_dec(frames as int, rate as int),
{
    let mut v: Vec<char> = Vec::new();
    push_duration_dec(&mut v, frames, rate);
    let s = chars_to_string(&v);
    doc.append(s.as_str());
}

fn append_track_block(doc: &mut String, t: &ProjectTrack, idx: usize, is_reference: bool)
    requires
        t.wf(),
        idx < usize::MAX,
    ensures
        final(doc)@ == old(doc)@ + spec_track_block(*t, idx as int, is_reference),
{
    doc.append("  <TRACK ");
    append_dec(doc, (idx as u64) + 1);
    doc.append("\n    NAME \"");
    doc.append(t.stem.as_str());
    doc.append(
        "\"\n    PEAKCOL 16576\n    BEAT -1\n    AUTOMODE 0\n    VOLPAN 1 ",
    );
    if is_reference {
        doc.append("-1");
    } else {
        doc.append("1");
    }
    doc.append(
        " -1 -1 1\n    MUTESOLO 0 0 0\n    IPHASE 0\n    ISBUS 0 0\n    BUSCOMP 0 0 0 0 0\n    SHOWINMIX 1 0.6667 0.5 1 0.5 0 -1 0\n    FREEMODE 0\n    SEL 0\n    REC 0 0 1 0 0 0 0\n    VU 2\n    TRACKHEIGHT 0 0 0 0 0 0\n    INQ 0 0 0 0.5 100 0 0 100\n    NCHAN 2\n    FX 1\n    TRACKID {7FE0D07C-DFA2-4D85-8A77-6AB24173DC8",
    );
    append_dec(doc, idx as u64);
    doc.append(
        "}\n    PERF 0\n    MIDIOUT -1\n    MAINSEND 1 0\n    <ITEM\n      POSITION 0\n      SNAPOFFS 0\n      LENGTH ",
    );
    append_duration(doc, t.frames, t.rate);
    doc.append(
        "\n      LOOP 1\n      ALLTAKES 0\n      FADEIN 1 0.01 0 1 0 0 0\n      FADEOUT 1 0.01 0 1 0 0 0\n      MUTE 0 0\n      SEL 0\n      IGUID {EAE098FB-B9B0-4F57-9D7C-2656D9861A0",
    );
    append_dec(doc, idx as u64);
    doc.append("}\n      IID 1\n      NAME \"");
    doc.append(t.file_name.as_str());
    doc.append(
        "\"\n      VOLPAN 1 0 1 -1\n      SOFFS 0\n      PLAYRATE 1 1 0 -1 0 0.0025\n      CHANMODE 0\n      GUID {5E5B68F0-4717-4D85-8A77-6AB24173DC8",
    );
    append_dec(doc, idx as u64);
    doc.append("}\n      <SOURCE WAVE\n        FILE \"");
    doc.append(t.path.as_str());
    doc.append("\"\n      >\n    >\n  >\n");
    proof {
        assert(doc@ =~= old(doc)@ + spec_track_block(*t, idx as int, is_reference));
    }
}

fn append_marker_block(doc: &mut String, n: u64, max_frames: u64, max_rate: u32)
    requires
        max_rate >= 1,
        n < u64::MAX,
    ensures
        final(doc)@ == old(doc)@ + spec_marker_block(
            n as int,
            max_frames as int,
            max_rate as int,
        ),
{
    doc.append("  <TRACK ");
    append_dec(doc, n + 1);
    doc.append(
        "\n    NAME \"MIDI\"\n    PEAKCOL 16576\n    BEAT -1\n    AUTOMODE 0\n    VOLPAN 1 0 -1 -1 1\n    MUTESOLO 0 0 0\n    IPHASE 0\n    ISBUS 0 0\n    BUSCOMP 0 0 0 0 0\n    SHOWINMIX 1 0.6667 0.5 1 0.5 0 -1 0\n    FREEMODE 0\n    SEL 0\n    REC 1 5088 1 0 0 0 0\n    VU 2\n    TRACKHEIGHT 0 0 0 0 0 0\n    INQ 0 0 0 0.5 100 0 0 100\n    NCHAN 2\n    FX 1\n    TRACKID {7FE0D07C-DFA2-4D85-8A77-6AB24173DC9",
    );
    append_dec(doc, n);
    doc.append(
        "}\n    PERF 0\n    MIDIOUT -1\n    MAINSEND 1 0\n    <ITEM MIDI\n      POSITION 0\n      SNAPOFFS 0\n      LENGTH ",
    );
    append_duration(doc, max_frames, max_rate);
    doc.append(
        "\n      ALLTAKES 0\n      FADEIN 1 0.01 0 1 0 0 0\n      FADEOUT 1 0.01 0 1 0 0 0\n      MUTE 0 0\n      SEL 0\n      IGUID {EAE098FB-B9B0-4F57-9D7C-2656D9861A1",
    );
    append_dec(doc, n);
    doc.append(
        "}\n      IID 2\n      NAME \"MIDI\"\n      VOLPAN 1 0 1 -1\n      SOFFS 0\n      PLAYRATE 1 1 0 -1 0 0.0025\n      CHANMODE 0\n      GUID {5E5B68F0-4717-4D85-8A77-6AB24173DC9",
    );
    append_dec(doc, n);
    doc.append("}\n      <SOURCE MIDI\n        HASDATA 1 960 QN\n        E 0 b0 7b 00\n        E ");
    proof {
        assert((max_frames as int) * 1920 <= u64::MAX as int * 1920) by (nonlinear_arith)
            requires
                max_frames as int <= u64::MAX as int,
        ;
    }
    let ticks: u128 = (max_frames as u128) * 1920 / (max_rate as u128);
    append_dec_u128(doc, ticks);
    doc.append(" b0 7b 00\n      >\n    >\n  >\n>\n");
    proof {
        assert(doc@ =~= old(doc)@ + spec_marker_block(
            n as int,
            max_frames as int,
            max_rate as int,
        ));
    }
}

proof fn lemma_member_blocks_push(members: Seq<ProjectTrack>, t: ProjectTrack, from_idx: int)
    ensures
        spec_member_blocks(members.push(t), from_idx) == spec_member_blocks(members, from_idx)
            + spec_track_block(t, from_idx + members.len() as int, false),
    decreases members.len(),
{
    if members.len() == 0 {
        assert(members.push(t)[0] == t);
        assert(members.push(t).drop_first() =~= Seq::<ProjectTrack>::empty());
        assert(spec_member_blocks(Seq::<ProjectTrack>::empty(), from_idx + 1)
            =~= Seq::<char>::empty());
        assert(spec_member_blocks(Seq::<ProjectTrack>::empty(), from_idx)
            =~= Seq::<char>::empty());
        assert(spec_member_blocks(members.push(t), from_idx) =~= spec_track_block(
            t,
            from_idx,
            false,
        ));
        assert(spec_member_blocks(members, from_idx) + spec_track_block(t, from_idx, false)
            =~= spec_track_block(t, from_idx, false));
    } else {
        assert(members.push(t).drop_first() =~= members.drop_first().push(t));
        lemma_member_blocks_push(members.drop_first(), t, from_idx + 1);
        assert(spec_member_blocks(members.push(t), from_idx) =~= spec_member_blocks(
            members,
            from_idx,
        ) + spec_track_block(t, from_idx + members.len() as int, false));
    }
}

impl AudioProcessor {
    /// Emits the whole project document for one session: the fixed header
    /// carrying the generation timestamp, one block per mono asset with the
    /// reference first, and the end-marker track. The output depends on
    /// nothing but the arguments.
    pub fn generate_reaper_project(
        reference: &ProjectTrack,
        members: &Vec<ProjectTrack>,
        timestamp: u64,
    ) -> (r: String)
        requires
            reference.wf(),
            forall|i: int| 0 <= i < members@.len() ==> members@[i].wf(),
            members@.len() < usize::MAX - 1,
        ensures
            r@ == spec_project_doc(*reference, members@, timestamp as int),
    {
        let mut doc = String::new();
        doc.append("<REAPER_PROJECT 0.1 \"6.13/linux64\" ");
        append_dec(&mut doc, timestamp);
        doc.append(
            "\n  TEMPO 120 4 4\n  MASTER_VOLUME 1 0 -1 -1 1\n  <METRONOME 6 2\n    VOL 0.25 0.125\n    FREQ 800 1600 1\n    BEATLEN 4\n    SAMPLES \"\" \"\"\n    PATTERN 2863311530 2863311529\n  >\n",
        );
        proof {
            assert(doc@ =~= spec_header(timestamp as int));
        }
        append_track_block(&mut doc, reference, 0, true);
        let ghost base = spec_header(timestamp as int) + spec_track_block(*reference, 0, true);
        proof {
            assert(spec_member_blocks(members@.take(0), 1) =~= Seq::<char>::empty());
            assert(doc@ =~= base + spec_member_blocks(members@.take(0), 1));
        }
        let mut i: usize = 0;
        while i < members.len()
            invariant
                i <= members@.len(),
                members@.len() < usize::MAX - 1,
                forall|k: int| 0 <= k < members@.len() ==> members@[k].wf(),
                base == spec_header(timestamp as int) + spec_track_block(*reference, 0, true),
                doc@ == base + spec_member_blocks(members@.take(i as int), 1),
            decreases members@.len() - i,
        {
            append_track_block(&mut doc, &members[i], i + 1, false);
            proof {
                assert(members@.take(i + 1) =~= members@.take(i as int).push(members@[i as int]));
                lemma_member_blocks_push(members@.take(i as int), members@[i as int], 1);
                assert(doc@ =~= base + spec_member_blocks(members@.take(i + 1), 1));
            }
            i = i + 1;
        }
        proof {
            assert(members@.take(members@.len() as int) =~= members@);
        }
        let ghost all_tracks = seq![*reference] + members@;
        let mut max_frames: u64 = 0;
        let mut max_rate: u32 = 1;
        proof {
            lemma_u64_u32_product_fits(reference.frames, max_rate);
            lemma_u64_u32_product_fits(max_frames, reference.rate);
        }
        if (reference.frames as u128) * (max_rate as u128) > (max_frames as u128) * (
        reference.rate as u128) {
            max_frames = reference.frames;
            max_rate = reference.rate;
        }
        proof {
            assert(all_tracks.drop_first() =~= members@);
            assert(spec_max_fold(all_tracks, (0u64, 1u32)) == spec_max_fold(
                members@,
                (max_frames, max_rate),
            ));
            assert(members@.skip(0) =~= members@);
        }
        let mut k: usize = 0;
        while k < members.len()
            invariant
                k <= members@.len(),
                max_rate >= 1,
                forall|j: int| 0 <= j < members@.len() ==> members@[j].wf(),
                spec_max_fold(all_tracks, (0u64, 1u32)) == spec_max_fold(
                    members@.skip(k as int),
                    (max_frames, max_rate),
                ),
            decreases members@.len() - k,
        {
            let t = &members[k];
            proof {
                lemma_u64_u32_product_fits(t.frames, max_rate);
                lemma_u64_u32_product_fits(max_frames, t.rate);
                assert(members@.skip(k as int)[0] == members@[k as int]);
                assert(members@.skip(k as int).drop_first() =~= members@.skip(k + 1));
            }
            if (t.frames as u128) * (max_rate as u128) > (max_frames as u128) * (t.rate as u128) {
                max_frames = t.frames;
                max_rate = t.rate;
            }
            k = k + 1;
        }
        proof {
            assert(members@.skip(members@.len() as int) =~= Seq::<ProjectTrack>::empty());
            assert(spec_max_fold(all_tracks, (0u64, 1u32)) == (max_frames, max_rate));
        }
        let n: u64 = (members.len() as u64) + 1;
        append_marker_block(&mut doc, n, max_frames, max_rate);
        proof {
            assert(doc@ =~= spec_project_doc(*reference, members@, timestamp as int));
        }
        doc
    }
}

/// Re-running project generation on unchanged inputs yields identical
/// output except for the one embedded generation timestamp: the document is
/// a fixed prefix, the timestamp's digits, and a remainder that depends
/// only on the tracks.
pub proof fn lemma_project_doc_timestamp_only(
    reference: ProjectTrack,
    members: Seq<ProjectTrack>,
    ts: int,
)
    ensures
        spec_project_doc(reference, members, ts) == "<REAPER_PROJECT 0.1 \"6.13/linux64\" "@
            + spec_dec(ts) + spec_project_doc_rest(reference, members),
{
    assert(spec_project_doc(reference, members, ts) =~= "<REAPER_PROJECT 0.1 \"6.13/linux64\" "@
        + spec_dec(ts) + spec_project_doc_rest(reference, members));
}

/// Everything of the project document after the timestamp; independent of
/// the timestamp.
pub open spec fn spec_project_doc_rest(
    reference: ProjectTrack,
    members: Seq<ProjectTrack>,
) -> Seq<char> {
    let max_pair = spec_max_fold(seq![reference] + members, (0u64, 1u32));
    spec_header_rest() + spec_track_block(reference, 0, true) + spec_member_blocks(members, 1)
        + spec_marker_block(1 + members.len() as int, max_pair.0 as int, max_pair.1 as int)
}

} // verus!
