//! The per-song pipeline over decoded data: transcoding the reference,
//! padding the members, downmixing, and collecting the artifacts that the
//! document writers describe.

use vstd::prelude::*;
use vstd::string::*;
use vstd::utf8::encode_utf8;
use crate::AudioProcessor;
use crate::align::TrackDuration;
use crate::container::ClipEntry;
use crate::errors::DownmixError;
use crate::mono::{downmix_core, downmix_buffer, spec_downmixed};
use crate::naming::{normalize_chars, file_stem_chars, spec_normalize, spec_stem};
use crate::pad::{apply_padding, spec_padding_samples, zero_samples};
use crate::pcm::AudioBuffer;
use crate::project::{ProjectTrack, spec_project_doc};
use crate::strutil::{str_chars, chars_to_string};

verus! {

/// One decoded input track, paired with the raw file name it came from.
pub struct DecodedTrack {
    pub file_name: String,
    pub audio: AudioBuffer,
}

impl DecodedTrack {
    pub open spec fn wf(self) -> bool {
        &&& self.audio.wf()
        &&& self.audio.format.channels == 2
    }
}

/// The contents of one written aligned stereo WAV.
pub struct StereoAsset {
    pub file_name: String,
    pub audio: AudioBuffer,
}

impl StereoAsset {
    pub open spec fn wf(self) -> bool {
        &&& self.audio.wf()
        &&& self.audio.format.channels == 2
    }
}

/// The contents of one written mono WAV, derived from a stereo asset.
pub struct MonoAsset {
    pub file_name: String,
    pub audio: AudioBuffer,
}

impl MonoAsset {
    pub open spec fn wf(self) -> bool {
        &&& self.audio.wf()
        &&& self.audio.format.channels == 1
    }
}

/// The file name of a track's aligned stereo asset.
pub open spec fn spec_stereo_name(raw: Seq<char>) -> Seq<char> {
    spec_normalize(spec_stem(raw)) + ".wav"@
}

/// The file name of a mono asset, derived from its stereo asset's name.
pub open spec fn spec_mono_name(stereo_name: Seq<char>) -> Seq<char> {
    spec_normalize(spec_stem(stereo_name)) + "_mono.wav"@
}

fn stereo_name_of(raw: &String) -> (r: String)
    ensures
        r@ == spec_stereo_name(raw@),
{
    let v = str_chars(raw.as_str());
    let stem = file_stem_chars(&v);
    let norm = normalize_chars(&stem);
    chars_to_string(&norm).concat(".wav")
}

fn mono_name_of(stereo_name: &String) -> (r: String)
    ensures
        r@ == spec_mono_name(stereo_name@),
{
    let v = str_chars(stereo_name.as_str());
    let stem = file_stem_chars(&v);
    let norm = normalize_chars(&stem);
    chars_to_string(&norm).concat("_mono.wav")
}

fn clone_samples(v: &Vec<i16>) -> (r: Vec<i16>)
    ensures
        r@ == v@,
{
    let mut r: Vec<i16> = Vec::new();
    let mut i: usize = 0;
    while i < v.len()
        invariant
            i <= v@.len(),
            r@ =~= v@.take(i as int),
        decreases v@.len() - i,
    {
        r.push(v[i]);
        proof {
            assert(r@ =~= v@.take(i + 1));
        }
        i = i + 1;
    }
    proof {
        assert(v@.take(v@.len() as int) =~= v@);
    }
    r
}

impl AudioProcessor {
    /// Whether the song's folder already exists among the download
    /// directory's entries.
    pub fn check_folder_exists(entries: &Vec<String>, song_title: &String) -> (b: bool)
        ensures
            b == exists|i: int| 0 <= i < entries@.len() && entries@[i]@ == song_title@,
    {
        let mut i: usize = 0;
        while i < entries.len()
            invariant
                i <= entries@.len(),
                forall|j: int| 0 <= j < i ==> entries@[j]@ != song_title@,
            decreases entries@.len() - i,
        {
            if entries[i].eq(song_title) {
                return true;
            }
            i = i + 1;
        }
        false
    }

    /// Transcodes the reference track: its aligned stereo asset holds its
    /// decoded samples unchanged, under the normalized name.
    pub fn process_click_track(click: &DecodedTrack) -> (r: StereoAsset)
        requires
            click.wf(),
        ensures
            r.wf(),
            r.audio.format == click.audio.format,
            r.audio.samples@ == click.audio.samples@,
            r.file_name@ == spec_stereo_name(click.file_name@),
    {
        StereoAsset {
            file_name: stereo_name_of(&click.file_name),
            audio: AudioBuffer {
                format: click.audio.format,
                samples: clone_samples(&click.audio.samples),
            },
        }
    }

    /// Pads every member track against the reference duration, in
    /// discovery order: each aligned asset is the computed run of zero
    /// samples, then the member's decoded samples unchanged.
    pub fn process_non_click_tracks(
        members: &Vec<DecodedTrack>,
        reference: &TrackDuration,
    ) -> (r: Vec<StereoAsset>)
        requires
            reference.wf(),
            forall|i: int| 0 <= i < members@.len() ==> (#[trigger] members@[i]).wf(),
            forall|i: int|
                0 <= i < members@.len() ==> spec_padding_samples(
                    *reference,
                    (#[trigger] members@[i]).audio,
                ) + members@[i].audio.samples@.len() <= usize::MAX,
        ensures
            r@.len() == members@.len(),
            forall|i: int|
                0 <= i < members@.len() ==> {
                    &&& (#[trigger] r@[i]).wf()
                    &&& r@[i].audio.format == members@[i].audio.format
                    &&& r@[i].audio.samples@ == zero_samples(
                        spec_padding_samples(*reference, members@[i].audio),
                    ) + members@[i].audio.samples@
                    &&& r@[i].file_name@ == spec_stereo_name(members@[i].file_name@)
                },
    {
        let mut r: Vec<StereoAsset> = Vec::new();
        let mut i: usize = 0;
        while i < members.len()
            invariant
                i <= members@.len(),
                r@.len() == i,
                reference.wf(),
                forall|k: int| 0 <= k < members@.len() ==> (#[trigger] members@[k]).wf(),
                forall|k: int|
                    0 <= k < members@.len() ==> spec_padding_samples(
                        *reference,
                        (#[trigger] members@[k]).audio,
                    ) + members@[k].audio.samples@.len() <= usize::MAX,
                forall|k: int|
                    0 <= k < i ==> {
                        &&& (#[trigger] r@[k]).wf()
                        &&& r@[k].audio.format == members@[k].audio.format
                        &&& r@[k].audio.samples@ == zero_samples(
                            spec_padding_samples(*reference, members@[k].audio),
                        ) + members@[k].audio.samples@
                        &&& r@[k].file_name@ == spec_stereo_name(members@[k].file_name@)
                    },
            decreases members@.len() - i,
        {
            let member = &members[i];
            let padded = apply_padding(&member.audio, reference);
            let asset = StereoAsset {
                file_name: stereo_name_of(&member.file_name),
                audio: padded,
            };
            r.push(asset);
            i = i + 1;
        }
        r
    }

    /// Downmixes one written stereo WAV into its mono asset. Fails, and
    /// never passes the input through, unless it is exactly two channels
    /// wide.
    pub fn stereo_to_mono(file_name: &String, audio: &AudioBuffer) -> (r: Result<
        MonoAsset,
        DownmixError,
    >)
        requires
            audio.wf(),
        ensures
            match r {
                Ok(m) => {
                    &&& audio.format.channels == 2
                    &&& m.wf()
                    &&& m.audio.format.sample_rate == audio.format.sample_rate
                    &&& m.audio.samples@ == spec_downmixed(audio.samples@)
                    &&& m.file_name@ == spec_mono_name(file_name@)
                },
                Err(e) => e == DownmixError::NotStereo && audio.format.channels != 2,
            },
    {
        match downmix_buffer(audio) {
            Ok(m) => Ok(MonoAsset { file_name: mono_name_of(file_name), audio: m }),
            Err(e) => Err(e),
        }
    }

    /// Downmixes the reference's asset and every member's asset, reference
    /// first, members in discovery order.
    pub fn convert_to_mono(click: &StereoAsset, others: &Vec<StereoAsset>) -> (r: Vec<MonoAsset>)
        requires
            click.wf(),
            forall|i: int| 0 <= i < others@.len() ==> (#[trigger] others@[i]).wf(),
        ensures
            r@.len() == 1 + others@.len(),
            r@[0].wf(),
            r@[0].audio.format.sample_rate == click.audio.format.sample_rate,
            r@[0].audio.samples@ == spec_downmixed(click.audio.samples@),
            r@[0].file_name@ == spec_mono_name(click.file_name@),
            forall|i: int|
                0 <= i < others@.len() ==> {
                    &&& (#[trigger] r@[i + 1]).wf()
                    &&& r@[i + 1].audio.format.sample_rate == others@[i].audio.format.sample_rate
                    &&& r@[i + 1].audio.samples@ == spec_downmixed(others@[i].audio.samples@)
                    &&& r@[i + 1].file_name@ == spec_mono_name(others@[i].file_name@)
                },
    {
        let mut r: Vec<MonoAsset> = Vec::new();
        let m = downmix_core(&click.audio);
        r.push(MonoAsset { file_name: mono_name_of(&click.file_name), audio: m });
        let mut i: usize = 0;
        while i < others.len()
            invariant
                i <= others@.len(),
                r@.len() == i + 1,
                click.wf(),
                forall|k: int| 0 <= k < others@.len() ==> (#[trigger] others@[k]).wf(),
                r@[0].wf(),
                r@[0].audio.format.sample_rate == click.audio.format.sample_rate,
                r@[0].audio.samples@ == spec_downmixed(click.audio.samples@),
                r@[0].file_name@ == spec_mono_name(click.file_name@),
                forall|k: int|
                    0 <= k < i ==> {
                        &&& (#[trigger] r@[k + 1]).wf()
                        &&& r@[k + 1].audio.format.sample_rate
                            == others@[k].audio.format.sample_rate
                        &&& r@[k + 1].audio.samples@ == spec_downmixed(others@[k].audio.samples@)
                        &&& r@[k + 1].file_name@ == spec_mono_name(others@[k].file_name@)
                    },
            decreases others@.len() - i,
        {
            let o = &others[i];
            let m = downmix_core(&o.audio);
            r.push(MonoAsset { file_name: mono_name_of(&o.file_name), audio: m });
            i = i + 1;
        }
        r
    }
}

/// The fixed stems-root-relative directory of the mono assets, as it is
/// written into the container's clip paths.
pub open spec fn mono_rel_prefix() -> Seq<char> {
    "STEMS/WAV MONO/"@
}

fn project_track_of(mono: &MonoAsset, mono_dir: &String) -> (t: ProjectTrack)
    requires
        mono.wf(),
    ensures
        t.wf(),
        t.stem@ == spec_stem(mono.file_name@),
        t.file_name@ == mono.file_name@,
        t.path@ == mono_dir@ + "/"@ + mono.file_name@,
        t.frames == mono.audio.samples@.len(),
        t.rate == mono.audio.format.sample_rate,
{
    let v = str_chars(mono.file_name.as_str());
    let stem_chars = file_stem_chars(&v);
    let path = mono_dir.clone().concat("/").concat(mono.file_name.as_str());
    ProjectTrack {
        stem: chars_to_string(&stem_chars),
        file_name: mono.file_name.clone(),
        path,
        frames: mono.audio.samples.len() as u64,
        rate: mono.audio.format.sample_rate,
    }
}

fn clip_of(mono: &MonoAsset) -> (c: ClipEntry)
    requires
        mono.wf(),
        mono.audio.samples@.len() <= u32::MAX,
    ensures
        c.path@ == encode_utf8(mono_rel_prefix() + mono.file_name@),
        c.sample_rate == mono.audio.format.sample_rate,
        c.channels == 1,
        c.sample_count == mono.audio.samples@.len(),
{
    let p = "STEMS/WAV MONO/".to_owned().concat(mono.file_name.as_str());
    let bytes = p.as_str().as_bytes_vec();
    ClipEntry {
        path: bytes,
        sample_rate: mono.audio.format.sample_rate,
        channels: 1,
        sample_count: mono.audio.samples.len() as u32,
    }
}

/// Everything the pipeline produces for one song, short of the files on
/// disk: the aligned stereo assets and mono assets (reference first,
/// members in discovery order), the project document with the track data
/// behind it, and the container's clip descriptors.
pub struct SessionArtifacts {
    pub stereo: Vec<StereoAsset>,
    pub mono: Vec<MonoAsset>,
    pub reference_track: ProjectTrack,
    pub member_tracks: Vec<ProjectTrack>,
    pub clips: Vec<ClipEntry>,
    pub project_doc: String,
}

impl AudioProcessor {
    /// Runs the whole per-song pipeline on decoded data: transcodes the
    /// reference, pads every member against the reference duration,
    /// downmixes every aligned asset, and emits the project document. The
    /// container document is built separately from the returned clip
    /// descriptors, so that a caller may stamp it.
    pub fn assemble_session(
        click: &DecodedTrack,
        members: &Vec<DecodedTrack>,
        mono_dir: &String,
        timestamp: u32,
    ) -> (r: SessionArtifacts)
        requires
            click.wf(),
            forall|i: int| 0 <= i < members@.len() ==> (#[trigger] members@[i]).wf(),
            forall|i: int|
                0 <= i < members@.len() ==> spec_padding_samples(
                    spec_click_duration(*click),
                    (#[trigger] members@[i]).audio,
                ) + members@[i].audio.samples@.len() <= usize::MAX,
            click.audio.samples@.len() <= u32::MAX,
            forall|i: int|
                0 <= i < members@.len() ==> spec_padding_samples(
                    spec_click_duration(*click),
                    (#[trigger] members@[i]).audio,
                ) + members@[i].audio.samples@.len() <= u32::MAX,
            members@.len() < usize::MAX - 1,
        ensures
            r.stereo@.len() == 1 + members@.len(),
            r.stereo@[0].wf(),
            r.stereo@[0].audio.format == click.audio.format,
            r.stereo@[0].audio.samples@ == click.audio.samples@,
            r.stereo@[0].file_name@ == spec_stereo_name(click.file_name@),
            forall|i: int|
                0 <= i < members@.len() ==> {
                    &&& (#[trigger] r.stereo@[i + 1]).wf()
                    &&& r.stereo@[i + 1].audio.format == members@[i].audio.format
                    &&& r.stereo@[i + 1].audio.samples@ == zero_samples(
                        spec_padding_samples(spec_click_duration(*click), members@[i].audio),
                    ) + members@[i].audio.samples@
                    &&& r.stereo@[i + 1].file_name@ == spec_stereo_name(members@[i].file_name@)
                },
            r.mono@.len() == 1 + members@.len(),
            forall|i: int|
                0 <= i < r.mono@.len() ==> {
                    &&& (#[trigger] r.mono@[i]).wf()
                    &&& r.mono@[i].audio.format.sample_rate
                        == r.stereo@[i].audio.format.sample_rate
                    &&& r.mono@[i].audio.samples@ == spec_downmixed(r.stereo@[i].audio.samples@)
                    &&& r.mono@[i].file_name@ == spec_mono_name(r.stereo@[i].file_name@)
                },
            r.reference_track.stem@ == spec_stem(r.mono@[0].file_name@),
            r.reference_track.file_name@ == r.mono@[0].file_name@,
            r.reference_track.path@ == mono_dir@ + "/"@ + r.mono@[0].file_name@,
            r.reference_track.frames == r.mono@[0].audio.samples@.len(),
            r.reference_track.rate == r.mono@[0].audio.format.sample_rate,
            r.member_tracks@.len() == members@.len(),
            forall|i: int|
                0 <= i < members@.len() ==> {
                    &&& (#[trigger] r.member_tracks@[i]).stem@ == spec_stem(
                        r.mono@[i + 1].file_name@,
                    )
                    &&& r.member_tracks@[i].file_name@ == r.mono@[i + 1].file_name@
                    &&& r.member_tracks@[i].path@ == mono_dir@ + "/"@ + r.mono@[i + 1].file_name@
                    &&& r.member_tracks@[i].frames == r.mono@[i + 1].audio.samples@.len()
                    &&& r.member_tracks@[i].rate == r.mono@[i + 1].audio.format.sample_rate
                },
            r.clips@.len() == 1 + members@.len(),
            forall|i: int|
                0 <= i < r.clips@.len() ==> {
                    &&& (#[trigger] r.clips@[i]).path@ == encode_utf8(
                        mono_rel_prefix() + r.mono@[i].file_name@,
                    )
                    &&& r.clips@[i].sample_rate == r.mono@[i].audio.format.sample_rate
                    &&& r.clips@[i].channels == 1
                    &&& r.clips@[i].sample_count == r.mono@[i].audio.samples@.len()
                },
            r.project_doc@ == spec_project_doc(
                r.reference_track,
                r.member_tracks@,
                timestamp as int,
            ),
    {
        let reference_duration = click.audio.duration();
        proof {
            assert(reference_duration.frames == spec_click_duration(*click).frames);
            assert(reference_duration == spec_click_duration(*click));
        }
        let click_asset = Self::process_click_track(click);
        let others = Self::process_non_click_tracks(members, &reference_duration);
        let mono = Self::convert_to_mono(&click_asset, &others);
        proof {
            assert forall|k: int| 0 <= k < mono@.len() implies (#[trigger] mono@[k]).wf() by {
                if k > 0 {
                    assert(mono@[(k - 1) + 1].wf());
                }
            }
            assert forall|k: int|
                0 <= k < mono@.len() implies (#[trigger] mono@[k]).audio.samples@.len()
                <= u32::MAX by {
                if k == 0 {
                    assert(mono@[0].audio.samples@ == spec_downmixed(click_asset.audio.samples@));
                } else {
                    let i = k - 1;
                    assert(mono@[i + 1].audio.samples@ == spec_downmixed(
                        others@[i].audio.samples@,
                    ));
                    assert(others@[i].audio.samples@.len() == zero_samples(
                        spec_padding_samples(reference_duration, members@[i].audio),
                    ).len() + members@[i].audio.samples@.len());
                }
            }
        }
        let reference_track = project_track_of(&mono[0], mono_dir);
        let first_clip = clip_of(&mono[0]);
        let mut member_tracks: Vec<ProjectTrack> = Vec::new();
        let mut clips: Vec<ClipEntry> = Vec::new();
        clips.push(first_clip);
        let mut i: usize = 1;
        while i < mono.len()
            invariant
                1 <= i <= mono@.len(),
                mono@.len() == 1 + members@.len(),
                mono@.len() == 1 + others@.len(),
                forall|k: int| 0 <= k < mono@.len() ==> (#[trigger] mono@[k]).wf(),
                forall|k: int|
                    0 <= k < mono@.len() ==> (#[trigger] mono@[k]).audio.samples@.len()
                        <= u32::MAX,
                member_tracks@.len() == i - 1,
                clips@.len() == i,
                forall|k: int|
                    0 <= k < i - 1 ==> {
                        &&& (#[trigger] member_tracks@[k]).wf()
                        &&& member_tracks@[k].stem@ == spec_stem(mono@[k + 1].file_name@)
                        &&& member_tracks@[k].file_name@ == mono@[k + 1].file_name@
                        &&& member_tracks@[k].path@ == mono_dir@ + "/"@ + mono@[k + 1].file_name@
                        &&& member_tracks@[k].frames == mono@[k + 1].audio.samples@.len()
                        &&& member_tracks@[k].rate == mono@[k + 1].audio.format.sample_rate
                    },
                forall|k: int|
                    0 <= k < i ==> {
                        &&& (#[trigger] clips@[k]).path@ == encode_utf8(
                            mono_rel_prefix() + mono@[k].file_name@,
                        )
                        &&& clips@[k].sample_rate == mono@[k].audio.format.sample_rate
                        &&& clips@[k].channels == 1
                        &&& clips@[k].sample_count == mono@[k].audio.samples@.len()
                    },
            decreases mono@.len() - i,
        {
            let t = project_track_of(&mono[i], mono_dir);
            member_tracks.push(t);
            let c = clip_of(&mono[i]);
            clips.push(c);
            i = i + 1;
        }
        let project_doc = Self::generate_reaper_project(
            &reference_track,
            &member_tracks,
            timestamp as u64,
        );
        let ghost others_view = others@;
        let mut stereo: Vec<StereoAsset> = Vec::new();
        stereo.push(click_asset);
        let ghost click_asset_val = stereo@[0];
        let mut rest = others;
        stereo.append(&mut rest);
        proof {
            assert(stereo@ =~= seq![click_asset_val] + others_view);
            assert forall|i: int|
                0 <= i < mono@.len() implies {
                &&& (#[trigger] mono@[i]).wf()
                &&& mono@[i].audio.format.sample_rate == stereo@[i].audio.format.sample_rate
                &&& mono@[i].audio.samples@ == spec_downmixed(stereo@[i].audio.samples@)
                &&& mono@[i].file_name@ == spec_mono_name(stereo@[i].file_name@)
            } by {
                if i == 0 {
                    assert(stereo@[0] == click_asset_val);
                } else {
                    assert(stereo@[i] == others_view[i - 1]);
                    assert(mono@[(i - 1) + 1].wf());
                    assert(mono@[(i - 1) + 1].audio.samples@ == spec_downmixed(
                        others_view[i - 1].audio.samples@,
                    ));
                }
            }
        }
        SessionArtifacts { stereo, mono, reference_track, member_tracks, clips, project_doc }
    }
}

/// The reference track's duration, as the aligner sees it.
pub open spec fn spec_click_duration(click: DecodedTrack) -> TrackDuration {
    TrackDuration {
        frames: (click.audio.samples@.len() as int / 2) as u64,
        rate: click.audio.format.sample_rate,
    }
}

} // verus!
