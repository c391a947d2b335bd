use stem_align::AudioProcessor;
use stem_align::pcm::{AudioBuffer, PcmSpec};
use stem_align::pipeline::DecodedTrack;

fn stereo_track(file_name: &str, seconds_hundredths: u64, rate: u32, fill: i16) -> DecodedTrack {
    let frames = (seconds_hundredths * rate as u64 / 100) as usize;
    DecodedTrack {
        file_name: file_name.to_string(),
        audio: AudioBuffer {
            format: PcmSpec { channels: 2, sample_rate: rate },
            samples: vec![fill; frames * 2],
        },
    }
}

// End-to-end: reference "Click" 3.0 s stereo 44100 Hz; members "Bass"
// 2.0 s and "Guitar" 3.5 s. Bass gets 1.0 s of padding, Guitar none; the
// aligned durations are 3.0, 3.0 and 3.5 s; three mono assets come out;
// the project document has four tracks and the manifest three clips.
#[test]
fn end_to_end_session() {
    let click = stereo_track("Song(Click_Custom_Backing_Track).mp3", 300, 44100, 5);
    let members = vec![
        stereo_track("Song(Bass_Custom_Backing_Track).mp3", 200, 44100, 6),
        stereo_track("Song(Guitar_Custom_Backing_Track).mp3", 350, 44100, 7),
    ];
    let mono_dir = "/tmp/session/STEMS/WAV MONO".to_string();
    let arts = AudioProcessor::assemble_session(&click, &members, &mono_dir, 1681658689);

    // aligned stereo assets: reference first, then members in order
    assert_eq!(arts.stereo.len(), 3);
    assert_eq!(arts.stereo[0].file_name, "Click.wav");
    assert_eq!(arts.stereo[1].file_name, "Bass.wav");
    assert_eq!(arts.stereo[2].file_name, "Guitar.wav");
    // stereo durations 3.0, 3.0, 3.5 seconds at 44100 Hz
    assert_eq!(arts.stereo[0].audio.samples.len(), 264600);
    assert_eq!(arts.stereo[1].audio.samples.len(), 264600);
    assert_eq!(arts.stereo[2].audio.samples.len(), 308700);
    // Bass: exactly 1.0 s of zeros, then the decoded samples unchanged
    assert!(arts.stereo[1].audio.samples[..88200].iter().all(|&s| s == 0));
    assert!(arts.stereo[1].audio.samples[88200..].iter().all(|&s| s == 6));
    // Guitar: longer than the reference, preserved without padding
    assert!(arts.stereo[2].audio.samples.iter().all(|&s| s == 7));

    // three mono assets, each half the sample count at the same rate
    assert_eq!(arts.mono.len(), 3);
    assert_eq!(arts.mono[0].file_name, "Click_mono.wav");
    assert_eq!(arts.mono[1].file_name, "Bass_mono.wav");
    assert_eq!(arts.mono[2].file_name, "Guitar_mono.wav");
    assert_eq!(arts.mono[0].audio.samples.len(), 132300);
    assert_eq!(arts.mono[1].audio.samples.len(), 132300);
    assert_eq!(arts.mono[2].audio.samples.len(), 154350);
    assert_eq!(arts.mono[0].audio.format.channels, 1);
    // constant stereo pairs average to themselves
    assert!(arts.mono[2].audio.samples.iter().all(|&s| s == 7));

    // the project document lists four tracks with matching item lengths
    let doc = &arts.project_doc;
    assert_eq!(doc.matches("  <TRACK ").count(), 4);
    assert!(doc.contains("NAME \"Click_mono\""));
    assert!(doc.contains("NAME \"Bass_mono\""));
    assert!(doc.contains("NAME \"Guitar_mono\""));
    assert!(doc.contains("NAME \"MIDI\""));
    assert_eq!(doc.matches("LENGTH 3\n").count(), 2);
    assert_eq!(doc.matches("LENGTH 3.5\n").count(), 2);
    assert!(doc.contains("FILE \"/tmp/session/STEMS/WAV MONO/Bass_mono.wav\""));

    // the manifest holds exactly the three mono paths
    assert_eq!(arts.clips.len(), 3);
    assert_eq!(arts.clips[0].path, b"STEMS/WAV MONO/Click_mono.wav".to_vec());
    assert_eq!(arts.clips[1].path, b"STEMS/WAV MONO/Bass_mono.wav".to_vec());
    assert_eq!(arts.clips[2].path, b"STEMS/WAV MONO/Guitar_mono.wav".to_vec());
    assert_eq!(arts.clips[0].sample_count, 132300);
    assert_eq!(arts.clips[2].sample_count, 154350);
    assert!(arts.clips.iter().all(|c| c.channels == 1 && c.sample_rate == 44100));
    let container = AudioProcessor::generate_aaf(&arts.clips, 1681658689);
    let mut clip_count = 0;
    for i in 0..container.len() - 3 {
        if &container[i..i + 4] == b"CLIP" {
            clip_count += 1;
        }
    }
    assert_eq!(clip_count, 3);
}

// Downmixing one written stereo asset derives the mono name from the
// stereo name; a mono input is rejected.
#[test]
fn stereo_to_mono_asset() {
    let audio = AudioBuffer {
        format: PcmSpec { channels: 2, sample_rate: 44100 },
        samples: vec![10, 20, 30, 40],
    };
    let m = AudioProcessor::stereo_to_mono(&"Bass.wav".to_string(), &audio).unwrap();
    assert_eq!(m.file_name, "Bass_mono.wav");
    assert_eq!(m.audio.samples, vec![15, 35]);

    let mono_in = AudioBuffer {
        format: PcmSpec { channels: 1, sample_rate: 44100 },
        samples: vec![1, 2],
    };
    assert!(AudioProcessor::stereo_to_mono(&"Bass.wav".to_string(), &mono_in).is_err());
}

// A session with no members still produces its reference assets and
// documents.
#[test]
fn session_reference_only() {
    let click = stereo_track("Song(Click_Custom_Backing_Track).mp3", 100, 44100, 1);
    let members = vec![];
    let mono_dir = "/out".to_string();
    let arts = AudioProcessor::assemble_session(&click, &members, &mono_dir, 7);
    assert_eq!(arts.stereo.len(), 1);
    assert_eq!(arts.mono.len(), 1);
    assert_eq!(arts.clips.len(), 1);
    assert_eq!(arts.project_doc.matches("  <TRACK ").count(), 2);
}
