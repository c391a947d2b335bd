use stem_align::AudioProcessor;
use stem_align::project::ProjectTrack;

fn track(stem: &str, frames: u64, rate: u32) -> ProjectTrack {
    ProjectTrack {
        stem: stem.to_string(),
        file_name: format!("{}.wav", stem),
        path: format!("/tmp/out/{}.wav", stem),
        frames,
        rate,
    }
}

// Re-running generation on unchanged inputs is byte-identical.
#[test]
fn project_doc_deterministic() {
    let reference = track("Click_mono", 132300, 44100);
    let members = vec![track("Bass_mono", 132300, 44100)];
    let a = AudioProcessor::generate_reaper_project(&reference, &members, 1681658689);
    let b = AudioProcessor::generate_reaper_project(&reference, &members, 1681658689);
    assert_eq!(a, b);
}

// Changing only the timestamp changes only the digits after the version
// words in the header's first line.
#[test]
fn project_doc_timestamp_only() {
    let reference = track("Click_mono", 132300, 44100);
    let members = vec![track("Bass_mono", 132300, 44100)];
    let a = AudioProcessor::generate_reaper_project(&reference, &members, 1111111111);
    let b = AudioProcessor::generate_reaper_project(&reference, &members, 2222222222);
    let prefix = "<REAPER_PROJECT 0.1 \"6.13/linux64\" ";
    assert!(a.starts_with(prefix));
    assert!(b.starts_with(prefix));
    let rest_a = &a[prefix.len() + "1111111111".len()..];
    let rest_b = &b[prefix.len() + "2222222222".len()..];
    assert_eq!(rest_a, rest_b);
    assert!(a[prefix.len()..].starts_with("1111111111"));
    assert!(b[prefix.len()..].starts_with("2222222222"));
}

// One block per stem track, reference first with hard-left pan, members
// hard-right, then the end-marker track.
#[test]
fn project_doc_track_blocks() {
    let reference = track("Click_mono", 132300, 44100);
    let members = vec![track("Bass_mono", 132300, 44100), track("Guitar_mono", 154350, 44100)];
    let doc = AudioProcessor::generate_reaper_project(&reference, &members, 1681658689);
    assert_eq!(doc.matches("  <TRACK ").count(), 4);
    assert!(doc.contains("  <TRACK 1\n    NAME \"Click_mono\""));
    assert!(doc.contains("  <TRACK 2\n    NAME \"Bass_mono\""));
    assert!(doc.contains("  <TRACK 3\n    NAME \"Guitar_mono\""));
    assert!(doc.contains("  <TRACK 4\n    NAME \"MIDI\""));
    // hard-left pan for the reference, hard-right for members
    assert_eq!(doc.matches("VOLPAN 1 -1 -1 -1 1").count(), 1);
    assert_eq!(doc.matches("VOLPAN 1 1 -1 -1 1").count(), 2);
    // item lengths come from frames / rate
    assert!(doc.contains("LENGTH 3\n"));
    assert!(doc.contains("LENGTH 3.5\n"));
    // the marker item spans the maximum duration and carries its tick count
    assert!(doc.contains("E 0 b0 7b 00"));
    assert!(doc.contains("E 6720 b0 7b 00"));
    // absolute paths are written into the source blocks
    assert!(doc.contains("FILE \"/tmp/out/Bass_mono.wav\""));
    // identifiers derive from the position index
    assert!(doc.contains("TRACKID {7FE0D07C-DFA2-4D85-8A77-6AB24173DC80}"));
    assert!(doc.contains("TRACKID {7FE0D07C-DFA2-4D85-8A77-6AB24173DC81}"));
    assert!(doc.contains("TRACKID {7FE0D07C-DFA2-4D85-8A77-6AB24173DC93}"));
}

// A fractional duration that does not terminate within six digits is
// truncated there.
#[test]
fn project_doc_fractional_length() {
    let reference = track("Click_mono", 132301, 44100);
    let members = vec![];
    let doc = AudioProcessor::generate_reaper_project(&reference, &members, 1);
    // 132301 / 44100 = 3.0000226757...
    assert!(doc.contains("LENGTH 3.000022\n"));
}
