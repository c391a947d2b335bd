use stem_align::AudioProcessor;
use stem_align::errors::DiscoveryError;

fn names(v: &[&str]) -> Vec<String> {
    v.iter().map(|s| s.to_string()).collect()
}

// One reference (by case-insensitive marker) and the compressed members in
// discovery order.
#[test]
fn find_tracks_basic() {
    let ns = names(&[
        "Song(Click_Custom_Backing_Track).mp3",
        "Song(Bass_Custom_Backing_Track).mp3",
        "Song(Guitar_Custom_Backing_Track).mp3",
    ]);
    let (click, members) = AudioProcessor::find_tracks(&ns).unwrap();
    assert_eq!(click, 0);
    assert_eq!(members, vec![1, 2]);
}

// The marker is matched without regard to case.
#[test]
fn find_tracks_case_insensitive() {
    let ns = names(&["Song(CLICK_Custom_Backing_Track).mp3", "b.mp3"]);
    let (click, members) = AudioProcessor::find_tracks(&ns).unwrap();
    assert_eq!(click, 0);
    assert_eq!(members, vec![1]);
}

// When several names carry the marker, the last one wins, and none of them
// counts as a member.
#[test]
fn find_tracks_last_marker_wins() {
    let ns = names(&["click_a.mp3", "b.mp3", "click_c.mp3"]);
    let (click, members) = AudioProcessor::find_tracks(&ns).unwrap();
    assert_eq!(click, 2);
    assert_eq!(members, vec![1]);
}

// Files without the compressed-audio suffix are not members.
#[test]
fn find_tracks_ignores_other_files() {
    let ns = names(&["click.mp3", "notes.txt", "b.mp3", ".mp3"]);
    let (click, members) = AudioProcessor::find_tracks(&ns).unwrap();
    assert_eq!(click, 0);
    assert_eq!(members, vec![2]);
}

// A session may have zero members, but never zero references.
#[test]
fn find_tracks_no_reference() {
    let ns = names(&["a.mp3", "b.mp3"]);
    assert!(matches!(
        AudioProcessor::find_tracks(&ns),
        Err(DiscoveryError::ReferenceNotFound)
    ));
}

#[test]
fn find_tracks_reference_only() {
    let ns = names(&["the_click.mp3"]);
    let (click, members) = AudioProcessor::find_tracks(&ns).unwrap();
    assert_eq!(click, 0);
    assert!(members.is_empty());
}

// Folder lookup is plain membership among the directory entries.
#[test]
fn folder_exists() {
    let entries = names(&["Song A", "Song B"]);
    assert!(AudioProcessor::check_folder_exists(&entries, &"Song A".to_string()));
    assert!(!AudioProcessor::check_folder_exists(&entries, &"Song C".to_string()));
}
