use stem_align::AudioProcessor;
use stem_align::errors::NamingError;

// The human name sits between the first parenthesis and the marker;
// underscores become spaces.
#[test]
fn normalize_with_marker() {
    let name = AudioProcessor::normalize_track_name(
        "My_Song(Electric_Guitar_Custom_Backing_Track).mp3",
    );
    assert_eq!(name, "Electric Guitar");
}

#[test]
fn normalize_single_word_marker() {
    let name = AudioProcessor::normalize_track_name("Song(Click_Custom_Backing_Track).mp3");
    assert_eq!(name, "Click");
}

// Without the marker the whole name is kept, underscores turned to spaces.
#[test]
fn normalize_without_marker() {
    let name = AudioProcessor::normalize_track_name("plain_file_name.mp3");
    assert_eq!(name, "plain file name.mp3");
}

// Without a parenthesis the fallback applies even if the marker is there.
#[test]
fn normalize_without_paren() {
    let name = AudioProcessor::normalize_track_name("Click_Custom_Backing_Track)");
    assert_eq!(name, "Click Custom Backing Track)");
}

// Words are capitalized: first letter upper, rest lower.
#[test]
fn format_title_capitalizes() {
    let t = AudioProcessor::format_song_title("hello_world").unwrap();
    assert_eq!(t, "Hello World");
}

#[test]
fn format_title_lowers_rest() {
    let t = AudioProcessor::format_song_title("HELLO wORLD").unwrap();
    assert_eq!(t, "Hello World");
}

// Surrounding and repeated whitespace collapses to single spaces.
#[test]
fn format_title_collapses_whitespace() {
    let t = AudioProcessor::format_song_title("  some   song  ").unwrap();
    assert_eq!(t, "Some Song");
}

// A title with no words at all is rejected.
#[test]
fn format_title_empty() {
    assert!(matches!(
        AudioProcessor::format_song_title("   "),
        Err(NamingError::EmptyTitle)
    ));
    assert!(matches!(
        AudioProcessor::format_song_title("___"),
        Err(NamingError::EmptyTitle)
    ));
}

// The song title is the trimmed heading text, with the advertised suffix
// cut off.
#[test]
fn title_from_html_extracts() {
    let body = "<html><h1 class=\"song-details__title\" data-x=\"1\">\n  Sweet Song - Custom Backing Track MP3\n</h1></html>";
    let t = AudioProcessor::title_from_html(body).unwrap();
    assert_eq!(t, "Sweet Song");
}

#[test]
fn title_from_html_without_suffix() {
    let body = "<h1 class=\"song-details__title\">Plain Title</h1>";
    let t = AudioProcessor::title_from_html(body).unwrap();
    assert_eq!(t, "Plain Title");
}

#[test]
fn title_from_html_missing_heading() {
    assert!(AudioProcessor::title_from_html("<html><body>nothing here</body></html>").is_none());
}
