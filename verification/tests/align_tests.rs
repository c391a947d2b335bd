use stem_align::align::{TrackDuration, padding_duration, padding_frame_count};

// Reference 10.0 s, member 7.5 s at 44100 Hz: padding is exactly 2.5 s.
#[test]
fn padding_longer_reference() {
    let reference = TrackDuration { frames: 441000, rate: 44100 };
    let member = TrackDuration { frames: 330750, rate: 44100 };
    let span = padding_duration(&reference, &member);
    // num / den == 2.5 == 5 / 2
    assert_eq!(span.num * 2, span.den * 5);
    let frames = padding_frame_count(&reference, &member);
    // 2.5 s of frames at the member's rate
    assert_eq!(frames, 110250);
}

// Reference 5 s, member 6 s: a member longer than the reference gets zero
// padding.
#[test]
fn padding_longer_member() {
    let reference = TrackDuration { frames: 220500, rate: 44100 };
    let member = TrackDuration { frames: 264600, rate: 44100 };
    let span = padding_duration(&reference, &member);
    assert_eq!(span.num, 0);
    assert_eq!(padding_frame_count(&reference, &member), 0);
}

// Equal durations give zero padding.
#[test]
fn padding_equal_durations() {
    let reference = TrackDuration { frames: 44100, rate: 44100 };
    let member = TrackDuration { frames: 44100, rate: 44100 };
    assert_eq!(padding_frame_count(&reference, &member), 0);
}

// Rates may differ: reference 2 s at 48000 Hz, member 0.5 s at 44100 Hz
// gives 1.5 s of padding in the member's rate.
#[test]
fn padding_mixed_rates() {
    let reference = TrackDuration { frames: 96000, rate: 48000 };
    let member = TrackDuration { frames: 22050, rate: 44100 };
    let frames = padding_frame_count(&reference, &member);
    assert_eq!(frames, 66150);
}

// A padding shorter than one frame is rounded down to none.
#[test]
fn padding_rounds_down() {
    let reference = TrackDuration { frames: 100, rate: 100 };
    let member = TrackDuration { frames: 999, rate: 1000 };
    // difference is 0.001 s = 1 frame at the member's rate
    assert_eq!(padding_frame_count(&reference, &member), 1);
    let reference2 = TrackDuration { frames: 9995, rate: 10000 };
    let member2 = TrackDuration { frames: 99, rate: 100 };
    // difference is 0.0045 s, less than one frame at 100 Hz
    assert_eq!(padding_frame_count(&reference2, &member2), 0);
}
