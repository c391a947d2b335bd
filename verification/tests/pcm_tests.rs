use stem_align::pcm::AudioBuffer;

// Interleaving a two-channel packet keeps both planes, left at even
// positions, right at odd ones, and the sample count stays even.
#[test]
fn stereo_frames_interleave() {
    let mut buf = AudioBuffer::new_stereo(44100);
    buf.push_stereo_frames(&vec![1, 2, 3], &vec![4, 5, 6]);
    assert_eq!(buf.samples, vec![1, 4, 2, 5, 3, 6]);
    assert_eq!(buf.samples.len() % 2, 0);
    let d = buf.duration();
    assert_eq!(d.frames, 3);
    assert_eq!(d.rate, 44100);
}

// A mono packet is duplicated into both channels.
#[test]
fn mono_frames_duplicate() {
    let mut buf = AudioBuffer::new_stereo(48000);
    buf.push_mono_frames(&vec![7, -8]);
    assert_eq!(buf.samples, vec![7, 7, -8, -8]);
}

// Duration is computed from the decoded sample count: count / (2 * rate).
#[test]
fn duration_from_sample_count() {
    let mut buf = AudioBuffer::new_stereo(44100);
    let plane = vec![0i16; 132300];
    buf.push_mono_frames(&plane);
    assert_eq!(buf.samples.len(), 264600);
    let d = buf.duration();
    // 264600 / (2 * 44100) = 3.0 seconds, i.e. 132300 frames at 44100 Hz
    assert_eq!(d.frames, 132300);
    assert_eq!(d.rate, 44100);
}

// Packets accumulate in order.
#[test]
fn packets_accumulate() {
    let mut buf = AudioBuffer::new_stereo(8000);
    buf.push_stereo_frames(&vec![1], &vec![2]);
    buf.push_stereo_frames(&vec![3], &vec![4]);
    assert_eq!(buf.samples, vec![1, 2, 3, 4]);
}
