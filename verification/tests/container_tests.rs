use stem_align::AudioProcessor;
use stem_align::container::ClipEntry;

fn be32(b: &[u8]) -> u32 {
    ((b[0] as u32) << 24) | ((b[1] as u32) << 16) | ((b[2] as u32) << 8) | (b[3] as u32)
}

fn clip(path: &str, rate: u32, count: u32) -> ClipEntry {
    ClipEntry {
        path: path.as_bytes().to_vec(),
        sample_rate: rate,
        channels: 1,
        sample_count: count,
    }
}

// Outer layout: container tag, length, type tag, then the header chunk
// with version, byte-order flag and timestamp.
#[test]
fn container_header_layout() {
    let clips = vec![clip("STEMS/WAV MONO/Click_mono.wav", 44100, 132300)];
    let doc = AudioProcessor::generate_aaf(&clips, 0x01020304);
    assert_eq!(&doc[0..4], b"FORM");
    assert_eq!(&doc[8..12], b"OMFI");
    assert_eq!(&doc[12..16], b"HEAD");
    // fixed-size header payload: its length field says 8
    assert_eq!(be32(&doc[16..20]), 8);
    // version 2.0, big-endian byte order flag
    assert_eq!(&doc[20..24], &[0x02, 0x00, 0x00, 0x00]);
    // big-endian unix timestamp
    assert_eq!(be32(&doc[24..28]), 0x01020304);
    assert_eq!(&doc[28..32], b"MOBJ");
}

// Every chunk length field equals its actual payload byte length, and the
// outer container length equals the total file size minus its own 8-byte
// header.
#[test]
fn container_length_fields() {
    let clips = vec![
        clip("STEMS/WAV MONO/Click_mono.wav", 44100, 132300),
        clip("STEMS/WAV MONO/Bass_mono.wav", 44100, 132300),
    ];
    let doc = AudioProcessor::generate_aaf(&clips, 7);
    assert_eq!(be32(&doc[4..8]) as usize, doc.len() - 8);
    let mobj_len = be32(&doc[32..36]) as usize;
    assert_eq!(36 + mobj_len, doc.len());
    // walk the clip chunks
    let mut off = 36;
    let mut clips_seen = 0;
    while off < doc.len() {
        assert_eq!(&doc[off..off + 4], b"CLIP");
        let len = be32(&doc[off + 4..off + 8]) as usize;
        let path_len = be32(&doc[off + 8..off + 12]) as usize;
        // payload: path length prefix + path + rate + channels + count
        assert_eq!(len, 4 + path_len + 4 + 2 + 4);
        off += 8 + len;
        clips_seen += 1;
    }
    assert_eq!(off, doc.len());
    assert_eq!(clips_seen, 2);
}

// One clip chunk per mono asset, holding the relative path, rate, channel
// count and sample count.
#[test]
fn container_clip_contents() {
    let clips = vec![clip("STEMS/WAV MONO/Guitar_mono.wav", 48000, 154350)];
    let doc = AudioProcessor::generate_aaf(&clips, 0);
    let path_len = be32(&doc[44..48]) as usize;
    assert_eq!(path_len, "STEMS/WAV MONO/Guitar_mono.wav".len());
    let path = &doc[48..48 + path_len];
    assert_eq!(path, "STEMS/WAV MONO/Guitar_mono.wav".as_bytes());
    let rest = 48 + path_len;
    assert_eq!(be32(&doc[rest..rest + 4]), 48000);
    assert_eq!(&doc[rest + 4..rest + 6], &[0x00, 0x01]);
    assert_eq!(be32(&doc[rest + 6..rest + 10]), 154350);
}

// Re-running generation on unchanged clips with another wall-clock time
// yields identical bytes except the four timestamp bytes.
#[test]
fn container_timestamp_only() {
    let clips = vec![clip("STEMS/WAV MONO/Click_mono.wav", 44100, 1)];
    let a = AudioProcessor::generate_aaf(&clips, 1111);
    let b = AudioProcessor::generate_aaf(&clips, 999999);
    assert_eq!(a.len(), b.len());
    for i in 0..a.len() {
        if i < 24 || i >= 28 {
            assert_eq!(a[i], b[i], "byte {} differs", i);
        }
    }
    assert_ne!(&a[24..28], &b[24..28]);
}

// An empty clip list still yields a well-formed container.
#[test]
fn container_empty() {
    let doc = AudioProcessor::generate_aaf(&vec![], 42);
    assert_eq!(doc.len(), 36);
    assert_eq!(be32(&doc[4..8]), 28);
    assert_eq!(be32(&doc[32..36]), 0);
}
