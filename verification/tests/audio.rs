use parrot_core::audio::{decode_s16le, frame_size_for, speech_sample_range};

#[test]
fn frames_hold_the_configured_milliseconds() {
    assert_eq!(frame_size_for(16000, 20), 320);
    assert_eq!(frame_size_for(48000, 20), 960);
    assert_eq!(frame_size_for(10, 20), 1);
}

fn loud_frames(count: usize, from: usize, to: usize) -> Vec<bool> {
    (0..count).map(|i| i >= from && i <= to).collect()
}

#[test]
fn speech_range_pads_around_loud_frames() {
    let loud = loud_frames(100, 40, 49);
    assert_eq!(speech_sample_range(&loud, 32000, 320, 20, 600, 80), Some((3200, 25600)));
    let edge = loud_frames(100, 5, 95);
    assert_eq!(speech_sample_range(&edge, 32010, 320, 20, 600, 80), Some((0, 32000)));
}

#[test]
fn speech_range_drops_silence_and_short_blips() {
    assert_eq!(speech_sample_range(&vec![false; 50], 16000, 320, 20, 600, 80), None);
    let blip = loud_frames(100, 40, 41);
    assert_eq!(speech_sample_range(&blip, 32000, 320, 20, 600, 80), None);
}

#[test]
fn pcm_bytes_decode_as_signed_little_endian() {
    assert_eq!(decode_s16le(&[0x01, 0x00, 0xff, 0xff, 0x00, 0x80, 0xff, 0x7f, 0x10]), vec![1, -1, -32768, 32767]);
    assert!(decode_s16le(&[]).is_empty());
}
