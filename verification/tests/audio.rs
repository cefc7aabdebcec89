use waveshare_watch::audio::{load_audio_clip_i2s, load_loud_alert_i2s, sine_q15, AUDIO_DMA_BUFFER_BYTES};

fn frame_bytes(s: i16) -> [u8; 4] {
    let b = s.to_le_bytes();
    [b[0], b[1], b[0], b[1]]
}

#[test]
fn sine_interpolates_table() {
    assert_eq!(sine_q15(0), 0);
    assert_eq!(sine_q15(1 << 30), 32767);
    assert_eq!(sine_q15(0x8000 << 11), 3196);
    assert_eq!(sine_q15(0x4400_0000), 32452);
    assert_eq!(sine_q15(0xF800_0000 | (0x8000 << 11)), -3197);
}

#[test]
fn clip_frames_are_amplified_and_stereo() {
    let mut buf = [0xAAu8; AUDIO_DMA_BUFFER_BYTES];
    load_audio_clip_i2s(&[1, -1, 200], &mut buf);
    assert_eq!(&buf[0..4], &frame_bytes(256));
    assert_eq!(&buf[4..8], &frame_bytes(-256));
    assert_eq!(&buf[8..12], &frame_bytes(i16::MAX));
    assert!(buf[12..].iter().all(|&b| b == 0xAA));
}

#[test]
fn clip_longer_than_buffer_is_cut() {
    let samples = vec![-300i16; 1200];
    let mut buf = [0u8; AUDIO_DMA_BUFFER_BYTES];
    load_audio_clip_i2s(&samples, &mut buf);
    assert_eq!(&buf[3996..4000], &frame_bytes(i16::MIN));
    assert_eq!(&buf[0..4], &frame_bytes(i16::MIN));
}

#[test]
fn loud_alert_chirp_then_silence() {
    let mut buf = vec![0x55u8; 16002];
    load_loud_alert_i2s(16000, &mut buf);
    let expected_start: [i16; 12] = [0, 153, 321, 42, -584, -836, -169, 960, 1371, 376, -1283, -1930];
    for (f, s) in expected_start.iter().enumerate() {
        assert_eq!(&buf[4 * f..4 * f + 4], &frame_bytes(*s));
    }
    assert_eq!(&buf[4000..4004], &frame_bytes(-28057));
    let tail: [i16; 7] = [-288, 330, 326, -30, -118, 0, 0];
    for (i, s) in tail.iter().enumerate() {
        let f = 2555 + i;
        assert_eq!(&buf[4 * f..4 * f + 4], &frame_bytes(*s));
    }
    assert!(buf[4 * 2560..16000].iter().all(|&b| b == 0));
    assert_eq!(&buf[16000..], &[0x55, 0x55]);
}
