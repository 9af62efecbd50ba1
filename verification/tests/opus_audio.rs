use std::time::Duration;
use xiaozhi_server::audio::opus_decode::{decoded_samples, pcm_i16_to_le_bytes, scratch_len};
use xiaozhi_server::audio::opus_duration::packet_duration;
use xiaozhi_server::audio::opus_silence;

#[test]
fn parses_single_20ms_celt_frame() {
    // config=31, code=0 => one 20ms CELT-only frame.
    assert_eq!(
        packet_duration(&[0b1111_1000]).unwrap(),
        Duration::from_millis(20)
    );
}

#[test]
fn parses_two_20ms_celt_frames() {
    // config=31, code=1 => two 20ms CELT-only frames.
    assert_eq!(
        packet_duration(&[0b1111_1001]).unwrap(),
        Duration::from_millis(40)
    );
}

#[test]
fn parses_code3_frame_count() {
    // config=31, code=3, count=3 => three 20ms CELT-only frames.
    assert_eq!(
        packet_duration(&[0b1111_1011, 3]).unwrap(),
        Duration::from_millis(60)
    );
}

#[test]
fn durations_of_every_configuration() {
    let expected: Vec<u64> = vec![
        10_000, 20_000, 40_000, 60_000, 10_000, 20_000, 40_000, 60_000, 10_000, 20_000, 40_000,
        60_000, 10_000, 20_000, 10_000, 20_000, 2_500, 5_000, 10_000, 20_000, 2_500, 5_000, 10_000,
        20_000, 2_500, 5_000, 10_000, 20_000, 2_500, 5_000, 10_000, 20_000,
    ];
    for (config, micros) in expected.iter().enumerate() {
        let toc = (config as u8) << 3;
        assert_eq!(
            packet_duration(&[toc]),
            Some(Duration::from_micros(*micros))
        );
        assert_eq!(
            packet_duration(&[toc | 2]),
            Some(Duration::from_micros(2 * *micros))
        );
        assert_eq!(
            packet_duration(&[toc | 3, 63]),
            Some(Duration::from_micros(63 * *micros))
        );
    }
}

#[test]
fn packets_without_frames_have_no_duration() {
    assert_eq!(packet_duration(&[]), None);
    assert_eq!(packet_duration(&[0b1111_1011]), None);
    assert_eq!(packet_duration(&[0b1111_1011, 0b1100_0000]), None);
}

#[test]
fn silence_is_twenty_milliseconds() {
    let packet = opus_silence::packet();
    assert_eq!(&packet[..], &[0xF8, 0xFF, 0xFE]);
    assert_eq!(packet_duration(&packet), Some(Duration::from_millis(20)));
}

#[test]
fn samples_become_little_endian_bytes() {
    assert_eq!(
        pcm_i16_to_le_bytes(&[0, 1, -1, 256, i16::MAX, i16::MIN]),
        vec![0, 0, 1, 0, 0xff, 0xff, 0, 1, 0xff, 0x7f, 0, 0x80]
    );
    for sample in i16::MIN..=i16::MAX {
        let bytes = pcm_i16_to_le_bytes(&[sample]);
        assert_eq!(bytes, sample.to_le_bytes().to_vec());
    }
}

#[test]
fn decoder_buffers_hold_the_longest_packet() {
    assert_eq!(scratch_len(16_000), 1920);
    assert_eq!(scratch_len(8_000), 1920);
    assert_eq!(scratch_len(48_000), 5760);
    assert_eq!(decoded_samples(&vec![1, 2, 3, 4], 2), vec![1, 2]);
}
