use hlsd::codec::aac::AacEncoder;
use hlsd::codec::flac::FlacEncoder;
use hlsd::codec::mp3::{frame_info, nearest_bitrate, split_mp3_frames, LameBitrate, Mp3Encoder};
use hlsd::codec::opus::OpusFramer;
use hlsd::codec::{
    aac_lc_asc, build, descriptor, esds_box, sampling_frequency_index, AudioEncoder, BuiltEncoder,
    CodecError,
};
use hlsd::config::{CodecKind, Config};

fn tone(frames: usize, channels: usize) -> Vec<i16> {
    (0..frames * channels).map(|i| ((i * 37) % 2000) as i16 - 1000).collect()
}

#[test]
fn sampling_frequency_indices() {
    assert_eq!(sampling_frequency_index(96_000), Some(0));
    assert_eq!(sampling_frequency_index(44_100), Some(4));
    assert_eq!(sampling_frequency_index(48_000), Some(3));
    assert_eq!(sampling_frequency_index(7_350), Some(12));
    assert_eq!(sampling_frequency_index(44_101), None);
}

#[test]
fn descriptors_and_audio_specific_config() {
    assert_eq!(descriptor(3, &[1, 2]), vec![3, 2, 1, 2]);
    assert_eq!(aac_lc_asc(44_100, 2), vec![0x12, 0x10]);
    assert_eq!(aac_lc_asc(48_000, 1), vec![0x11, 0x88]);
    // Explicit-rate escape index 15.
    assert_eq!(aac_lc_asc(50_000, 2), vec![0x17, 0x90]);
}

#[test]
fn esds_layout() {
    let e = esds_box(0x40, 128_000, Some(&[0x12, 0x10]));
    let mut expected = vec![0, 0, 0, 39, b'e', b's', b'd', b's', 0, 0, 0, 0];
    expected.extend_from_slice(&[0x03, 25, 0, 0, 0]);
    expected.extend_from_slice(&[0x04, 17, 0x40, 0x15, 0, 0, 0]);
    expected.extend_from_slice(&[0x00, 0x01, 0xf4, 0x00, 0x00, 0x01, 0xf4, 0x00]);
    expected.extend_from_slice(&[0x05, 2, 0x12, 0x10]);
    expected.extend_from_slice(&[0x06, 1, 0x02]);
    assert_eq!(e, expected);
    let no_dsi = esds_box(0x6b, 0, None);
    assert_eq!(no_dsi.len(), 12 + 2 + 3 + 15 + 3);
}

#[test]
fn mp3_frame_header_lengths() {
    // MPEG-1 Layer III, 128 kb/s, 44.1 kHz, no padding.
    assert_eq!(frame_info(&[0xff, 0xfb, 0x90, 0x00]), Some((417, 1152)));
    // Same with padding.
    assert_eq!(frame_info(&[0xff, 0xfb, 0x92, 0x00]), Some((418, 1152)));
    // MPEG-2 Layer III, 64 kb/s, 22.05 kHz.
    assert_eq!(frame_info(&[0xff, 0xf3, 0x80, 0x00]), Some((208, 576)));
    // Not layer III, bad bitrate index, bad rate index, no sync, too short.
    assert_eq!(frame_info(&[0xff, 0xfd, 0x90, 0x00]), None);
    assert_eq!(frame_info(&[0xff, 0xfb, 0xf0, 0x00]), None);
    assert_eq!(frame_info(&[0xff, 0xfb, 0x0c, 0x00]), None);
    assert_eq!(frame_info(&[0xfe, 0xfb, 0x90, 0x00]), None);
    assert_eq!(frame_info(&[0xff, 0xfb, 0x90]), None);
}

#[test]
fn mp3_frames_are_split_with_resync() {
    let mut bytes = vec![0x00, 0x11];
    let mut frame = vec![0xff, 0xfb, 0x90, 0x00];
    frame.resize(417, 0x55);
    bytes.extend_from_slice(&frame);
    bytes.extend_from_slice(&frame[..100]);
    let (packets, rest) = split_mp3_frames(&bytes);
    assert_eq!(packets.len(), 1);
    assert_eq!(packets[0].data, frame);
    assert_eq!(packets[0].sample_count, 1152);
    assert_eq!(rest, frame[..100].to_vec());
}

#[test]
fn lame_bitrate_is_nearest_lower_on_tie() {
    assert_eq!(nearest_bitrate(128_000), LameBitrate::Kbps128);
    assert_eq!(nearest_bitrate(100_000), LameBitrate::Kbps96);
    assert_eq!(nearest_bitrate(56_000), LameBitrate::Kbps48);
    assert_eq!(nearest_bitrate(1_000_000), LameBitrate::Kbps320);
    assert_eq!(nearest_bitrate(0), LameBitrate::Kbps8);
}

#[test]
fn opus_framer_cuts_whole_frames() {
    assert_eq!(OpusFramer::new(44_100, 2).err(), Some(CodecError::OpusSampleRate(44_100)));
    assert_eq!(
        OpusFramer::new(48_000, 3).err(),
        Some(CodecError::UnsupportedChannels(CodecKind::Opus, 3))
    );
    let mut f = OpusFramer::new(48_000, 2).unwrap();
    let input = tone(1000, 2);
    let frames = f.push(&input);
    assert_eq!(frames.len(), 1);
    assert_eq!(frames[0], input[..1920].to_vec());
    let more = f.push(&input[..100]);
    assert!(more.is_empty());
    let last = f.take_padded().unwrap();
    assert_eq!(last.len(), 1920);
    assert_eq!(&last[..80], &input[1920..]);
    assert_eq!(&last[80..180], &input[..100]);
    assert!(last[180..].iter().all(|&s| s == 0));
    assert!(f.take_padded().is_none());
    let entry = f.sample_entry();
    assert_eq!(&entry.fourcc, b"Opus");
    assert_eq!(entry.sample_rate, 48_000);
    assert_eq!(
        entry.config_boxes,
        vec![0, 0, 0, 19, b'd', b'O', b'p', b's', 0, 2, 0, 0, 0, 0, 0xbb, 0x80, 0, 0, 0]
    );
}

#[test]
fn flac_frames_cover_the_input() {
    let mut enc = FlacEncoder::new(44_100, 2, 5).unwrap();
    let input = tone(10_000, 2);
    let packets = enc.encode(&input).unwrap();
    assert_eq!(packets.len(), 3);
    let total: u32 = packets.iter().map(|p| p.sample_count).sum();
    assert_eq!(total, 10_000);
    assert_eq!(packets[0].sample_count, 4096);
    assert_eq!(packets[2].sample_count, 10_000 - 2 * 4096);
    for p in &packets {
        // FLAC frame sync code, fixed block size.
        assert_eq!(&p.data[..2], &[0xff, 0xf8]);
        assert!(p.data.len() > 4);
    }
    assert!(enc.encode(&[]).unwrap().is_empty());
    assert!(enc.flush().unwrap().is_empty());
    assert_eq!(enc.rfc6381_codec(), "fLaC");
    assert_eq!(enc.name(), "FLAC");
    let entry = enc.sample_entry();
    assert_eq!(&entry.fourcc, b"fLaC");
    assert_eq!(&entry.config_boxes[4..8], b"dfLa");
    assert_eq!((entry.channels, entry.sample_rate, entry.sample_size), (2, 44_100, 16));
}

#[test]
fn flac_accepts_every_documented_level() {
    assert!(FlacEncoder::new(44_100, 2, 6).is_ok());
    assert!(FlacEncoder::new(44_100, 2, 7).is_ok());
    assert!(FlacEncoder::new(44_100, 2, 8).is_ok());
    assert!(FlacEncoder::new(44_100, 1, 0).is_ok());
}

#[test]
fn aac_produces_1024_sample_units() {
    assert_eq!(
        AacEncoder::new(44_100, 3, 128_000).err(),
        Some(CodecError::UnsupportedChannels(CodecKind::Aac, 3))
    );
    let mut enc = AacEncoder::new(44_100, 2, 128_000).unwrap();
    let mut packets = enc.encode(&tone(4096, 2)).unwrap();
    packets.extend(enc.flush().unwrap());
    assert!(!packets.is_empty());
    assert!(packets.iter().all(|p| p.sample_count == 1024 && !p.data.is_empty()));
    assert_eq!(enc.rfc6381_codec(), "mp4a.40.2");
    let entry = enc.sample_entry();
    assert_eq!(&entry.fourcc, b"mp4a");
    assert_eq!(entry.config_boxes, esds_box(0x40, 128_000, Some(&[0x12, 0x10])));
}

#[test]
fn mp3_produces_whole_frames() {
    let mut enc = Mp3Encoder::new(44_100, 2, 128_000).unwrap();
    let mut packets = enc.encode(&tone(44_100, 2)).unwrap();
    packets.extend(enc.flush().unwrap());
    assert!(!packets.is_empty());
    for p in &packets {
        assert_eq!(p.sample_count, 1152);
        assert_eq!(p.data[0], 0xff);
        assert_eq!(frame_info(&p.data[..4]).map(|(len, _)| len), Some(p.data.len()));
    }
    assert_eq!(enc.rfc6381_codec(), "mp4a.6B");
    assert_eq!(enc.sample_entry().config_boxes, esds_box(0x6b, 128_000, None));
}

#[test]
fn build_follows_the_configured_codec() {
    let mut c = Config::default();
    assert!(matches!(build(&c, None), Ok(BuiltEncoder::Flac(_))));
    c.encoder.flac_compression = 8;
    assert!(matches!(build(&c, None), Ok(BuiltEncoder::Flac(_))));
    c.encoder.codec = CodecKind::Aac;
    assert_eq!(build(&c, None).err(), Some(CodecError::InvalidBitrate));
    assert!(matches!(build(&c, Some(128_000)), Ok(BuiltEncoder::Aac(_))));
    c.encoder.codec = CodecKind::Mp3;
    assert!(matches!(build(&c, Some(128_000)), Ok(BuiltEncoder::Mp3(_))));
    c.encoder.codec = CodecKind::Opus;
    assert_eq!(build(&c, Some(64_000)).err(), Some(CodecError::Unavailable(CodecKind::Opus)));
}

#[test]
fn aac_encoder_output_is_taken_from_its_buffer() {
    let mut enc = AacEncoder::new(48_000, 1, 64_000).unwrap();
    assert!(matches!(enc.take_output(0, 0), Ok(None)));
    let p = enc.take_output(5, 10).unwrap().unwrap();
    assert_eq!(p.data, vec![0u8; 10]);
    assert_eq!(p.sample_count, 1024);
    assert_eq!(enc.take_output(0, 1 << 20).err(), Some(CodecError::AacOutputSize));
}

#[test]
fn mp3_refuses_bad_channel_counts_and_rates() {
    assert_eq!(Mp3Encoder::new(44_100, 3, 128_000).err(), Some(CodecError::Mp3Config));
    assert_eq!(Mp3Encoder::new(44_100, 0, 128_000).err(), Some(CodecError::Mp3Config));
    assert_eq!(Mp3Encoder::new(0, 2, 128_000).err(), Some(CodecError::Mp3Config));
    assert!(Mp3Encoder::new(22_050, 1, 64_000).is_ok());
}

#[test]
fn flac_without_channels_cannot_encode() {
    let mut enc = FlacEncoder::new(44_100, 0, 5).unwrap();
    assert!(enc.encode(&[]).unwrap().is_empty());
    assert_eq!(
        enc.encode(&[1, 2]).err(),
        Some(CodecError::UnsupportedChannels(CodecKind::Flac, 0))
    );
}

#[test]
fn opus_framing_over_a_run_of_pushes() {
    // 3 pushes of 700 stereo samples each: 2100 samples = one 1920-sample
    // frame and 180 left over, which the flush pads to one more frame.
    let mut f = OpusFramer::new(48_000, 2).unwrap();
    let input = tone(1050, 2);
    let mut frames = Vec::new();
    for chunk in input.chunks(700) {
        frames.extend(f.push(chunk));
    }
    assert_eq!(frames.len(), 2100 / 1920);
    let last = f.take_padded().unwrap();
    let mut all: Vec<i16> = frames.concat();
    all.extend_from_slice(&last);
    assert_eq!(&all[..2100], &input[..]);
    assert!(all[2100..].iter().all(|&s| s == 0));
    assert_eq!(all.len(), 2 * 1920);
    assert!(f.take_padded().is_none());
}
