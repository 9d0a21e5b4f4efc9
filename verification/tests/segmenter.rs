use hlsd::codec::{Packet, SampleEntry};
use hlsd::mux::Mp4Muxer;
use hlsd::config::{CodecKind, Config};
use hlsd::segmenter::{
    batch_step, estimate_bandwidth, packets_duration, render_manifests, samples_per_segment,
    segment_filename, BatchStep, LiveStream, PcmReader, Segmenter, DASH_NAME, HLS_MASTER, HLS_MEDIA,
    INIT_NAME,
};

/// Accounts for a segment of `n` samples at 100 samples per second.
fn next(s: &mut Segmenter, n: u64) -> hlsd::segmenter::SegmentPlan {
    let secs = n as f64 / 100.0;
    s.next_segment(n, format!("{:.6}", secs), secs.ceil() as u32)
}

#[test]
fn file_names() {
    assert_eq!(INIT_NAME, "init.mp4");
    assert_eq!(HLS_MEDIA, "stream.m3u8");
    assert_eq!(HLS_MASTER, "master.m3u8");
    assert_eq!(DASH_NAME, "stream.mpd");
    assert_eq!(segment_filename(1), "seg-00001.m4s");
    assert_eq!(segment_filename(12_345), "seg-12345.m4s");
    assert_eq!(segment_filename(123_456), "seg-123456.m4s");
}

fn drain(r: &mut PcmReader) -> Vec<i16> {
    let n = r.buffered_len();
    r.next_batch(n, false).unwrap().0
}

#[test]
fn pcm_reader_carries_odd_byte() {
    let mut r = PcmReader::new(2);
    r.push_bytes(&[0x01, 0x00, 0x02]);
    assert_eq!(r.buffered_len(), 1);
    r.push_bytes(&[0x00, 0x03, 0x00, 0xff]);
    r.push_bytes(&[0xff]);
    r.push_bytes(&[]);
    assert_eq!(drain(&mut r), vec![1, 2, 3, -1]);
}

#[test]
fn pcm_reader_chunking_does_not_matter() {
    let bytes: Vec<u8> = (0u8..=40).collect();
    let mut one = PcmReader::new(1);
    one.push_bytes(&bytes);
    let whole = drain(&mut one);
    let mut r = PcmReader::new(1);
    for chunk in bytes.chunks(3) {
        r.push_bytes(chunk);
    }
    let pieces = drain(&mut r);
    assert_eq!(whole, pieces);
    assert_eq!(whole.len(), 20);
    assert_eq!(whole[0], i16::from_le_bytes([0, 1]));
}

#[test]
fn pcm_reader_batches_hold_at_most_the_target() {
    let mut r = PcmReader::new(2);
    assert_eq!(r.target(2), 4);
    r.push_bytes(&[1, 0, 2, 0, 3]);
    assert!(r.next_batch(4, false).is_none());
    r.push_bytes(&[0, 4, 0, 5, 0, 6, 0, 7, 0]);
    // Seven samples buffered: a full batch of four, the rest stays.
    assert_eq!(r.next_batch(4, false), Some((vec![1, 2, 3, 4], false)));
    assert!(r.next_batch(4, false).is_none());
    // At the end, the rest cut to whole frames is the last, short batch.
    assert_eq!(r.next_batch(4, true), Some((vec![5, 6], true)));
    assert_eq!(r.next_batch(4, true), Some((vec![], true)));
}

#[test]
fn segmenter_numbers_times_and_evicts() {
    let mut s = Segmenter::new(2);
    let p1 = next(&mut s, 100);
    assert_eq!((p1.sequence, p1.base_ts, p1.filename.as_str()), (1, 0, "seg-00001.m4s"));
    assert!(p1.evicted.is_empty());
    let p2 = next(&mut s, 50);
    assert_eq!((p2.sequence, p2.base_ts), (2, 100));
    assert!(p2.evicted.is_empty());
    let p3 = next(&mut s, 70);
    assert_eq!((p3.sequence, p3.base_ts), (3, 150));
    assert_eq!(p3.evicted, vec!["seg-00001.m4s".to_string()]);
    let w = s.window();
    assert_eq!(w.len(), 2);
    assert_eq!((w[0].sequence, w[0].start_ts, w[0].duration_ts), (2, 100, 50));
    assert_eq!((w[1].sequence, w[1].start_ts, w[1].duration_ts), (3, 150, 70));
    assert_eq!(w[1].filename, "seg-00003.m4s");
    assert_eq!((w[0].extinf.as_str(), w[0].ceil_secs), ("0.500000", 1));
    assert_eq!((w[1].extinf.as_str(), w[1].ceil_secs), ("0.700000", 1));
    assert!(w.iter().all(|s| !p3.evicted.contains(&s.filename)));
}

#[test]
fn window_numbers_and_times_are_consecutive() {
    let mut s = Segmenter::new(3);
    for n in [10u64, 20, 30, 40, 50] {
        next(&mut s, n);
    }
    let w = s.window();
    assert_eq!(w.len(), 3);
    for (i, seg) in w.iter().enumerate() {
        assert_eq!(seg.sequence, w[0].sequence + i as u32);
        assert_eq!(seg.filename, segment_filename(w[0].sequence + i as u32));
        let before: u64 = w[..i].iter().map(|x| x.duration_ts).sum();
        assert_eq!(seg.start_ts, w[0].start_ts + before);
    }
    assert_eq!((w[0].sequence, w[0].start_ts), (3, 30));
    assert_eq!((s.sequence(), s.base_ts()), (6, 150));
}

#[test]
fn segmenter_with_empty_window_evicts_everything() {
    let mut s = Segmenter::new(0);
    let p = next(&mut s, 10);
    assert_eq!(p.evicted, vec!["seg-00001.m4s".to_string()]);
    assert!(s.window().is_empty());
    assert_eq!(next(&mut s, 10).base_ts, 10);
}

#[test]
fn durations_and_segment_sizes() {
    let ps = vec![
        Packet { data: vec![1], sample_count: 4096 },
        Packet { data: vec![], sample_count: 904 },
    ];
    assert_eq!(packets_duration(&ps), Some(5000));
    assert_eq!(packets_duration(&[]), Some(0));
    assert_eq!(samples_per_segment(44_100, 4), 176_400);
}

#[test]
fn bandwidth_estimates() {
    let mut c = Config::default();
    assert_eq!(estimate_bandwidth(&c, 44_100, 2, None), 846_720);
    assert_eq!(estimate_bandwidth(&c, 0, 2, None), 1);
    c.encoder.codec = CodecKind::Aac;
    assert_eq!(estimate_bandwidth(&c, 44_100, 2, Some(96_000)), 96_000);
    assert_eq!(estimate_bandwidth(&c, 44_100, 2, None), 128_000);
}

#[test]
fn manifests_follow_enabled_formats() {
    let mut c = Config::default();
    let m = render_manifests(&c, &[], 44_100, 44_100, 2, "fLaC", 800_000, 0, 10, 0);
    assert!(m.hls_media.unwrap().starts_with("#EXTM3U\n"));
    assert!(m.hls_master.unwrap().ends_with("stream.m3u8\n"));
    assert!(m.dash.is_none());
    c.hls.enabled = false;
    c.dash.enabled = true;
    let m = render_manifests(&c, &[], 44_100, 44_100, 2, "fLaC", 800_000, 0, 10, 0);
    assert!(m.hls_media.is_none());
    assert!(m.hls_master.is_none());
    let mpd = m.dash.unwrap();
    assert!(mpd.contains("initialization=\"init.mp4\""));
    assert!(mpd.contains("minimumUpdatePeriod=\"PT4S\""));
}

fn entry() -> SampleEntry {
    SampleEntry { fourcc: *b"fLaC", config_boxes: vec![], channels: 2, sample_rate: 44_100, sample_size: 16 }
}

#[test]
fn live_stream_writes_numbered_segments_and_manifests() {
    let mut c = Config::default();
    c.dash.enabled = true;
    c.output.playlist_size = 2;
    let mut live = LiveStream::new(entry(), 2);
    assert_eq!(live.init_segment(), Mp4Muxer::new(entry()).init_segment());
    assert_eq!(live.timescale(), 44_100);
    assert!(live.on_packets(&[], "0.000000".into(), 0).is_none());
    assert_eq!(live.sequence(), 1);

    let batch = vec![Packet { data: vec![1, 2, 3], sample_count: 44_100 }];
    let first = live.on_packets(&batch, "1.000000".into(), 1).unwrap();
    assert_eq!(first.filename, "seg-00001.m4s");
    assert_eq!(first.bytes, Mp4Muxer::new(entry()).media_segment(1, 0, &batch));
    assert!(first.evicted.is_empty());
    let m = live.manifests(&c, "fLaC", 1000, 0, 5, 1);
    let media = m.hls_media.unwrap();
    assert!(media.contains("#EXT-X-MEDIA-SEQUENCE:1\n"));
    assert!(media.ends_with("#EXTINF:1.000000,\nseg-00001.m4s\n"));
    assert!(m.hls_master.unwrap().contains("CODECS=\"fLaC\""));
    let mpd = m.dash.unwrap();
    assert!(mpd.contains("<S t=\"0\" d=\"44100\"/>"));
    assert!(mpd.contains("timeShiftBufferDepth=\"PT1S\""));

    live.on_packets(&batch, "1.000000".into(), 1).unwrap();
    let third = live.on_packets(&batch, "1.000000".into(), 1).unwrap();
    assert_eq!(third.filename, "seg-00003.m4s");
    assert_eq!(third.bytes, Mp4Muxer::new(entry()).media_segment(3, 88_200, &batch));
    assert_eq!(third.evicted, vec!["seg-00001.m4s".to_string()]);
    assert_eq!(live.window().len(), 2);
    let m = live.manifests(&c, "fLaC", 1000, 0, 7, 2);
    let media = m.hls_media.unwrap();
    assert!(media.contains("#EXT-X-MEDIA-SEQUENCE:2\n"));
    assert!(!media.contains("seg-00001.m4s"));
    let mpd = m.dash.unwrap();
    assert!(mpd.contains("startNumber=\"2\""));
    assert!(mpd.contains("<S t=\"44100\" d=\"44100\"/>"));
    assert!(mpd.contains("publishTime=\"1970-01-01T00:00:07Z\""));
    assert_eq!((live.sequence(), live.base_ts()), (4, 132_300));
}

#[test]
fn last_batch_flushes_and_stops() {
    assert_eq!(batch_step(false), BatchStep::Encode);
    assert_eq!(batch_step(true), BatchStep::EncodeFlushStop);
}

#[test]
fn pcm_reader_hands_out_the_whole_stream_however_reads_split() {
    // 11 bytes: 5 samples and an odd trailing byte; 2 channels.
    let bytes: Vec<u8> = vec![1, 0, 2, 0, 3, 0, 4, 0, 5, 0, 9];
    for split in [1usize, 2, 3, 5] {
        let mut r = PcmReader::new(2);
        let mut got: Vec<i16> = Vec::new();
        for chunk in bytes.chunks(split) {
            r.push_bytes(chunk);
            while let Some((b, _)) = r.next_batch(2, false) {
                got.extend(b);
            }
        }
        let (last, is_last) = r.next_batch(2, true).unwrap();
        assert!(is_last);
        got.extend(last);
        assert_eq!(got, vec![1, 2, 3, 4]);
    }
}

#[test]
fn window_is_the_newest_segments() {
    let mut s = Segmenter::new(3);
    for n in 1..=7u64 {
        next(&mut s, n * 10);
    }
    let w = s.window();
    let seqs: Vec<u32> = w.iter().map(|x| x.sequence).collect();
    assert_eq!(seqs, vec![5, 6, 7]);
    // Segment k starts after 10 + 20 + ... + 10 (k - 1).
    assert_eq!(w[0].start_ts, (1..5u64).map(|k| k * 10).sum::<u64>());
    assert_eq!((s.sequence(), s.base_ts()), (8, (1..=7u64).map(|k| k * 10).sum::<u64>()));
}
