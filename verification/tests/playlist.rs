use hlsd::playlist::{iso8601, render_dash, render_hls, render_hls_master, ManifestParams, SegmentRef};

/// A window entry whose seconds are written as the pipeline writes them:
/// the duration as `f64` seconds, with six decimals and rounded up.
fn seg(sequence: u32, start_ts: u64, duration_ts: u64, rate: u32) -> SegmentRef {
    let secs = duration_ts as f64 / rate as f64;
    SegmentRef {
        sequence,
        filename: format!("seg-{sequence:05}.m4s"),
        start_ts,
        duration_ts,
        extinf: format!("{:.6}", secs),
        ceil_secs: secs.ceil() as u32,
    }
}

fn params<'a>() -> ManifestParams<'a> {
    ManifestParams {
        init_uri: "init.mp4",
        timescale: 44_100,
        sample_rate: 44_100,
        channels: 2,
        codec: "fLaC",
        target_duration: 1,
        bandwidth: 800_000,
        start_unix: 0,
        now_unix: 10,
    }
}

#[test]
fn iso8601_known_values() {
    assert_eq!(iso8601(0), "1970-01-01T00:00:00Z");
    assert_eq!(iso8601(1_600_000_000), "2020-09-13T12:26:40Z");
    assert_eq!(iso8601(1_753_747_200), "2025-07-29T00:00:00Z");
    assert_eq!(iso8601(1_785_283_200), "2026-07-29T00:00:00Z");
}

#[test]
fn hls_playlist_has_live_markers() {
    let segs = vec![SegmentRef {
        sequence: 4,
        filename: "seg-00004.m4s".into(),
        start_ts: 0,
        duration_ts: 44_100,
        extinf: "1.000000".into(),
        ceil_secs: 1,
    }];
    let params = params();
    let m = render_hls(&segs, &params);
    assert!(m.contains("#EXT-X-MEDIA-SEQUENCE:4"));
    assert!(m.contains("#EXT-X-MAP:URI=\"init.mp4\""));
    assert!(!m.contains("#EXT-X-ENDLIST")); // live: never ends
}

#[test]
fn iso8601_leap_day_and_time_of_day() {
    assert_eq!(iso8601(951_782_400), "2000-02-29T00:00:00Z");
    assert_eq!(iso8601(951_868_799), "2000-02-29T23:59:59Z");
    assert_eq!(iso8601(86_399), "1970-01-01T23:59:59Z");
}

#[test]
fn hls_playlist_exact_text() {
    let segs = vec![
        seg(4, 0, 44_100, 44_100),
        seg(5, 44_100, 66_150, 44_100),
    ];
    let m = render_hls(&segs, &params());
    assert_eq!(
        m,
        "#EXTM3U\n#EXT-X-VERSION:7\n#EXT-X-TARGETDURATION:2\n#EXT-X-MEDIA-SEQUENCE:4\n\
         #EXT-X-MAP:URI=\"init.mp4\"\n#EXTINF:1.000000,\nseg-00004.m4s\n#EXTINF:1.500000,\nseg-00005.m4s\n"
    );
}

#[test]
fn hls_playlist_empty_window_uses_target() {
    let mut p = params();
    p.target_duration = 4;
    let m = render_hls(&[], &p);
    assert_eq!(
        m,
        "#EXTM3U\n#EXT-X-VERSION:7\n#EXT-X-TARGETDURATION:4\n#EXT-X-MEDIA-SEQUENCE:0\n#EXT-X-MAP:URI=\"init.mp4\"\n"
    );
    p.target_duration = 0;
    assert!(render_hls(&[], &p).contains("#EXT-X-TARGETDURATION:1\n"));
}

#[test]
fn hls_extinf_rounds_to_microseconds() {
    let segs = vec![seg(1, 0, 1, 44_100)];
    let m = render_hls(&segs, &params());
    assert!(m.contains("#EXTINF:0.000023,\n"));
    assert!(m.contains("#EXT-X-TARGETDURATION:1\n"));
}

#[test]
fn hls_master_exact_text() {
    let m = render_hls_master("stream.m3u8", &params());
    assert_eq!(
        m,
        "#EXTM3U\n#EXT-X-VERSION:7\n#EXT-X-STREAM-INF:BANDWIDTH=800000,CODECS=\"fLaC\"\nstream.m3u8\n"
    );
}

#[test]
fn dash_manifest_exact_text() {
    let segs = vec![
        seg(4, 0, 44_100, 44_100),
        seg(5, 44_100, 22_050, 44_100),
    ];
    let mut p = params();
    p.target_duration = 4;
    let m = render_dash(&segs, &p, 2);
    let expected = r#"<?xml version="1.0" encoding="UTF-8"?>
<MPD xmlns="urn:mpeg:dash:schema:mpd:2011"
     profiles="urn:mpeg:dash:profile:isoff-live:2011"
     type="dynamic"
     minimumUpdatePeriod="PT4S"
     minBufferTime="PT8S"
     timeShiftBufferDepth="PT2S"
     availabilityStartTime="1970-01-01T00:00:00Z"
     publishTime="1970-01-01T00:00:10Z">
  <Period id="0" start="PT0S">
    <AdaptationSet mimeType="audio/mp4" segmentAlignment="true" startWithSAP="1">
      <Representation id="audio" codecs="fLaC" bandwidth="800000" audioSamplingRate="44100">
        <AudioChannelConfiguration schemeIdUri="urn:mpeg:dash:23003:3:audio_channel_configuration:2011" value="2"/>
        <SegmentTemplate timescale="44100" initialization="init.mp4" media="seg-$Number%05d$.m4s" startNumber="4">
          <SegmentTimeline>
          <S t="0" d="44100"/>
          <S d="22050"/>
          </SegmentTimeline>
        </SegmentTemplate>
      </Representation>
    </AdaptationSet>
  </Period>
</MPD>
"#;
    assert_eq!(m, expected);
}

#[test]
fn dash_manifest_empty_window() {
    let p = params();
    let m = render_dash(&[], &p, 0);
    assert!(m.contains("startNumber=\"1\""));
    assert!(m.contains("minimumUpdatePeriod=\"PT1S\""));
    assert!(m.contains("minBufferTime=\"PT2S\""));
    assert!(m.contains("timeShiftBufferDepth=\"PT0S\""));
    assert!(m.contains("<SegmentTimeline>\n          </SegmentTimeline>"));
}

#[test]
fn durations_are_written_as_given() {
    // At a zero sample rate the seconds are infinite, or undefined for an
    // empty segment.
    let mut p = params();
    p.sample_rate = 0;
    let segs = vec![seg(1, 0, 10, 0), seg(2, 10, 0, 0)];
    assert_eq!((segs[0].extinf.as_str(), segs[0].ceil_secs), ("inf", u32::MAX));
    assert_eq!((segs[1].extinf.as_str(), segs[1].ceil_secs), ("NaN", 0));
    let m = render_hls(&segs, &p);
    assert!(m.contains("#EXT-X-TARGETDURATION:4294967295\n"));
    assert!(m.contains("#EXTINF:inf,\nseg-00001.m4s\n#EXTINF:NaN,\nseg-00002.m4s\n"));
    assert!(render_dash(&segs, &p, u64::MAX).contains("timeShiftBufferDepth=\"PT18446744073709551615S\""));
}

#[test]
fn hls_target_is_the_longest_segment() {
    let segs = vec![seg(1, 0, 3, 2), seg(2, 3, 7, 2), seg(3, 10, 2, 2)];
    assert_eq!((segs[0].extinf.as_str(), segs[1].extinf.as_str()), ("1.500000", "3.500000"));
    let m = render_hls(&segs, &params());
    assert!(m.contains("#EXT-X-TARGETDURATION:4\n"));
    assert!(m.contains("#EXTINF:1.500000,\nseg-00001.m4s\n#EXTINF:3.500000,\nseg-00002.m4s\n#EXTINF:1.000000,\n"));
}

#[test]
fn iso8601_follows_gregorian_leap_rules() {
    // 2100 is a century not divisible by 400: no February 29.
    assert_eq!(iso8601(4_107_542_399), "2100-02-28T23:59:59Z");
    assert_eq!(iso8601(4_107_542_400), "2100-03-01T00:00:00Z");
    // 2400 is divisible by 400: a leap year.
    assert_eq!(iso8601(13_574_563_200), "2400-02-29T00:00:00Z");
    assert_eq!(iso8601(u64::MAX), "584554051223-11-09T07:00:15Z");
}
