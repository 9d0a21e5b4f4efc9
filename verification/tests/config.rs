use hlsd::cli::Cli;
use hlsd::config::{CodecKind, Config, ConfigError, EncoderConfig, InputKind};

fn no_flags() -> Cli {
    Cli {
        config: None,
        input: None,
        input_path: None,
        sample_rate: None,
        channels: None,
        codec: None,
        bitrate: None,
        out_dir: None,
        segment_duration: None,
        playlist_size: None,
        dash: false,
        no_dash: false,
        no_hls: false,
        host: None,
        port: None,
    }
}

#[test]
fn defaults_match_documented_values() {
    let c = Config::default();
    assert_eq!(c.input.source, InputKind::Stdin);
    assert!(c.input.path.is_none());
    assert_eq!(c.input.sample_rate, 44_100);
    assert_eq!(c.input.channels, 2);
    assert_eq!(c.output.dir, "./stream");
    assert_eq!(c.output.segment_duration, 4);
    assert_eq!(c.output.playlist_size, 6);
    assert_eq!(c.encoder.codec, CodecKind::Flac);
    assert_eq!(c.encoder.bitrate, "128k");
    assert_eq!(c.encoder.flac_compression, 5);
    assert!(c.hls.enabled);
    assert!(!c.dash.enabled);
    assert_eq!(c.server.host, "127.0.0.1");
    assert_eq!(c.server.port, 8080);
    assert_eq!(c.validate(), Ok(()));
}

#[test]
fn kind_names() {
    assert_eq!(CodecKind::Flac.as_str(), "flac");
    assert_eq!(CodecKind::Aac.as_str(), "aac");
    assert_eq!(CodecKind::Mp3.as_str(), "mp3");
    assert_eq!(CodecKind::Opus.as_str(), "opus");
    assert_eq!(InputKind::Stdin.as_str(), "stdin");
    assert_eq!(InputKind::Fifo.as_str(), "fifo");
    assert_eq!(InputKind::Unix.as_str(), "unix");
}

#[test]
fn cli_overrides_config() {
    let mut c = Config::default();
    let mut cli = no_flags();
    cli.input = Some(InputKind::Unix);
    cli.input_path = Some("/tmp/pcm.sock".to_string());
    cli.sample_rate = Some(48_000);
    cli.channels = Some(1);
    cli.codec = Some(CodecKind::Opus);
    cli.bitrate = Some("96k".to_string());
    cli.out_dir = Some("/srv/out".to_string());
    cli.segment_duration = Some(2);
    cli.playlist_size = Some(10);
    cli.dash = true;
    cli.host = Some("0.0.0.0".to_string());
    cli.port = Some(9000);
    c.apply_cli(&cli);
    assert_eq!(c.input.source, InputKind::Unix);
    assert_eq!(c.input.path.as_deref(), Some("/tmp/pcm.sock"));
    assert_eq!(c.input.sample_rate, 48_000);
    assert_eq!(c.input.channels, 1);
    assert_eq!(c.encoder.codec, CodecKind::Opus);
    assert_eq!(c.encoder.bitrate, "96k");
    assert_eq!(c.output.dir, "/srv/out");
    assert_eq!(c.output.segment_duration, 2);
    assert_eq!(c.output.playlist_size, 10);
    assert!(c.dash.enabled);
    assert!(c.hls.enabled);
    assert_eq!(c.server.host, "0.0.0.0");
    assert_eq!(c.server.port, 9000);
}

#[test]
fn cli_without_flags_keeps_config() {
    let mut c = Config::default();
    c.dash.enabled = true;
    c.encoder.flac_compression = 3;
    c.apply_cli(&no_flags());
    assert!(c.dash.enabled);
    assert!(c.hls.enabled);
    assert_eq!(c.encoder.flac_compression, 3);
    assert_eq!(c.output.dir, "./stream");
    assert_eq!(c.server.port, 8080);
}

#[test]
fn no_dash_wins_over_dash() {
    let mut c = Config::default();
    let mut cli = no_flags();
    cli.dash = true;
    cli.no_dash = true;
    cli.no_hls = true;
    c.apply_cli(&cli);
    assert!(!c.dash.enabled);
    assert!(!c.hls.enabled);
    assert_eq!(c.validate(), Err(ConfigError::NothingToServe));
}

#[test]
fn validate_reports_each_problem() {
    let mut c = Config::default();
    c.input.source = InputKind::Fifo;
    assert_eq!(c.validate(), Err(ConfigError::MissingInputPath(InputKind::Fifo)));
    c.input.path = Some("/tmp/f".to_string());
    assert_eq!(c.validate(), Ok(()));

    let mut c = Config::default();
    c.input.channels = 0;
    assert_eq!(c.validate(), Err(ConfigError::NoChannels));

    let mut c = Config::default();
    c.input.sample_rate = 0;
    assert_eq!(c.validate(), Err(ConfigError::ZeroSampleRate));

    let mut c = Config::default();
    c.output.segment_duration = 0;
    assert_eq!(c.validate(), Err(ConfigError::ZeroSegmentDuration));

    let mut c = Config::default();
    c.encoder.flac_compression = 9;
    assert_eq!(c.validate(), Err(ConfigError::FlacCompressionOutOfRange));
    c.encoder.flac_compression = 8;
    assert_eq!(c.validate(), Ok(()));
}

#[test]
fn validate_reports_the_first_problem() {
    let mut c = Config::default();
    c.hls.enabled = false;
    c.input.channels = 0;
    c.input.sample_rate = 0;
    assert_eq!(c.validate(), Err(ConfigError::NothingToServe));
    c.dash.enabled = true;
    assert_eq!(c.validate(), Err(ConfigError::NoChannels));
}

fn parts(text: &str) -> (String, u32) {
    let e = EncoderConfig { codec: CodecKind::Aac, bitrate: text.to_string(), flac_compression: 5 };
    e.bitrate_parts()
}

#[test]
fn bitrate_suffixes() {
    assert_eq!(parts("128k"), ("128".to_string(), 1000));
    assert_eq!(parts("96000"), ("96000".to_string(), 1));
    assert_eq!(parts("1M"), ("1".to_string(), 1_000_000));
    assert_eq!(parts(" 1.5m \n"), ("1.5".to_string(), 1_000_000));
    assert_eq!(parts("128 K"), ("128".to_string(), 1000));
    assert_eq!(parts("64\u{212a}"), ("64".to_string(), 1000));
    assert_eq!(parts(""), ("".to_string(), 1));
    assert_eq!(parts("k"), ("".to_string(), 1000));
    assert_eq!(parts("fast"), ("fast".to_string(), 1));
}
