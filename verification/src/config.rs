//! Configuration model and CLI-override merging.
//!
//! Paths are held as strings; reading the TOML file is the caller's business.

use vstd::prelude::*;

use crate::cli::Cli;
use crate::text::{chars_string, str_chars};

verus! {

/// Where the raw PCM audio is read from.
#[derive(Debug, Clone, Copy, PartialEq, Eq, Structural)]
pub enum InputKind {
    /// Read PCM from standard input.
    Stdin,
    /// Read PCM from a named pipe (FIFO) at `input.path`.
    Fifo,
    /// Read PCM from a Unix domain socket at `input.path` (hlsd binds & accepts).
    Unix,
}

impl Default for InputKind {
    fn default() -> (res: Self)
        ensures
            res == InputKind::Stdin,
    {
        InputKind::Stdin
    }
}

impl InputKind {
    /// The lowercase name used in configuration files and on the command line.
    pub fn as_str(&self) -> (res: &'static str)
        ensures
            res@ == input_kind_name(*self),
    {
        match self {
            InputKind::Stdin => "stdin",
            InputKind::Fifo => "fifo",
            InputKind::Unix => "unix",
        }
    }
}

pub open spec fn input_kind_name(k: InputKind) -> Seq<char> {
    match k {
        InputKind::Stdin => "stdin"@,
        InputKind::Fifo => "fifo"@,
        InputKind::Unix => "unix"@,
    }
}

/// Audio codec used to encode the segments.
#[derive(Debug, Clone, Copy, PartialEq, Eq, Structural)]
pub enum CodecKind {
    /// FLAC — lossless, always available.
    Flac,
    /// AAC-LC.
    Aac,
    /// MP3.
    Mp3,
    /// Opus (48 kHz input only).
    Opus,
}

impl Default for CodecKind {
    fn default() -> (res: Self)
        ensures
            res == CodecKind::Flac,
    {
        CodecKind::Flac
    }
}

pub open spec fn codec_kind_name(k: CodecKind) -> Seq<char> {
    match k {
        CodecKind::Flac => "flac"@,
        CodecKind::Aac => "aac"@,
        CodecKind::Mp3 => "mp3"@,
        CodecKind::Opus => "opus"@,
    }
}

impl CodecKind {
    /// The lowercase name of the codec, as displayed and as written in
    /// configuration files.
    pub fn as_str(&self) -> (res: &'static str)
        ensures
            res@ == codec_kind_name(*self),
    {
        match self {
            CodecKind::Flac => "flac",
            CodecKind::Aac => "aac",
            CodecKind::Mp3 => "mp3",
            CodecKind::Opus => "opus",
        }
    }
}

#[derive(Debug, Clone)]
pub struct InputConfig {
    /// Source kind: stdin, fifo, or unix.
    pub source: InputKind,
    /// Filesystem path for `fifo` / `unix` sources (ignored for stdin).
    pub path: Option<String>,
    /// PCM sample rate in Hz.
    pub sample_rate: u32,
    /// Number of interleaved channels.
    pub channels: u16,
}

impl Default for InputConfig {
    fn default() -> (res: Self)
        ensures
            res.source == InputKind::Stdin,
            res.path.is_none(),
            res.sample_rate == 44_100,
            res.channels == 2,
    {
        Self { source: InputKind::Stdin, path: None, sample_rate: 44_100, channels: 2 }
    }
}

#[derive(Debug, Clone)]
pub struct OutputConfig {
    /// Directory where playlists and segments are written and served from.
    pub dir: String,
    /// Target segment duration in seconds.
    pub segment_duration: u32,
    /// Number of segments kept in the live playlist / window.
    pub playlist_size: u32,
}

impl Default for OutputConfig {
    fn default() -> (res: Self)
        ensures
            res.dir@ == "./stream"@,
            res.segment_duration == 4,
            res.playlist_size == 6,
    {
        Self { dir: String::from_str("./stream"), segment_duration: 4, playlist_size: 6 }
    }
}

#[derive(Debug, Clone)]
pub struct EncoderConfig {
    /// Codec to encode with.
    pub codec: CodecKind,
    /// Target bitrate for lossy codecs (e.g. `128k`, `96000`). Ignored by FLAC.
    pub bitrate: String,
    /// FLAC compression level 0..=8 (higher = smaller, slower). FLAC only.
    pub flac_compression: u8,
}

impl Default for EncoderConfig {
    fn default() -> (res: Self)
        ensures
            res.codec == CodecKind::Flac,
            res.bitrate@ == "128k"@,
            res.flac_compression == 5,
    {
        Self { codec: CodecKind::Flac, bitrate: String::from_str("128k"), flac_compression: 5 }
    }
}

/// Unicode `White_Space`: the characters `char::is_whitespace` accepts.
pub open spec fn is_white_space(c: char) -> bool {
    ||| ('\u{9}' <= c && c <= '\u{d}')
    ||| c == ' '
    ||| c == '\u{85}'
    ||| c == '\u{a0}'
    ||| c == '\u{1680}'
    ||| ('\u{2000}' <= c && c <= '\u{200a}')
    ||| c == '\u{2028}'
    ||| c == '\u{2029}'
    ||| c == '\u{202f}'
    ||| c == '\u{205f}'
    ||| c == '\u{3000}'
}

/// `s` without its leading white space.
pub open spec fn trim_start(s: Seq<char>) -> Seq<char>
    decreases s.len(),
{
    if s.len() > 0 && is_white_space(s[0]) {
        trim_start(s.drop_first())
    } else {
        s
    }
}

/// `s` without its trailing white space.
pub open spec fn trim_end(s: Seq<char>) -> Seq<char>
    decreases s.len(),
{
    if s.len() > 0 && is_white_space(s.last()) {
        trim_end(s.drop_last())
    } else {
        s
    }
}

/// `s` without leading and trailing white space.
pub open spec fn trim(s: Seq<char>) -> Seq<char> {
    trim_end(trim_start(s))
}

/// The characters that lowercase to `k`.
pub open spec fn is_kilo(c: char) -> bool {
    c == 'k' || c == 'K' || c == '\u{212a}'
}

/// The characters that lowercase to `m`.
pub open spec fn is_mega(c: char) -> bool {
    c == 'm' || c == 'M'
}

/// A bitrate setting split into its number text and multiplier: after
/// surrounding white space is dropped, a final `k` (any case) scales by a
/// thousand and a final `m` by a million; the number text is what precedes
/// it, trimmed again.
pub open spec fn bitrate_parts_spec(raw: Seq<char>) -> (Seq<char>, u32) {
    let t = trim(raw);
    if t.len() > 0 && is_kilo(t.last()) {
        (trim(t.drop_last()), 1000u32)
    } else if t.len() > 0 && is_mega(t.last()) {
        (trim(t.drop_last()), 1_000_000u32)
    } else {
        (t, 1u32)
    }
}

fn is_white_space_exec(c: char) -> (res: bool)
    ensures
        res == is_white_space(c),
{
    ('\u{9}' <= c && c <= '\u{d}') || c == ' ' || c == '\u{85}' || c == '\u{a0}' || c == '\u{1680}'
        || ('\u{2000}' <= c && c <= '\u{200a}') || c == '\u{2028}' || c == '\u{2029}'
        || c == '\u{202f}' || c == '\u{205f}' || c == '\u{3000}'
}

/// The bounds of `v[lo..hi]` without its surrounding white space.
fn trim_range(v: &Vec<char>, lo: usize, hi: usize) -> (res: (usize, usize))
    requires
        lo <= hi <= v@.len(),
    ensures
        lo <= res.0 <= res.1 <= hi,
        v@.subrange(res.0 as int, res.1 as int) == trim(v@.subrange(lo as int, hi as int)),
{
    let mut i: usize = lo;
    while i < hi && is_white_space_exec(v[i])
        invariant
            lo <= i <= hi,
            hi <= v@.len(),
            trim_start(v@.subrange(i as int, hi as int)) == trim_start(v@.subrange(lo as int, hi as int)),
        decreases hi - i,
    {
        assert(v@.subrange(i as int, hi as int).drop_first() =~= v@.subrange(i + 1, hi as int));
        i = i + 1;
    }
    assert(trim_start(v@.subrange(i as int, hi as int)) == v@.subrange(i as int, hi as int));
    let mut j: usize = hi;
    while j > i && is_white_space_exec(v[j - 1])
        invariant
            lo <= i <= j <= hi,
            hi <= v@.len(),
            trim_end(v@.subrange(i as int, j as int)) == trim_end(v@.subrange(i as int, hi as int)),
        decreases j - i,
    {
        assert(v@.subrange(i as int, j as int).drop_last() =~= v@.subrange(i as int, j - 1));
        j = j - 1;
    }
    assert(trim_end(v@.subrange(i as int, j as int)) == v@.subrange(i as int, j as int));
    (i, j)
}

impl EncoderConfig {
    /// The number text of `bitrate` and the multiplier its suffix stands for
    /// (`128k` gives `128` and 1000). Turning the text into a number is left
    /// to the caller, which parses it as a decimal float.
    pub fn bitrate_parts(&self) -> (res: (String, u32))
        ensures
            (res.0@, res.1) == bitrate_parts_spec(self.bitrate@),
    {
        let v = str_chars(self.bitrate.as_str());
        let (a, b) = trim_range(&v, 0, v.len());
        assert(v@.subrange(0, v@.len() as int) =~= v@);
        let ghost t = v@.subrange(a as int, b as int);
        if a < b {
            let last = v[b - 1];
            assert(t.last() == last);
            assert(t.drop_last() =~= v@.subrange(a as int, b - 1));
            if last == 'k' || last == 'K' || last == '\u{212a}' {
                let (c, d) = trim_range(&v, a, b - 1);
                return (chars_string(&v, c, d), 1000);
            } else if last == 'm' || last == 'M' {
                let (c, d) = trim_range(&v, a, b - 1);
                return (chars_string(&v, c, d), 1_000_000);
            }
        }
        (chars_string(&v, a, b), 1)
    }
}

#[derive(Debug, Clone)]
pub struct HlsConfig {
    /// Emit an HLS playlist + segments.
    pub enabled: bool,
}

impl Default for HlsConfig {
    fn default() -> (res: Self)
        ensures
            res.enabled,
    {
        Self { enabled: true }
    }
}

#[derive(Debug, Clone)]
pub struct DashConfig {
    /// Emit an MPEG-DASH manifest + segments.
    pub enabled: bool,
}

impl Default for DashConfig {
    fn default() -> (res: Self)
        ensures
            !res.enabled,
    {
        Self { enabled: false }
    }
}

#[derive(Debug, Clone)]
pub struct ServerConfig {
    /// Bind address for the HTTP server.
    pub host: String,
    /// Bind port for the HTTP server.
    pub port: u16,
}

impl Default for ServerConfig {
    fn default() -> (res: Self)
        ensures
            res.host@ == "127.0.0.1"@,
            res.port == 8080,
    {
        Self { host: String::from_str("127.0.0.1"), port: 8080 }
    }
}

#[derive(Debug, Clone)]
pub struct Config {
    pub input: InputConfig,
    pub output: OutputConfig,
    pub encoder: EncoderConfig,
    pub hls: HlsConfig,
    pub dash: DashConfig,
    pub server: ServerConfig,
}

impl Default for Config {
    fn default() -> (res: Self)
        ensures
            res.input.source == InputKind::Stdin,
            res.input.path.is_none(),
            res.input.sample_rate == 44_100,
            res.input.channels == 2,
            res.output.dir@ == "./stream"@,
            res.output.segment_duration == 4,
            res.output.playlist_size == 6,
            res.encoder.codec == CodecKind::Flac,
            res.encoder.bitrate@ == "128k"@,
            res.encoder.flac_compression == 5,
            res.hls.enabled,
            !res.dash.enabled,
            res.server.host@ == "127.0.0.1"@,
            res.server.port == 8080,
    {
        Config {
            input: InputConfig::default(),
            output: OutputConfig::default(),
            encoder: EncoderConfig::default(),
            hls: HlsConfig::default(),
            dash: DashConfig::default(),
            server: ServerConfig::default(),
        }
    }
}

/// Why a resolved configuration cannot be served.
#[derive(Debug, Clone, Copy, PartialEq, Eq, Structural)]
pub enum ConfigError {
    /// Both HLS and DASH are disabled.
    NothingToServe,
    /// A FIFO or Unix-socket source was chosen without a path.
    MissingInputPath(InputKind),
    /// `input.channels` is 0.
    NoChannels,
    /// `input.sample_rate` is 0.
    ZeroSampleRate,
    /// `output.segment_duration` is 0.
    ZeroSegmentDuration,
    /// `encoder.flac_compression` is above 8.
    FlacCompressionOutOfRange,
}

/// Takes the value `cli` gives, else keeps `cur`.
pub open spec fn overridden<T>(cli: Option<T>, cur: T) -> T {
    match cli {
        Some(v) => v,
        None => cur,
    }
}

/// The option a string-valued flag gives, by view.
pub open spec fn overridden_str(cli: Option<String>, cur: String) -> Seq<char> {
    match cli {
        Some(v) => v@,
        None => cur@,
    }
}

/// The configuration problem `validate` reports first, if any.
pub open spec fn config_problem(c: Config) -> Option<ConfigError> {
    if !c.hls.enabled && !c.dash.enabled {
        Some(ConfigError::NothingToServe)
    } else if (c.input.source == InputKind::Fifo || c.input.source == InputKind::Unix)
        && c.input.path.is_none() {
        Some(ConfigError::MissingInputPath(c.input.source))
    } else if c.input.channels == 0 {
        Some(ConfigError::NoChannels)
    } else if c.input.sample_rate == 0 {
        Some(ConfigError::ZeroSampleRate)
    } else if c.output.segment_duration == 0 {
        Some(ConfigError::ZeroSegmentDuration)
    } else if c.encoder.flac_compression > 8 {
        Some(ConfigError::FlacCompressionOutOfRange)
    } else {
        None
    }
}

fn clone_opt_string(v: &Option<String>) -> (res: Option<String>)
    ensures
        res == *v,
{
    match v {
        Some(s) => Some(s.clone()),
        None => None,
    }
}

fn apply_input(input: &mut InputConfig, cli: &Cli)
    ensures
        final(input).source == overridden(cli.input, old(input).source),
        final(input).path == (match cli.input_path {
            Some(p) => Some(p),
            None => old(input).path,
        }),
        final(input).sample_rate == overridden(cli.sample_rate, old(input).sample_rate),
        final(input).channels == overridden(cli.channels, old(input).channels),
{
    if let Some(v) = cli.input {
        input.source = v;
    }
    if let Some(v) = clone_opt_string(&cli.input_path) {
        input.path = Some(v);
    }
    if let Some(v) = cli.sample_rate {
        input.sample_rate = v;
    }
    if let Some(v) = cli.channels {
        input.channels = v;
    }
}

fn apply_encoder(enc: &mut EncoderConfig, cli: &Cli)
    ensures
        final(enc).codec == overridden(cli.codec, old(enc).codec),
        final(enc).bitrate@ == overridden_str(cli.bitrate, old(enc).bitrate),
        final(enc).flac_compression == old(enc).flac_compression,
{
    if let Some(v) = cli.codec {
        enc.codec = v;
    }
    if let Some(v) = clone_opt_string(&cli.bitrate) {
        enc.bitrate = v;
    }
}

fn apply_output(out: &mut OutputConfig, cli: &Cli)
    ensures
        final(out).dir@ == overridden_str(cli.out_dir, old(out).dir),
        final(out).segment_duration == overridden(cli.segment_duration, old(out).segment_duration),
        final(out).playlist_size == overridden(cli.playlist_size, old(out).playlist_size),
{
    if let Some(v) = clone_opt_string(&cli.out_dir) {
        out.dir = v;
    }
    if let Some(v) = cli.segment_duration {
        out.segment_duration = v;
    }
    if let Some(v) = cli.playlist_size {
        out.playlist_size = v;
    }
}

fn apply_server(server: &mut ServerConfig, cli: &Cli)
    ensures
        final(server).host@ == overridden_str(cli.host, old(server).host),
        final(server).port == overridden(cli.port, old(server).port),
{
    if let Some(v) = clone_opt_string(&cli.host) {
        server.host = v;
    }
    if let Some(v) = cli.port {
        server.port = v;
    }
}

impl Config {
    /// Apply CLI overrides on top of a loaded/default config. CLI wins when set;
    /// `--no-dash` wins over `--dash`.
    pub fn apply_cli(&mut self, cli: &Cli)
        ensures
            final(self).input.source == overridden(cli.input, old(self).input.source),
            final(self).input.path == (match cli.input_path {
                Some(p) => Some(p),
                None => old(self).input.path,
            }),
            final(self).input.sample_rate == overridden(cli.sample_rate, old(self).input.sample_rate),
            final(self).input.channels == overridden(cli.channels, old(self).input.channels),
            final(self).encoder.codec == overridden(cli.codec, old(self).encoder.codec),
            final(self).encoder.bitrate@ == overridden_str(cli.bitrate, old(self).encoder.bitrate),
            final(self).encoder.flac_compression == old(self).encoder.flac_compression,
            final(self).output.dir@ == overridden_str(cli.out_dir, old(self).output.dir),
            final(self).output.segment_duration == overridden(
                cli.segment_duration,
                old(self).output.segment_duration,
            ),
            final(self).output.playlist_size == overridden(
                cli.playlist_size,
                old(self).output.playlist_size,
            ),
            final(self).dash.enabled == (if cli.no_dash {
                false
            } else if cli.dash {
                true
            } else {
                old(self).dash.enabled
            }),
            final(self).hls.enabled == (!cli.no_hls && old(self).hls.enabled),
            final(self).server.host@ == overridden_str(cli.host, old(self).server.host),
            final(self).server.port == overridden(cli.port, old(self).server.port),
    {
        apply_input(&mut self.input, cli);
        apply_encoder(&mut self.encoder, cli);
        apply_output(&mut self.output, cli);
        if cli.dash {
            self.dash.enabled = true;
        }
        if cli.no_dash {
            self.dash.enabled = false;
        }
        if cli.no_hls {
            self.hls.enabled = false;
        }
        apply_server(&mut self.server, cli);
    }

    /// Validate the resolved config, reporting the first problem found.
    pub fn validate(&self) -> (res: Result<(), ConfigError>)
        ensures
            match res {
                Ok(_) => config_problem(*self).is_none(),
                Err(e) => config_problem(*self) == Some(e),
            },
    {
        if !self.hls.enabled && !self.dash.enabled {
            return Err(ConfigError::NothingToServe);
        }
        if (self.input.source == InputKind::Fifo || self.input.source == InputKind::Unix)
            && self.input.path.is_none() {
            return Err(ConfigError::MissingInputPath(self.input.source));
        }
        if self.input.channels == 0 {
            return Err(ConfigError::NoChannels);
        }
        if self.input.sample_rate == 0 {
            return Err(ConfigError::ZeroSampleRate);
        }
        if self.output.segment_duration == 0 {
            return Err(ConfigError::ZeroSegmentDuration);
        }
        if self.encoder.flac_compression > 8 {
            return Err(ConfigError::FlacCompressionOutOfRange);
        }
        Ok(())
    }
}

} // verus!
