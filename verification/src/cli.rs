//! Command-line overrides. Every flag is optional; anything set here overrides
//! the corresponding value from the TOML config file (or the built-in default).

use vstd::prelude::*;

use crate::config::{CodecKind, InputKind};

verus! {

/// The parsed command line.
#[derive(Debug, Clone)]
pub struct Cli {
    /// Path to a TOML config file. Missing keys fall back to defaults.
    pub config: Option<String>,
    /// Input source for the PCM stream.
    pub input: Option<InputKind>,
    /// Path to the FIFO or Unix socket (for --input fifo|unix).
    pub input_path: Option<String>,
    /// PCM sample rate in Hz.
    pub sample_rate: Option<u32>,
    /// Number of interleaved PCM channels.
    pub channels: Option<u16>,
    /// Audio codec used for the segments.
    pub codec: Option<CodecKind>,
    /// Target bitrate for lossy codecs, e.g. 128k or 96000 (ignored by FLAC).
    pub bitrate: Option<String>,
    /// Output directory for playlists and segments.
    pub out_dir: Option<String>,
    /// Target segment duration in seconds.
    pub segment_duration: Option<u32>,
    /// Number of segments kept in the live window.
    pub playlist_size: Option<u32>,
    /// Enable MPEG-DASH output in addition to HLS.
    pub dash: bool,
    /// Disable MPEG-DASH output (overrides config).
    pub no_dash: bool,
    /// Disable HLS output (overrides config).
    pub no_hls: bool,
    /// HTTP server bind host.
    pub host: Option<String>,
    /// HTTP server bind port.
    pub port: Option<u16>,
}

} // verus!
