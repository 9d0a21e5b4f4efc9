//! hlsd: live HLS / MPEG-DASH packaging of a raw PCM audio stream.

pub mod boxes;
pub mod codec;
pub mod mux;
pub mod cli;
pub mod config;
pub mod text;
pub mod playlist;
pub mod segmenter;
pub mod server;
