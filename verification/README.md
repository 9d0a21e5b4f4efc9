# hlsd

Live HLS / MPEG-DASH packaging of a raw PCM s16le audio stream: PCM is read
from stdin, a FIFO or a Unix socket, encoded (FLAC, AAC-LC, MP3, Opus),
wrapped into fragmented-MP4 (CMAF) segments, listed in a sliding-window HLS
playlist and DASH manifest, and served over HTTP.

## Layout

- `src/` — the library, verified with Verus:
  - `boxes.rs` — ISO-BMFF box serialization (`mp4_box`, `full_box`, `Buf`).
  - `mux.rs` — the fMP4 muxer: init segment (`ftyp`+`moov`) and media
    segments (`styp`+`moof`+`mdat`), with the `trun` data offset proved to
    point at the first payload byte.
  - `codec/` — the encoder interface and the codecs: FLAC (`flacenc`),
    AAC-LC (`fdk-aac`), MP3 (`mp3lame-encoder`, with MPEG frame splitting)
    and Opus framing; the sample-entry boxes (`esds`, `dfLa`, `dOps`).
  - `segmenter.rs` — PCM decoding across reads, segment numbering and
    timing, the sliding window and its evictions, and which manifests to
    write.
  - `playlist.rs` — HLS media / multivariant playlists, the DASH MPD, and
    ISO-8601 timestamps against the Gregorian calendar.
  - `config.rs`, `cli.rs` — the configuration, command-line overrides and
    validation.
  - `server.rs` — request-path sanitizing, content types and caching, the
    landing page.
  - `text.rs` — decimal number formatting.
- `app/` — the program around it: argument parsing (clap), the TOML file
  (serde/toml), opening the input, the read/encode/write loop (with the
  segment durations in floating-point seconds that the manifests write), the HTTP
  server (actix-web), and Opus encoding with `audiopus` (libopus), whose
  frames the library's `OpusFramer` cuts.
- `tests/` — tests of the library.
