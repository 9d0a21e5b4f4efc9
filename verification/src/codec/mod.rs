//! Audio codec abstraction. Every encoder turns interleaved i16 PCM into a
//! sequence of self-contained frames (`Packet`s) plus an fMP4 sample-entry
//! description so the muxer can wrap them into CMAF segments.

use vstd::prelude::*;

use crate::boxes::{Buf, be16, be32, full_box, full_box_spec};
use crate::config::{CodecKind, Config};

pub mod aac;
pub mod flac;
pub mod mp3;
pub mod opus;

verus! {

/// One encoded, independently-muxable audio frame.
pub struct Packet {
    /// Raw codec frame bytes (no container framing).
    pub data: Vec<u8>,
    /// Number of PCM samples *per channel* this frame represents.
    pub sample_count: u32,
}

/// Everything the muxer needs to describe the audio track in the fMP4 `stsd`.
pub struct SampleEntry {
    /// Sample-entry FourCC, e.g. `mp4a`, `fLaC`, `Opus`.
    pub fourcc: [u8; 4],
    /// Codec-specific child boxes (already serialized), e.g. `esds`/`dfLa`/`dOps`.
    pub config_boxes: Vec<u8>,
    pub channels: u16,
    pub sample_rate: u32,
    pub sample_size: u16,
}


/// Why an encoder could not be built or could not encode.
#[derive(Debug, Clone, Copy, PartialEq, Eq, Structural)]
pub enum CodecError {
    /// The codec's library is not part of this library build.
    Unavailable(CodecKind),
    /// The configured bitrate text is not a number (lossy codecs only).
    InvalidBitrate,
    /// The codec cannot encode this many channels.
    UnsupportedChannels(CodecKind, u16),
    /// Opus only accepts 48 kHz input; the value is the rate that was given.
    OpusSampleRate(u32),
    /// The Opus encoder failed on a frame.
    OpusEncode,
    /// The FLAC encoder rejected its configuration.
    FlacConfig,
    /// The FLAC encoder failed on the given samples.
    FlacEncode,
    /// The FLAC stream lacks the frame at this index.
    FlacMissingFrame(usize),
    /// A FLAC frame could not be serialized.
    FlacSerialize,
    /// The AAC encoder could not be initialized.
    AacInit,
    /// The AAC encoder failed.
    AacEncode,
    /// The AAC encoder reported more output than its buffer holds.
    AacOutputSize,
    /// The LAME encoder could not be allocated.
    Mp3Alloc,
    /// LAME rejected a parameter or its parameter set.
    Mp3Config,
    /// LAME failed to encode or flush.
    Mp3Encode,
}

/// An encoder built from a configuration.
pub enum BuiltEncoder {
    Flac(flac::FlacEncoder),
    Aac(aac::AacEncoder),
    Mp3(mp3::Mp3Encoder),
}

/// What `build` returns for a configuration: the encoder of the configured
/// codec with the configured rate and channels, or the first error met.
/// `bitrate_bps` is the configured bitrate in bits per second, `None` when the
/// bitrate text is not a number; FLAC ignores it.
pub open spec fn build_result_ok(config: Config, bitrate_bps: Option<u32>, res: Result<BuiltEncoder, CodecError>) -> bool {
    let sr = config.input.sample_rate;
    let ch = config.input.channels;
    match config.encoder.codec {
        CodecKind::Flac => match res {
            Ok(BuiltEncoder::Flac(e)) => {
                &&& e.sample_rate_spec() == sr
                &&& e.channels_spec() == ch
                &&& e.use_lpc_spec() == (config.encoder.flac_compression != 0)
                &&& e.lpc_order_spec() == flac::lpc_order_for(config.encoder.flac_compression)
            },
            _ => false,
        },
        CodecKind::Aac => match bitrate_bps {
            None => res matches Err(e) && e == CodecError::InvalidBitrate,
            Some(b) => match res {
                Ok(BuiltEncoder::Aac(e)) => {
                    &&& ch == 1 || ch == 2
                    &&& aac::fdk_accepts(b, sr, aac::aac_channels(ch))
                    &&& e.sample_rate_spec() == sr
                    &&& e.channels_spec() == ch
                    &&& e.bitrate_spec() == b
                    &&& e.buffered() == Seq::<i16>::empty()
                },
                Err(e) => if ch == 1 || ch == 2 {
                    !aac::fdk_accepts(b, sr, aac::aac_channels(ch)) && e == CodecError::AacInit
                } else {
                    e == CodecError::UnsupportedChannels(CodecKind::Aac, ch)
                },
                _ => false,
            },
        },
        CodecKind::Mp3 => match bitrate_bps {
            None => res matches Err(e) && e == CodecError::InvalidBitrate,
            Some(b) => match res {
                Ok(BuiltEncoder::Mp3(e)) => {
                    &&& 1 <= ch as u8 <= 2
                    &&& sr >= 1
                    &&& e.sample_rate_spec() == sr
                    &&& e.channels_spec() == ch
                    &&& e.bitrate_spec() == b
                    &&& e.pending() == Seq::<u8>::empty()
                },
                Err(e) => e == CodecError::Mp3Alloc || e == CodecError::Mp3Config,
                _ => false,
            },
        },
        CodecKind::Opus => match bitrate_bps {
            None => res matches Err(e) && e == CodecError::InvalidBitrate,
            Some(_) => res matches Err(e) && e == CodecError::Unavailable(CodecKind::Opus),
        },
    }
}

/// Build the configured encoder, or fail with the reason. The Opus library is
/// not part of this library: for Opus the caller drives
/// [`opus::OpusFramer`] with its own Opus encoder, and this returns
/// `Unavailable`.
pub fn build(config: &Config, bitrate_bps: Option<u32>) -> (res: Result<BuiltEncoder, CodecError>)
    ensures
        build_result_ok(*config, bitrate_bps, res),
{
    let sr = config.input.sample_rate;
    let ch = config.input.channels;
    match config.encoder.codec {
        CodecKind::Flac => match flac::FlacEncoder::new(sr, ch, config.encoder.flac_compression) {
            Ok(e) => Ok(BuiltEncoder::Flac(e)),
            Err(e) => Err(e),
        },
        CodecKind::Aac => build_aac(sr, ch, bitrate_bps),
        CodecKind::Mp3 => build_mp3(sr, ch, bitrate_bps),
        CodecKind::Opus => build_opus(bitrate_bps),
    }
}

fn build_aac(sr: u32, ch: u16, bitrate_bps: Option<u32>) -> (res: Result<BuiltEncoder, CodecError>)
    ensures
        match bitrate_bps {
            None => res matches Err(e) && e == CodecError::InvalidBitrate,
            Some(b) => match res {
                Ok(BuiltEncoder::Aac(e)) => {
                    &&& ch == 1 || ch == 2
                    &&& aac::fdk_accepts(b, sr, aac::aac_channels(ch))
                    &&& e.sample_rate_spec() == sr
                    &&& e.channels_spec() == ch
                    &&& e.bitrate_spec() == b
                    &&& e.buffered() == Seq::<i16>::empty()
                },
                Err(e) => if ch == 1 || ch == 2 {
                    !aac::fdk_accepts(b, sr, aac::aac_channels(ch)) && e == CodecError::AacInit
                } else {
                    e == CodecError::UnsupportedChannels(CodecKind::Aac, ch)
                },
                _ => false,
            },
        },
{
    let bitrate = match bitrate_bps {
        Some(b) => b,
        None => return Err(CodecError::InvalidBitrate),
    };
    match aac::AacEncoder::new(sr, ch, bitrate) {
        Ok(e) => Ok(BuiltEncoder::Aac(e)),
        Err(e) => Err(e),
    }
}

fn build_mp3(sr: u32, ch: u16, bitrate_bps: Option<u32>) -> (res: Result<BuiltEncoder, CodecError>)
    ensures
        match bitrate_bps {
            None => res matches Err(e) && e == CodecError::InvalidBitrate,
            Some(b) => match res {
                Ok(BuiltEncoder::Mp3(e)) => {
                    &&& 1 <= ch as u8 <= 2
                    &&& sr >= 1
                    &&& e.sample_rate_spec() == sr
                    &&& e.channels_spec() == ch
                    &&& e.bitrate_spec() == b
                    &&& e.pending() == Seq::<u8>::empty()
                },
                Err(e) => e == CodecError::Mp3Alloc || e == CodecError::Mp3Config,
                _ => false,
            },
        },
{
    let bitrate = match bitrate_bps {
        Some(b) => b,
        None => return Err(CodecError::InvalidBitrate),
    };
    match mp3::Mp3Encoder::new(sr, ch, bitrate) {
        Ok(e) => Ok(BuiltEncoder::Mp3(e)),
        Err(e) => Err(e),
    }
}

fn build_opus(bitrate_bps: Option<u32>) -> (res: Result<BuiltEncoder, CodecError>)
    ensures
        match bitrate_bps {
            None => res matches Err(e) && e == CodecError::InvalidBitrate,
            Some(_) => res matches Err(e) && e == CodecError::Unavailable(CodecKind::Opus),
        },
{
    match bitrate_bps {
        Some(_) => Err(CodecError::Unavailable(CodecKind::Opus)),
        None => Err(CodecError::InvalidBitrate),
    }
}

/// Appends all of `src` to `out`.
pub fn push_all_i16(out: &mut Vec<i16>, src: &[i16])
    ensures
        final(out)@ == old(out)@ + src@,
{
    let mut i: usize = 0;
    while i < src.len()
        invariant
            i <= src.len(),
            out@ == old(out)@ + src@.subrange(0, i as int),
        decreases src.len() - i,
    {
        out.push(src[i]);
        i = i + 1;
        assert(src@.subrange(0, i as int) == src@.subrange(0, i - 1) + seq![src@[i - 1]]);
    }
    assert(src@.subrange(0, src@.len() as int) == src@);
}

/// A streaming audio encoder.
pub trait AudioEncoder: Send {
    /// Feed interleaved i16 samples (channel-interleaved). Returns any whole
    /// frames that became available; partial trailing samples may be buffered.
    fn encode(&mut self, interleaved: &[i16]) -> Result<Vec<Packet>, CodecError>;

    /// Flush any buffered samples as a final (possibly padded) frame.
    fn flush(&mut self) -> Result<Vec<Packet>, CodecError>;

    /// fMP4 sample-entry description for this stream.
    fn sample_entry(&self) -> SampleEntry;

    /// RFC 6381 codec string for the HLS `CODECS` attribute / DASH `codecs`.
    fn rfc6381_codec(&self) -> String;

    /// Human-readable codec name.
    fn name(&self) -> &'static str;
}

// ---------------------------------------------------------------------------
// Shared MPEG-4 descriptor helpers (used by AAC and MP3 sample entries).
// ---------------------------------------------------------------------------

/// The MPEG-4 sampling-frequency index of a rate, where the standard table
/// lists it.
pub open spec fn sampling_frequency_index_spec(sample_rate: u32) -> Option<u8> {
    if sample_rate == 96_000 {
        Some(0u8)
    } else if sample_rate == 88_200 {
        Some(1u8)
    } else if sample_rate == 64_000 {
        Some(2u8)
    } else if sample_rate == 48_000 {
        Some(3u8)
    } else if sample_rate == 44_100 {
        Some(4u8)
    } else if sample_rate == 32_000 {
        Some(5u8)
    } else if sample_rate == 24_000 {
        Some(6u8)
    } else if sample_rate == 22_050 {
        Some(7u8)
    } else if sample_rate == 16_000 {
        Some(8u8)
    } else if sample_rate == 12_000 {
        Some(9u8)
    } else if sample_rate == 11_025 {
        Some(10u8)
    } else if sample_rate == 8_000 {
        Some(11u8)
    } else if sample_rate == 7_350 {
        Some(12u8)
    } else {
        None
    }
}

/// The MPEG-4 sampling-frequency index for common rates, or `None` if the rate
/// must be signalled explicitly.
pub fn sampling_frequency_index(sample_rate: u32) -> (res: Option<u8>)
    ensures
        res == sampling_frequency_index_spec(sample_rate),
{
    let table: [u32; 13] = [
        96_000, 88_200, 64_000, 48_000, 44_100, 32_000, 24_000, 22_050, 16_000, 12_000, 11_025,
        8_000, 7_350,
    ];
    let mut i: usize = 0;
    while i < 13
        invariant
            0 <= i <= 13,
            table@ == seq![
                96_000u32, 88_200, 64_000, 48_000, 44_100, 32_000, 24_000, 22_050, 16_000, 12_000,
                11_025, 8_000, 7_350,
            ],
            forall|j: int| 0 <= j < i ==> table@[j] != sample_rate,
        decreases 13 - i,
    {
        if table[i] == sample_rate {
            return Some(i as u8);
        }
        i = i + 1;
    }
    None
}

/// An MPEG-4 descriptor with a one-byte length: `tag, length, payload`.
pub open spec fn descriptor_spec(tag: u8, payload: Seq<u8>) -> Seq<u8> {
    seq![tag, payload.len() as u8] + payload
}

/// Encode an MPEG-4 descriptor: `tag(1) + length(1) + payload`. Our descriptors
/// are all well under 128 bytes, so a single length byte is sufficient.
pub fn descriptor(tag: u8, payload: &[u8]) -> (res: Vec<u8>)
    requires
        payload@.len() < 128,
    ensures
        res@ == descriptor_spec(tag, payload@),
{
    let mut out = Vec::new();
    out.push(tag);
    out.push(payload.len() as u8);
    crate::boxes::push_all(&mut out, payload);
    out
}

/// The DecoderConfigDescriptor payload: object type, audio stream type,
/// zero buffer size, max and average bitrate, then the decoder-specific info.
pub open spec fn decoder_config_payload(oti: u8, avg_bitrate: u32, dsi: Option<Seq<u8>>) -> Seq<u8> {
    seq![oti, 0x15u8, 0u8] + be16(0) + be32(avg_bitrate) + be32(avg_bitrate) + match dsi {
        Some(d) => descriptor_spec(0x05, d),
        None => Seq::empty(),
    }
}

/// The `esds` full box wrapping an ES_Descriptor (ES_ID 0, no flags) that
/// holds a DecoderConfigDescriptor and an MP4-predefined SLConfigDescriptor.
pub open spec fn esds_spec(oti: u8, avg_bitrate: u32, dsi: Option<Seq<u8>>) -> Seq<u8> {
    full_box_spec(
        seq![0x65u8, 0x73, 0x64, 0x73],
        0,
        0,
        descriptor_spec(
            0x03,
            be16(0) + seq![0u8] + descriptor_spec(0x04, decoder_config_payload(oti, avg_bitrate, dsi))
                + descriptor_spec(0x06, seq![0x02u8]),
        ),
    )
}

/// Build an `esds` full box wrapping an ES_Descriptor for the given object type
/// and optional DecoderSpecificInfo (AudioSpecificConfig for AAC; none for MP3).
pub fn esds_box(object_type_indication: u8, avg_bitrate: u32, dsi: Option<&[u8]>) -> (res: Vec<u8>)
    requires
        match dsi {
            Some(d) => d@.len() < 105,
            None => true,
        },
    ensures
        res@ == esds_spec(
            object_type_indication,
            avg_bitrate,
            match dsi {
                Some(d) => Some(d@),
                None => None,
            },
        ),
{
    // DecoderConfigDescriptor (tag 0x04).
    let mut dcd = Buf::new();
    dcd.u8(object_type_indication).u8((0x05u8 << 2u8) | 0x01)  // streamType=audio(0x05), upStream=0, reserved=1
    .u8(0).u16(0)  // bufferSizeDB (24 bits) = 0
    .u32(avg_bitrate)  // maxBitrate
    .u32(avg_bitrate);  // avgBitrate
    assert((0x05u8 << 2u8) | 0x01 == 0x15u8) by (bit_vector);
    if let Some(d) = dsi {
        // DecoderSpecificInfo (tag 0x05).
        let dsi_desc = descriptor(0x05, d);
        dcd.bytes(dsi_desc.as_slice());
    }
    let dcd_payload = dcd.take();
    let dcd = descriptor(0x04, dcd_payload.as_slice());
    // SLConfigDescriptor (tag 0x06): predefined = MP4 (0x02).
    let sl = descriptor(0x06, &[0x02]);
    // ES_Descriptor (tag 0x03): ES_ID(2)=0, flags(1)=0, then DCD + SL.
    let mut es = Buf::new();
    es.u16(0).u8(0).bytes(dcd.as_slice()).bytes(sl.as_slice());
    let es_payload = es.take();
    let es = descriptor(0x03, es_payload.as_slice());
    full_box(&[0x65, 0x73, 0x64, 0x73], 0, 0, es.as_slice())  // "esds"
}

/// The AAC-LC AudioSpecificConfig bits: object type 2, the sampling-frequency
/// index (15 = explicit rate), the channel configuration, zero GA flags.
pub open spec fn aac_lc_asc_bits(sample_rate: u32, channels: u16) -> u16 {
    let freq_index: u8 = match sampling_frequency_index_spec(sample_rate) {
        Some(i) => i,
        None => 0x0Fu8,
    };
    ((2u16 << 11u16) | ((freq_index as u16) << 7u16) | (channels << 3u16)) as u16
}

/// Build the 2-byte AudioSpecificConfig for AAC-LC at the given rate/channels.
pub fn aac_lc_asc(sample_rate: u32, channels: u16) -> (res: Vec<u8>)
    ensures
        res@ == be16(aac_lc_asc_bits(sample_rate, channels)),
{
    // audioObjectType=2 (AAC LC), 5 bits; samplingFrequencyIndex 4 bits;
    // channelConfiguration 4 bits; GASpecificConfig 3 bits (all zero).
    let freq_index: u8 = match sampling_frequency_index(sample_rate) {
        Some(i) => i,
        None => 0x0F,
    };
    let aot: u16 = 2;
    let chan: u16 = channels;
    let bits: u16 = (aot << 11u16) | ((freq_index as u16) << 7u16) | (chan << 3u16);
    let mut b = Buf::new();
    b.u16(bits);
    b.take()
}

} // verus!
