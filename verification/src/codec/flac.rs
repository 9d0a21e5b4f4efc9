//! FLAC encoder backed by the pure-Rust `flacenc` crate. Always available.
//!
//! Each `encode()` call encodes the supplied PCM as one FLAC stream and emits
//! its frames (which are individually decodable and byte-aligned) as packets.
//! For fMP4 we advertise the codec via a `dfLa` box holding STREAMINFO.

use flacenc::component::BitRepr;
use flacenc::error::Verify;
use vstd::prelude::*;

use super::{AudioEncoder, CodecError, Packet, SampleEntry};
use crate::boxes::{Buf, be16, be24, be64, full_box, full_box_spec, zero_bytes};
use crate::config::CodecKind;

verus! {

/// Samples per channel in every FLAC frame but the last of an `encode` call.
pub const FLAC_BLOCK_SIZE: usize = 4096;

// ---------------------------------------------------------------------------
// Calls into flacenc
// ---------------------------------------------------------------------------

#[verifier::external_type_specification]
#[verifier::external_body]
pub struct ExFlacStream(flacenc::component::Stream);

#[verifier::external_type_specification]
#[verifier::external_body]
pub struct ExFlacVerifyError(flacenc::error::VerifyError);

#[verifier::external_type_specification]
#[verifier::external_body]
pub struct ExFlacEncodeError(flacenc::error::EncodeError);

/// Each frame of a `flacenc` stream, in order, serialized with
/// `BitRepr::write` (`None` where a field is out of range for the format).
pub uninterp spec fn flac_stream_frames(stream: flacenc::component::Stream) -> Seq<Option<Seq<u8>>>;

/// The serialized frames that `flacenc` produces, single-threaded, for the
/// given block size and LPC settings (other settings at their defaults), from
/// interleaved samples of the given channel count, bit depth and rate.
pub uninterp spec fn flac_encoded_frames(
    block_size: usize,
    use_lpc: bool,
    lpc_order: usize,
    samples: Seq<i32>,
    channels: usize,
    bits_per_sample: usize,
    sample_rate: usize,
) -> Seq<Option<Seq<u8>>>;

/// Whether `flacenc` encodes the given samples with these settings: its
/// stream, frame buffer and frame-header checks (channel count, bit depth,
/// sample rate, sample range) pass.
pub uninterp spec fn flac_encode_succeeds(
    block_size: usize,
    use_lpc: bool,
    lpc_order: usize,
    samples: Seq<i32>,
    channels: usize,
    bits_per_sample: usize,
    sample_rate: usize,
) -> bool;

/// `ceil(n / d)`.
pub open spec fn ceil_div(n: int, d: int) -> int {
    (n + d - 1) / d
}

/// `flacenc::config::Qlpc::default().lpc_order`, which the source sets to
/// `constant::qlpc::DEFAULT_ORDER`, 10.
#[verifier::external_body]
fn flac_default_lpc_order() -> (res: usize)
    ensures
        res == 10,
{
    flacenc::config::Qlpc::default().lpc_order
}

/// `Verify::into_verified` on the default `flacenc::config::Encoder` with the
/// given block size and LPC settings, single-threaded. Per the source, the
/// defaults pass and the check fails exactly when the block size is outside
/// 32..=32767 or the LPC order outside 1..=24.
#[verifier::external_body]
fn flac_check_config(block_size: usize, use_lpc: bool, lpc_order: usize) -> (res: Result<(), flacenc::error::VerifyError>)
    ensures
        res is Ok <==> (32 <= block_size <= 32767 && 1 <= lpc_order <= 24),
{
    let mut config = flacenc::config::Encoder::default();
    config.block_size = block_size;
    config.multithread = false;
    config.subframe_coding.use_lpc = use_lpc;
    config.subframe_coding.qlpc.lpc_order = lpc_order;
    config.into_verified().map(|_| ()).map_err(|(_, e)| e)
}

/// `flacenc::encode_with_fixed_block_size` over a `MemSource` of the samples,
/// with the configuration of [`flac_check_config`] (a failing check becomes
/// `EncodeError::Config`). It succeeds exactly when that check passes and the
/// named encoder checks pass (reading from memory cannot fail otherwise). On
/// success there is at least one channel, the stream's frames are the named
/// encoding of exactly these arguments, and there is one frame per block:
/// the source is read `block_size` samples per channel at a time until it
/// yields none.
#[verifier::external_body]
fn flac_encode(
    block_size: usize,
    use_lpc: bool,
    lpc_order: usize,
    samples: &[i32],
    channels: usize,
    bits_per_sample: usize,
    sample_rate: usize,
) -> (res: Result<flacenc::component::Stream, flacenc::error::EncodeError>)
    ensures
        res is Ok <==> (32 <= block_size <= 32767 && 1 <= lpc_order <= 24 && flac_encode_succeeds(
            block_size,
            use_lpc,
            lpc_order,
            samples@,
            channels,
            bits_per_sample,
            sample_rate,
        )),
        res matches Ok(s) ==> {
            &&& channels > 0
            &&& flac_stream_frames(s) == flac_encoded_frames(
                block_size,
                use_lpc,
                lpc_order,
                samples@,
                channels,
                bits_per_sample,
                sample_rate,
            )
            &&& flac_stream_frames(s).len() == ceil_div(
                (samples@.len() as int) / (channels as int),
                block_size as int,
            )
        },
{
    let mut config = flacenc::config::Encoder::default();
    config.block_size = block_size;
    config.multithread = false;
    config.subframe_coding.use_lpc = use_lpc;
    config.subframe_coding.qlpc.lpc_order = lpc_order;
    let config = config.into_verified().map_err(|(_, e)| flacenc::error::EncodeError::from(e))?;
    let source = flacenc::source::MemSource::from_samples(samples, channels, bits_per_sample, sample_rate);
    flacenc::encode_with_fixed_block_size(&config, source, block_size)
}

/// `Stream::frame_count`: the number of frames in the stream.
#[verifier::external_body]
fn flac_frame_count(stream: &flacenc::component::Stream) -> (res: usize)
    ensures
        res == flac_stream_frames(*stream).len(),
{
    stream.frame_count()
}

/// `Stream::frame(i)` (`None` past the end) serialized with `BitRepr::write`
/// into a `ByteSink`. A `ByteSink` cannot fail; a frame field out of range is
/// reported as an error, which is the named serialization's `None`. A
/// serialized frame is never empty: it starts with the frame header.
#[verifier::external_body]
fn flac_frame_bytes(stream: &flacenc::component::Stream, i: usize) -> (res: Option<Result<Vec<u8>, ()>>)
    ensures
        match res {
            None => i >= flac_stream_frames(*stream).len(),
            Some(Ok(b)) => i < flac_stream_frames(*stream).len() && flac_stream_frames(*stream)[i as int]
                == Some(b@) && b@.len() > 0,
            Some(Err(_)) => i < flac_stream_frames(*stream).len() && flac_stream_frames(*stream)[i as int]
                is None,
        },
{
    match stream.frame(i) {
        None => None,
        Some(frame) => {
            let mut sink = flacenc::bitsink::ByteSink::new();
            Some(frame.write(&mut sink).map(|_| sink.into_inner()).map_err(|_| ()))
        },
    }
}

// ---------------------------------------------------------------------------
// The encoder
// ---------------------------------------------------------------------------

/// The LPC order a compression level asks for: none (fixed predictors only)
/// at level 0, else four per level, capped at 24, the largest order
/// `flacenc` accepts.
pub open spec fn lpc_order_for(compression: u8) -> usize {
    if compression == 0 {
        10
    } else if compression as int * 4 > 24 {
        24
    } else {
        (compression as int * 4) as usize
    }
}

/// Samples per channel of frame `i` of `n`: a full block, except the last
/// frame, which holds what remains of `total` (truncated to 32 bits).
pub open spec fn flac_sample_count(i: int, n: int, total: int, block_size: int) -> u32 {
    if i + 1 < n {
        block_size as u32
    } else {
        (total - (n - 1) * block_size) as u32
    }
}

/// The samples widened to 32 bits.
pub open spec fn widen(pcm: Seq<i16>) -> Seq<i32> {
    pcm.map_values(|s: i16| s as i32)
}

/// The 34-byte STREAMINFO block body: block sizes, unknown frame sizes, the
/// packed rate (20 bits) / channels-1 (3 bits) / bits-1 (5 bits) / zero
/// sample count, and a zero MD5.
pub open spec fn stream_info_spec(block_size: usize, sample_rate: u32, channels: u16) -> Seq<u8> {
    let sr = sample_rate & 0x0F_FFFF;
    let ch = ((channels as u32).wrapping_sub(1)) & 0x07;
    let packed: u64 = ((sr as u64) << 44u64) | ((ch as u64) << 41u64) | (15u64 << 36u64);
    be16(block_size as u16) + be16(block_size as u16) + seq![0u8] + be16(0) + seq![0u8] + be16(0)
        + be64(packed) + zero_bytes(16)
}

/// `dfLa`: one metadata block (last, type STREAMINFO, length 34).
pub open spec fn dfla_spec(block_size: usize, sample_rate: u32, channels: u16) -> Seq<u8> {
    full_box_spec(
        seq![0x64u8, 0x66, 0x4c, 0x61],
        0,
        0,
        seq![0x80u8] + be24(34) + stream_info_spec(block_size, sample_rate, channels),
    )
}

pub struct FlacEncoder {
    sample_rate: u32,
    channels: u16,
    block_size: usize,
    use_lpc: bool,
    lpc_order: usize,
}

impl FlacEncoder {
    #[verifier::type_invariant]
    spec fn wf(self) -> bool {
        &&& self.block_size == FLAC_BLOCK_SIZE
        &&& 1 <= self.lpc_order <= 24
    }

    pub closed spec fn sample_rate_spec(&self) -> u32 {
        self.sample_rate
    }

    pub closed spec fn channels_spec(&self) -> u16 {
        self.channels
    }

    pub closed spec fn use_lpc_spec(&self) -> bool {
        self.use_lpc
    }

    pub closed spec fn lpc_order_spec(&self) -> usize {
        self.lpc_order
    }

    /// Maps the 0..=8 level onto the LPC search: level 0 uses fixed predictors
    /// only (fastest), higher levels raise the LPC order (smaller, slower).
    /// `flacenc` accepts LPC orders up to 24, so levels 6 to 8 (and any
    /// higher) all search up to order 24. The configuration is checked once
    /// here and always passes.
    pub fn new(sample_rate: u32, channels: u16, compression: u8) -> (res: Result<Self, CodecError>)
        ensures
            res matches Ok(e) && {
                &&& e.sample_rate_spec() == sample_rate
                &&& e.channels_spec() == channels
                &&& e.use_lpc_spec() == (compression != 0)
                &&& e.lpc_order_spec() == lpc_order_for(compression)
            },
    {
        let block_size = FLAC_BLOCK_SIZE;
        let use_lpc = compression != 0;
        let lpc_order = if compression == 0 {
            flac_default_lpc_order()
        } else {
            let o = compression as usize * 4;
            if o > 24 {
                24
            } else {
                o
            }
        };
        // Validate once up front so per-segment encodes can't fail on config.
        match flac_check_config(block_size, use_lpc, lpc_order) {
            Ok(()) => Ok(Self { sample_rate, channels, block_size, use_lpc, lpc_order }),
            Err(_) => Err(CodecError::FlacConfig),
        }
    }

    /// `dfLa` box carrying a STREAMINFO metadata block (34-byte body).
    fn dfla_box(&self) -> (res: Vec<u8>)
        ensures
            res@ == dfla_spec(FLAC_BLOCK_SIZE, self.sample_rate_spec(), self.channels_spec()),
    {
        proof {
            use_type_invariant(self);
        }
        let mut si = Buf::new();
        // min/max block size (16-bit each).
        si.u16(self.block_size as u16).u16(self.block_size as u16);
        // min/max frame size (24-bit each), 0 = unknown.
        si.u8(0).u16(0).u8(0).u16(0);
        // sample_rate (20 bits) | channels-1 (3 bits) | bps-1 (5 bits) | total_samples (36 bits)
        let sr = self.sample_rate & 0x0F_FFFF;
        let ch = ((self.channels as u32).wrapping_sub(1)) & 0x07;
        let bps: u32 = 15;
        let packed: u64 = ((sr as u64) << 44u64) | ((ch as u64) << 41u64) | ((bps as u64) << 36u64);
        si.u64(packed);  // total_samples = 0 (streaming, unknown)
        // MD5 signature: 16 zero bytes = disabled.
        si.zeros(16);
        let stream_info = si.take();
        // FLAC metadata block: header byte (last-metadata-block=1, type=0) + 24-bit length.
        let mut block = Buf::new();
        block.u8(0x80);  // last block, type 0 (STREAMINFO)
        block.u8(0).u16(34);
        block.bytes(stream_info.as_slice());
        let body = block.take();
        assert(seq![0u8] + be16(34) == be24(34)) by {
            assert((34u32 >> 24u32) as u8 == 0 && (34u32 >> 16u32) as u8 == 0 && (34u32 >> 8u32) as u8 == 0
                && 34u32 as u8 == 34 && (34u16 >> 8u16) as u8 == 0 && 34u16 as u8 == 34) by (bit_vector);
        }
        full_box(&[0x64, 0x66, 0x4c, 0x61], 0, 0, body.as_slice())  // "dfLa"
    }
}

impl AudioEncoder for FlacEncoder {
    /// Encodes the samples as one FLAC stream and returns its frames, in
    /// order, each with its samples per channel: 4096 for every frame but the
    /// last, which holds the rest.
    fn encode(&mut self, interleaved: &[i16]) -> (res: Result<Vec<Packet>, CodecError>)
        ensures
            *final(self) == *old(self),
            interleaved@.len() == 0 ==> (res matches Ok(ps) && ps@.len() == 0),
            interleaved@.len() > 0 && old(self).channels_spec() == 0 ==> (res matches Err(e) && e
                == CodecError::UnsupportedChannels(CodecKind::Flac, 0)),
            interleaved@.len() > 0 && old(self).channels_spec() > 0 && flac_encode_succeeds(
                FLAC_BLOCK_SIZE,
                old(self).use_lpc_spec(),
                old(self).lpc_order_spec(),
                widen(interleaved@),
                old(self).channels_spec() as usize,
                16,
                old(self).sample_rate_spec() as usize,
            ) && (forall|i: int|
                #![trigger flac_encoded_frames(
                    FLAC_BLOCK_SIZE,
                    old(self).use_lpc_spec(),
                    old(self).lpc_order_spec(),
                    widen(interleaved@),
                    old(self).channels_spec() as usize,
                    16,
                    old(self).sample_rate_spec() as usize,
                )[i]]
                0 <= i < flac_encoded_frames(
                    FLAC_BLOCK_SIZE,
                    old(self).use_lpc_spec(),
                    old(self).lpc_order_spec(),
                    widen(interleaved@),
                    old(self).channels_spec() as usize,
                    16,
                    old(self).sample_rate_spec() as usize,
                ).len() ==> flac_encoded_frames(
                    FLAC_BLOCK_SIZE,
                    old(self).use_lpc_spec(),
                    old(self).lpc_order_spec(),
                    widen(interleaved@),
                    old(self).channels_spec() as usize,
                    16,
                    old(self).sample_rate_spec() as usize,
                )[i] is Some) ==> res is Ok,
            res matches Err(e) ==> e == CodecError::UnsupportedChannels(CodecKind::Flac, 0) || e
                == CodecError::FlacEncode || e == CodecError::FlacSerialize,
            res matches Ok(ps) ==> interleaved@.len() > 0 ==> {
                let frames = flac_encoded_frames(
                    FLAC_BLOCK_SIZE,
                    old(self).use_lpc_spec(),
                    old(self).lpc_order_spec(),
                    widen(interleaved@),
                    old(self).channels_spec() as usize,
                    16,
                    old(self).sample_rate_spec() as usize,
                );
                let total: int = (interleaved@.len() as int) / (old(self).channels_spec() as int);
                &&& ps@.len() == frames.len()
                &&& ps@.len() == ceil_div(total, FLAC_BLOCK_SIZE as int)
                &&& forall|i: int|
                    #![trigger ps@[i]]
                    0 <= i < ps@.len() ==> frames[i] == Some(ps@[i].data@)
                        && ps@[i].data@.len() > 0
                        && ps@[i].sample_count == flac_sample_count(
                        i,
                        ps@.len() as int,
                        total,
                        FLAC_BLOCK_SIZE as int,
                    )
            },
    {
        proof {
            use_type_invariant(&*self);
        }
        if interleaved.len() == 0 {
            return Ok(Vec::new());
        }
        // Interleaved samples cannot be split into zero channels.
        if self.channels == 0 {
            return Err(CodecError::UnsupportedChannels(CodecKind::Flac, 0));
        }
        let mut samples: Vec<i32> = Vec::new();
        let mut k: usize = 0;
        while k < interleaved.len()
            invariant
                k <= interleaved@.len(),
                samples@ == widen(interleaved@.subrange(0, k as int)),
            decreases interleaved@.len() - k,
        {
            samples.push(interleaved[k] as i32);
            k = k + 1;
            assert(widen(interleaved@.subrange(0, k as int)) =~= widen(
                interleaved@.subrange(0, k - 1),
            ).push(interleaved@[k - 1] as i32));
        }
        assert(interleaved@.subrange(0, interleaved@.len() as int) == interleaved@);
        let stream = match flac_encode(
            self.block_size,
            self.use_lpc,
            self.lpc_order,
            samples.as_slice(),
            self.channels as usize,
            16,
            self.sample_rate as usize,
        ) {
            Ok(s) => s,
            Err(_) => return Err(CodecError::FlacEncode),
        };
        let total_samples = samples.len() / self.channels as usize;
        let frame_count = flac_frame_count(&stream);
        proof {
            if frame_count > 0 {
                assert((frame_count - 1) * FLAC_BLOCK_SIZE <= total_samples) by (nonlinear_arith)
                    requires
                        frame_count == (total_samples + 4095) / 4096,
                        frame_count > 0,
                ;
            }
        }
        let ghost frames = flac_stream_frames(stream);
        assert(total_samples == (interleaved@.len() as int) / (self.channels as int));
        let mut packets: Vec<Packet> = Vec::new();
        let mut i: usize = 0;
        while i < frame_count
            invariant
                i <= frame_count,
                interleaved@.len() > 0,
                self.channels > 0,
                *self == *old(self),
                samples@ == widen(interleaved@),
                total_samples == (interleaved@.len() as int) / (self.channels as int),
                frames == flac_encoded_frames(
                    FLAC_BLOCK_SIZE,
                    self.use_lpc,
                    self.lpc_order,
                    widen(interleaved@),
                    self.channels as usize,
                    16,
                    self.sample_rate as usize,
                ),
                frame_count == frames.len(),
                frames == flac_stream_frames(stream),
                frames.len() == ceil_div(total_samples as int, FLAC_BLOCK_SIZE as int),
                frame_count > 0 ==> (frame_count - 1) * FLAC_BLOCK_SIZE <= total_samples,
                self.block_size == FLAC_BLOCK_SIZE,
                packets@.len() == i,
                forall|j: int|
                    #![trigger packets@[j]]
                    0 <= j < i ==> frames[j] == Some(packets@[j].data@)
                        && packets@[j].data@.len() > 0
                        && packets@[j].sample_count == flac_sample_count(
                        j,
                        frame_count as int,
                        total_samples as int,
                        FLAC_BLOCK_SIZE as int,
                    ),
            decreases frame_count - i,
        {
            let data = match flac_frame_bytes(&stream, i) {
                Some(Ok(b)) => b,
                Some(Err(_)) => return Err(CodecError::FlacSerialize),
                None => return Err(CodecError::FlacMissingFrame(i)),
            };
            let sample_count: u32 = if i + 1 < frame_count {
                self.block_size as u32
            } else {
                (total_samples - (frame_count - 1) * self.block_size) as u32
            };
            packets.push(Packet { data, sample_count });
            i = i + 1;
        }
        Ok(packets)
    }

    /// FLAC buffers nothing between calls.
    fn flush(&mut self) -> (res: Result<Vec<Packet>, CodecError>)
        ensures
            *final(self) == *old(self),
            res matches Ok(ps) && ps@.len() == 0,
    {
        Ok(Vec::new())
    }

    /// `fLaC` with a `dfLa` box; 16-bit samples.
    fn sample_entry(&self) -> (res: SampleEntry)
        ensures
            res.fourcc@ == seq![0x66u8, 0x4c, 0x61, 0x43],
            res.config_boxes@ == dfla_spec(
                FLAC_BLOCK_SIZE,
                self.sample_rate_spec(),
                self.channels_spec(),
            ),
            res.channels == self.channels_spec(),
            res.sample_rate == self.sample_rate_spec(),
            res.sample_size == 16,
    {
        SampleEntry {
            fourcc: [0x66, 0x4c, 0x61, 0x43],  // "fLaC"
            config_boxes: self.dfla_box(),
            channels: self.channels,
            sample_rate: self.sample_rate,
            sample_size: 16,
        }
    }

    fn rfc6381_codec(&self) -> (res: String)
        ensures
            res@ == "fLaC"@,
    {
        String::from_str("fLaC")
    }

    fn name(&self) -> (res: &'static str)
        ensures
            res@ == "FLAC"@,
    {
        "FLAC"
    }
}

/// The packets of one FLAC `encode` call cover the input exactly: their
/// per-channel sample counts add up to the input's per-channel sample count
/// (when the last frame's count fits in 32 bits).
pub proof fn law_flac_counts_cover_input(n: int, total: int, block_size: int)
    requires
        n >= 1,
        0 <= block_size <= u32::MAX,
        (n - 1) * block_size <= total,
        total - (n - 1) * block_size <= u32::MAX,
    ensures
        sum_counts(n, n, total, block_size) == total,
{
    lemma_sum_counts_prefix(n - 1, n, total, block_size);
    assert(sum_counts(n, n, total, block_size) == sum_counts(n - 1, n, total, block_size)
        + flac_sample_count(n - 1, n, total, block_size));
}

/// Sum of the sample counts of frames `0..k` of `n`.
pub open spec fn sum_counts(k: int, n: int, total: int, block_size: int) -> int
    decreases k,
{
    if k <= 0 {
        0
    } else {
        sum_counts(k - 1, n, total, block_size) + flac_sample_count(k - 1, n, total, block_size)
    }
}

proof fn lemma_sum_counts_prefix(k: int, n: int, total: int, block_size: int)
    requires
        0 <= k < n,
        0 <= block_size <= u32::MAX,
    ensures
        sum_counts(k, n, total, block_size) == k * block_size,
    decreases k,
{
    if k == 0 {
        assert(k * block_size == 0) by (nonlinear_arith)
            requires
                k == 0,
        ;
    } else {
        lemma_sum_counts_prefix(k - 1, n, total, block_size);
        assert(flac_sample_count(k - 1, n, total, block_size) == block_size);
        assert((k - 1) * block_size + block_size == k * block_size) by (nonlinear_arith);
        assert(sum_counts(k, n, total, block_size) == sum_counts(k - 1, n, total, block_size)
            + flac_sample_count(k - 1, n, total, block_size));
    }
}

/// The `dfLa` box carries one STREAMINFO block (last, type 0, 34 bytes),
/// whose packed field (bytes 26..34 of the box) holds, as the FLAC format
/// lays it out, the sample rate in 20 bits, the channel count minus one in 3
/// bits and the bits per sample minus one in 5 bits: read back, they give
/// the rate (to 20 bits), the channel count (1 to 8) and 16 bits per sample.
/// The minimum and maximum block sizes (bytes 16..20) are both the block size.
pub proof fn law_dfla_streaminfo_fields(block_size: usize, sample_rate: u32, channels: u16)
    requires
        1 <= channels <= 8,
    ensures
        ({
            let b = dfla_spec(block_size, sample_rate, channels);
            &&& b.len() == 50
            &&& b.subrange(4, 8) == seq![0x64u8, 0x66, 0x4c, 0x61]
            &&& b[12] == 0x80u8
            &&& b.subrange(13, 16) == be24(34)
            &&& b.subrange(16, 18) == be16(block_size as u16)
            &&& b.subrange(18, 20) == be16(block_size as u16)
            &&& ((b[28] >> 1u8) & 7u8) + 1 == channels
            &&& (((b[28] & 1u8) << 4u8) | (b[29] >> 4u8)) + 1 == 16
            &&& ((b[26] as u32) << 12u32) | ((b[27] as u32) << 4u32) | ((b[28] as u32) >> 4u32)
                == sample_rate & 0x0F_FFFF
        }),
{
    let b = dfla_spec(block_size, sample_rate, channels);
    let sr = sample_rate & 0x0F_FFFF;
    let c = channels as u32;
    let ch: u32 = c.wrapping_sub(1) & 7u32;
    let packed: u64 = ((sr as u64) << 44u64) | ((ch as u64) << 41u64) | (15u64 << 36u64);
    let hi = (packed >> 32u64) as u32;
    assert(b.subrange(26, 34) =~= be64(packed));
    assert(b.subrange(4, 8) =~= seq![0x64u8, 0x66, 0x4c, 0x61]);
    assert(b.subrange(13, 16) =~= be24(34));
    assert(b.subrange(16, 18) =~= be16(block_size as u16));
    assert(b.subrange(18, 20) =~= be16(block_size as u16));
    assert(b[26] == (hi >> 24u32) as u8 && b[27] == (hi >> 16u32) as u8 && b[28] == (hi >> 8u32) as u8
        && b[29] == hi as u8);
    assert(ch == c - 1) by (bit_vector)
        requires
            1 <= c <= 8,
            ch == c.wrapping_sub(1) & 7u32,
    ;
    assert(sr < 0x10_0000) by (bit_vector)
        requires
            sr == sample_rate & 0x0F_FFFF,
    ;
    let b26 = (hi >> 24u32) as u8;
    let b27 = (hi >> 16u32) as u8;
    let b28 = (hi >> 8u32) as u8;
    let b29 = hi as u8;
    assert(((b28 >> 1u8) & 7u8) == ch && (((b28 & 1u8) << 4u8) | (b29 >> 4u8)) == 15 && ((b26 as u32)
        << 12u32) | ((b27 as u32) << 4u32) | ((b28 as u32) >> 4u32) == sr) by (bit_vector)
        requires
            ch < 8,
            sr < 0x10_0000,
            packed == ((sr as u64) << 44u64) | ((ch as u64) << 41u64) | (15u64 << 36u64),
            hi == (packed >> 32u64) as u32,
            b26 == (hi >> 24u32) as u8,
            b27 == (hi >> 16u32) as u8,
            b28 == (hi >> 8u32) as u8,
            b29 == hi as u8,
    ;
}

} // verus!
