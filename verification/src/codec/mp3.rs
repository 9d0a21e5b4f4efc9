//! MP3 encoder backed by `mp3lame-encoder` (vendored LAME).
//!
//! LAME emits a raw MP3 byte stream; for fMP4 we split it into individual MPEG
//! audio frames (each a decodable sample) and describe the track with an
//! `mp4a`/`esds` sample entry using object type 0x6B (MPEG-1 audio).

use vstd::prelude::*;

use super::{AudioEncoder, CodecError, Packet, SampleEntry, esds_box, esds_spec};
use crate::config::CodecKind;
use mp3lame_encoder::Bitrate;

verus! {

// ---------------------------------------------------------------------------
// MPEG audio frame headers
// ---------------------------------------------------------------------------

/// Layer III bitrates (kbps) of MPEG-1, by bitrate index.
pub open spec fn mpeg1_kbps(i: u8) -> u32 {
    seq![0u32, 32, 40, 48, 56, 64, 80, 96, 112, 128, 160, 192, 224, 256, 320][i as int]
}

/// Layer III bitrates (kbps) of MPEG-2 / 2.5, by bitrate index.
pub open spec fn mpeg2_kbps(i: u8) -> u32 {
    seq![0u32, 8, 16, 24, 32, 40, 48, 56, 64, 80, 96, 112, 128, 144, 160][i as int]
}

/// Sample rate by version bits (3 = MPEG-1, 2 = MPEG-2, 0 = MPEG-2.5) and
/// sample-rate index; `None` for the reserved version.
pub open spec fn mpeg_sample_rate(version_bits: u8, index: u8) -> Option<u32> {
    if version_bits == 3 {
        Some(seq![44100u32, 48000, 32000][index as int])
    } else if version_bits == 2 {
        Some(seq![22050u32, 24000, 16000][index as int])
    } else if version_bits == 0 {
        Some(seq![11025u32, 12000, 8000][index as int])
    } else {
        None
    }
}

/// The two sync bytes of an MPEG audio frame header at `pos`.
pub open spec fn is_sync(buf: Seq<u8>, pos: int) -> bool {
    buf[pos] == 0xFF && (buf[pos + 1] & 0xE0) == 0xE0
}

/// The length in bytes and the samples per channel of the Layer III frame whose
/// four header bytes start `h`, or `None` when they are no valid header.
pub open spec fn frame_info_spec(h: Seq<u8>) -> Option<(int, u32)> {
    if h.len() < 4 || !is_sync(h, 0) {
        None
    } else {
        let version_bits = (h[1] >> 3u8) & 0x03;
        let layer_bits = (h[1] >> 1u8) & 0x03;
        let bitrate_index = (h[2] >> 4u8) & 0x0F;
        let samplerate_index = (h[2] >> 2u8) & 0x03;
        let padding = ((h[2] >> 1u8) & 0x01) as int;
        if layer_bits != 1 || bitrate_index == 0 || bitrate_index == 0x0F || samplerate_index == 3 {
            None
        } else {
            let mpeg1 = version_bits == 3;
            let kbps = if mpeg1 {
                mpeg1_kbps(bitrate_index)
            } else {
                mpeg2_kbps(bitrate_index)
            };
            match mpeg_sample_rate(version_bits, samplerate_index) {
                None => None,
                Some(sample_rate) => {
                    let coef: int = if mpeg1 {
                        144
                    } else {
                        72
                    };
                    let len = coef * (kbps * 1000) / (sample_rate as int) + padding;
                    if len < 4 {
                        None
                    } else {
                        Some((len, if mpeg1 { 1152u32 } else { 576u32 }))
                    }
                },
            }
        }
    }
}

/// A Layer III frame header (sync `0xFFE`, layer bits `01`, a version other
/// than the reserved one, a bitrate index 1 to 14 and a sample-rate index 0 to
/// 2) describes a frame of `coefficient * bitrate / sample rate` bytes plus
/// the padding byte, with 1152 samples per channel for MPEG-1 and 576 for
/// MPEG-2 and 2.5, the bitrates and rates being those of ISO/IEC 11172-3 and
/// 13818-3 (coefficient 144 for MPEG-1, 72 otherwise). For example `ff fb 94
/// 00` (MPEG-1, 128 kb/s, 48 kHz) gives 384 bytes and `ff fb 98 00` (32 kHz)
/// gives 576.
pub proof fn law_layer3_frame_length(h: Seq<u8>)
    requires
        h.len() >= 4,
        h[0] == 0xFFu8,
        h[1] & 0xE0u8 == 0xE0u8,
        (h[1] >> 1u8) & 3u8 == 1u8,
        (h[1] >> 3u8) & 3u8 != 1u8,
        1u8 <= h[2] >> 4u8 <= 14u8,
        (h[2] >> 2u8) & 3u8 < 3u8,
    ensures
        ({
            let version = (h[1] >> 3u8) & 3u8;
            let b = (h[2] >> 4u8) as int;
            let s = ((h[2] >> 2u8) & 3u8) as int;
            let padding = ((h[2] >> 1u8) & 1u8) as int;
            let rate: int = if version == 3 {
                seq![44100int, 48000, 32000][s]
            } else if version == 2 {
                seq![22050int, 24000, 16000][s]
            } else {
                seq![11025int, 12000, 8000][s]
            };
            let kbps: int = if version == 3 {
                seq![32int, 40, 48, 56, 64, 80, 96, 112, 128, 160, 192, 224, 256, 320][b - 1]
            } else {
                seq![8int, 16, 24, 32, 40, 48, 56, 64, 80, 96, 112, 128, 144, 160][b - 1]
            };
            let coefficient: int = if version == 3 {
                144
            } else {
                72
            };
            frame_info_spec(h) == Some(
                (coefficient * (kbps * 1000) / rate + padding, if version == 3 {
                    1152u32
                } else {
                    576u32
                }),
            )
        }),
{
    let h1 = h[1];
    let h2 = h[2];
    let version = (h1 >> 3u8) & 3u8;
    let bi = h2 >> 4u8;
    let si = (h2 >> 2u8) & 3u8;
    let b = bi as int;
    let s = si as int;
    assert(version == 0 || version == 2 || version == 3) by (bit_vector)
        requires
            version == (h1 >> 3u8) & 3u8,
            version != 1u8,
    ;
    assert(bi & 0x0Fu8 == bi) by (bit_vector)
        requires
            bi == h2 >> 4u8,
    ;
    let t1 = seq![0u32, 32, 40, 48, 56, 64, 80, 96, 112, 128, 160, 192, 224, 256, 320];
    let t2 = seq![0u32, 8, 16, 24, 32, 40, 48, 56, 64, 80, 96, 112, 128, 144, 160];
    let l1 = seq![32int, 40, 48, 56, 64, 80, 96, 112, 128, 160, 192, 224, 256, 320];
    let l2 = seq![8int, 16, 24, 32, 40, 48, 56, 64, 80, 96, 112, 128, 144, 160];
    assert(t1[b] as int == l1[b - 1] && t1[b] >= 32);
    assert(t2[b] as int == l2[b - 1] && t2[b] >= 8);
    let r1 = seq![44100u32, 48000, 32000];
    let r2 = seq![22050u32, 24000, 16000];
    let r3 = seq![11025u32, 12000, 8000];
    assert(r1[s] as int == seq![44100int, 48000, 32000][s] && r1[s] <= 48000);
    assert(r2[s] as int == seq![22050int, 24000, 16000][s] && r2[s] <= 24000);
    assert(r3[s] as int == seq![11025int, 12000, 8000][s] && r3[s] <= 12000 && r3[s] > 0);
    let kbps: int = if version == 3 { t1[b] as int } else { t2[b] as int };
    let rate: int = if version == 3 { r1[s] as int } else if version == 2 { r2[s] as int } else { r3[s] as int };
    let coef: int = if version == 3 { 144 } else { 72 };
    assert(coef * (kbps * 1000) / rate >= 4) by (nonlinear_arith)
        requires
            coef >= 72,
            kbps >= 8,
            0 < rate <= 48000,
    ;
}

/// Parse an MPEG audio frame header, returning `(frame_len_bytes, samples)`.
pub fn frame_info(h: &[u8]) -> (res: Option<(usize, u32)>)
    ensures
        match res {
            Some((len, n)) => frame_info_spec(h@) == Some((len as int, n)),
            None => frame_info_spec(h@).is_none(),
        },
{
    if h.len() < 4 || h[0] != 0xFF || (h[1] & 0xE0) != 0xE0 {
        return None;
    }
    let b1 = h[1];
    let b2 = h[2];
    let version_bits = (b1 >> 3u8) & 0x03;  // 3=MPEG1, 2=MPEG2, 0=MPEG2.5
    let layer_bits = (b1 >> 1u8) & 0x03;  // 1 = Layer III
    if layer_bits != 0b01 {
        return None;  // only Layer III
    }
    let bitrate_index = (b2 >> 4u8) & 0x0F;
    let samplerate_index = (b2 >> 2u8) & 0x03;
    let padding = ((b2 >> 1u8) & 0x01) as usize;
    if bitrate_index == 0 || bitrate_index == 0x0F || samplerate_index == 0x03 {
        return None;
    }
    assert(bitrate_index < 16) by (bit_vector)
        requires
            bitrate_index == (b2 >> 4u8) & 0x0F,
    ;
    assert(samplerate_index <= 3) by (bit_vector)
        requires
            samplerate_index == (b2 >> 2u8) & 0x03,
    ;
    assert(padding <= 1) by (bit_vector)
        requires
            padding == ((b2 >> 1u8) & 0x01) as usize,
    ;
    let mpeg1 = version_bits == 0b11;
    let bitrate_kbps: u32 = if mpeg1 {
        let t: [u32; 15] = [0, 32, 40, 48, 56, 64, 80, 96, 112, 128, 160, 192, 224, 256, 320];
        t[bitrate_index as usize]
    } else {
        let t: [u32; 15] = [0, 8, 16, 24, 32, 40, 48, 56, 64, 80, 96, 112, 128, 144, 160];
        t[bitrate_index as usize]
    };
    let sample_rate: u32 = if version_bits == 0b11 {
        let t: [u32; 3] = [44100, 48000, 32000];
        t[samplerate_index as usize]
    } else if version_bits == 0b10 {
        let t: [u32; 3] = [22050, 24000, 16000];
        t[samplerate_index as usize]
    } else if version_bits == 0b00 {
        let t: [u32; 3] = [11025, 12000, 8000];
        t[samplerate_index as usize]
    } else {
        return None;
    };
    let samples_per_frame: u32 = if mpeg1 {
        1152
    } else {
        576
    };
    assert(bitrate_kbps <= 320);
    let bitrate: usize = bitrate_kbps as usize * 1000;
    let coef: usize = if mpeg1 {
        144
    } else {
        72
    };
    assert(coef * bitrate <= 144 * 320_000) by (nonlinear_arith)
        requires
            coef <= 144,
            bitrate <= 320_000,
    ;
    let len = (coef * bitrate / sample_rate as usize) + padding;
    if len < 4 {
        return None;
    }
    Some((len, samples_per_frame))
}

/// Splits `buf` from `pos` on: skips bytes until a valid frame header, takes
/// each complete frame, and stops at the first frame that runs past the end
/// (or when fewer than four bytes remain). Returns the frames with their
/// samples per channel, and the position where splitting stopped.
pub open spec fn split_spec(buf: Seq<u8>, pos: int) -> (Seq<(Seq<u8>, u32)>, int)
    decreases buf.len() - pos,
{
    if pos < 0 || pos + 4 > buf.len() {
        (Seq::empty(), pos)
    } else if !is_sync(buf, pos) {
        split_spec(buf, pos + 1)
    } else {
        match frame_info_spec(buf.subrange(pos, pos + 4)) {
            None => split_spec(buf, pos + 1),
            Some((len, n)) => {
                if pos + len > buf.len() {
                    (Seq::empty(), pos)
                } else {
                    let rest = split_spec(buf, pos + len);
                    (seq![(buf.subrange(pos, pos + len), n)] + rest.0, rest.1)
                }
            },
        }
    }
}

/// The (bytes, samples) view of a packet list.
pub open spec fn packets_view(ps: Seq<Packet>) -> Seq<(Seq<u8>, u32)> {
    ps.map_values(|p: Packet| (p.data@, p.sample_count))
}

/// Copies `v[..n]`.
fn copy_prefix_i16(v: &[i16], n: usize) -> (res: Vec<i16>)
    requires
        n <= v@.len(),
    ensures
        res@ == v@.take(n as int),
{
    let mut out: Vec<i16> = Vec::new();
    let mut i: usize = 0;
    while i < n
        invariant
            i <= n <= v@.len(),
            out@ == v@.take(i as int),
        decreases n - i,
    {
        out.push(v[i]);
        i = i + 1;
        assert(out@ =~= v@.take(i as int));
    }
    out
}

/// Copies `buf[from..to]`.
fn copy_range(buf: &Vec<u8>, from: usize, to: usize) -> (res: Vec<u8>)
    requires
        from <= to <= buf@.len(),
    ensures
        res@ == buf@.subrange(from as int, to as int),
{
    let mut out = Vec::new();
    let mut i = from;
    while i < to
        invariant
            from <= i <= to <= buf@.len(),
            out@ == buf@.subrange(from as int, i as int),
        decreases to - i,
    {
        out.push(buf[i]);
        i = i + 1;
    }
    out
}

/// Splits complete MPEG audio frames out of `pending` (see [`split_spec`]).
/// Returns the frames and the bytes left over from where splitting stopped.
pub fn split_mp3_frames(pending: &Vec<u8>) -> (res: (Vec<Packet>, Vec<u8>))
    ensures
        packets_view(res.0@) == split_spec(pending@, 0).0,
        res.1@ == pending@.subrange(split_spec(pending@, 0).1, pending@.len() as int),
{
    let mut packets: Vec<Packet> = Vec::new();
    let mut pos: usize = 0;
    let buf = pending;
    while buf.len() - pos >= 4
        invariant_except_break
            pos <= buf@.len(),
            split_spec(buf@, 0).0 == packets_view(packets@) + split_spec(buf@, pos as int).0,
            split_spec(buf@, 0).1 == split_spec(buf@, pos as int).1,
        ensures
            pos <= buf@.len(),
            split_spec(buf@, 0).0 == packets_view(packets@),
            split_spec(buf@, 0).1 == pos,
        decreases buf@.len() - pos,
    {
        // Resync to a frame header.
        if !(buf[pos] == 0xFF && (buf[pos + 1] & 0xE0) == 0xE0) {
            pos += 1;
            continue;
        }
        let h: [u8; 4] = [buf[pos], buf[pos + 1], buf[pos + 2], buf[pos + 3]];
        assert(h@ =~= buf@.subrange(pos as int, pos + 4));
        match frame_info(&h) {
            None => {
                pos += 1;
            },
            Some((len, samples)) => {
                if len > buf.len() - pos {
                    // incomplete frame; wait for more bytes
                    assert(packets_view(packets@) + Seq::<(Seq<u8>, u32)>::empty() =~= packets_view(packets@));
                    break;
                }
                let data = copy_range(buf, pos, pos + len);
                let ghost old_packets = packets@;
                packets.push(Packet { data, sample_count: samples });
                assert(packets_view(packets@) =~= packets_view(old_packets) + seq![(
                    buf@.subrange(pos as int, pos + len),
                    samples,
                )]);
                pos += len;
            },
        }
    }
    if buf.len() - pos < 4 {
        assert(packets_view(packets@) + Seq::<(Seq<u8>, u32)>::empty() =~= packets_view(packets@));
    }
    let rest = copy_range(buf, pos, buf.len());
    (packets, rest)
}


// ---------------------------------------------------------------------------
// LAME parameters
// ---------------------------------------------------------------------------

/// The LAME constant bitrates, in kbps.
pub open spec fn lame_kbps_table() -> Seq<u32> {
    seq![8u32, 16, 24, 32, 40, 48, 64, 80, 96, 112, 128, 160, 192, 224, 256, 320]
}

/// Distance between a table entry and a requested kbps value.
pub open spec fn kbps_distance(k: u32, kbps: u32) -> int {
    if k >= kbps {
        k - kbps
    } else {
        kbps - k
    }
}

/// `i` is the first table index whose bitrate is closest to `kbps`.
pub open spec fn is_nearest_index(i: int, kbps: u32) -> bool {
    &&& 0 <= i < 16
    &&& forall|j: int|
        0 <= j < 16 ==> kbps_distance(lame_kbps_table()[j], kbps) >= kbps_distance(
            lame_kbps_table()[i],
            kbps,
        )
    &&& forall|j: int|
        0 <= j < i ==> kbps_distance(lame_kbps_table()[j], kbps) > kbps_distance(
            lame_kbps_table()[i],
            kbps,
        )
}

/// The constant bitrates LAME accepts.
#[derive(Debug, Clone, Copy, PartialEq, Eq, Structural)]
pub enum LameBitrate {
    Kbps8,
    Kbps16,
    Kbps24,
    Kbps32,
    Kbps40,
    Kbps48,
    Kbps64,
    Kbps80,
    Kbps96,
    Kbps112,
    Kbps128,
    Kbps160,
    Kbps192,
    Kbps224,
    Kbps256,
    Kbps320,
}

/// The kbps value of a LAME bitrate.
pub open spec fn lame_bitrate_kbps(b: LameBitrate) -> u32 {
    match b {
        LameBitrate::Kbps8 => 8,
        LameBitrate::Kbps16 => 16,
        LameBitrate::Kbps24 => 24,
        LameBitrate::Kbps32 => 32,
        LameBitrate::Kbps40 => 40,
        LameBitrate::Kbps48 => 48,
        LameBitrate::Kbps64 => 64,
        LameBitrate::Kbps80 => 80,
        LameBitrate::Kbps96 => 96,
        LameBitrate::Kbps112 => 112,
        LameBitrate::Kbps128 => 128,
        LameBitrate::Kbps160 => 160,
        LameBitrate::Kbps192 => 192,
        LameBitrate::Kbps224 => 224,
        LameBitrate::Kbps256 => 256,
        LameBitrate::Kbps320 => 320,
    }
}

fn lame_bitrate_at(i: usize) -> (res: LameBitrate)
    requires
        i < 16,
    ensures
        lame_bitrate_kbps(res) == lame_kbps_table()[i as int],
{
    match i {
        0 => LameBitrate::Kbps8,
        1 => LameBitrate::Kbps16,
        2 => LameBitrate::Kbps24,
        3 => LameBitrate::Kbps32,
        4 => LameBitrate::Kbps40,
        5 => LameBitrate::Kbps48,
        6 => LameBitrate::Kbps64,
        7 => LameBitrate::Kbps80,
        8 => LameBitrate::Kbps96,
        9 => LameBitrate::Kbps112,
        10 => LameBitrate::Kbps128,
        11 => LameBitrate::Kbps160,
        12 => LameBitrate::Kbps192,
        13 => LameBitrate::Kbps224,
        14 => LameBitrate::Kbps256,
        _ => LameBitrate::Kbps320,
    }
}

/// Map a target bitrate (bits/s) to the nearest LAME CBR bitrate; on a tie the
/// lower one.
pub fn nearest_bitrate(bps: u32) -> (res: LameBitrate)
    ensures
        exists|i: int|
            is_nearest_index(i, bps / 1000) && lame_bitrate_kbps(res) == lame_kbps_table()[i],
{
    let kbps = bps / 1000;
    let table: [u32; 16] = [8, 16, 24, 32, 40, 48, 64, 80, 96, 112, 128, 160, 192, 224, 256, 320];
    assert(table@ == lame_kbps_table());
    let mut best: usize = 0;
    let mut best_dist: u32 = if table[0] >= kbps {
        table[0] - kbps
    } else {
        kbps - table[0]
    };
    let mut i: usize = 1;
    while i < 16
        invariant
            1 <= i <= 16,
            best < i,
            table@ == lame_kbps_table(),
            best_dist == kbps_distance(table@[best as int], kbps),
            forall|j: int| 0 <= j < i ==> kbps_distance(table@[j], kbps) >= best_dist,
            forall|j: int| 0 <= j < best ==> kbps_distance(table@[j], kbps) > best_dist,
        decreases 16 - i,
    {
        let d = if table[i] >= kbps {
            table[i] - kbps
        } else {
            kbps - table[i]
        };
        if d < best_dist {
            best = i;
            best_dist = d;
        }
        i = i + 1;
    }
    assert(is_nearest_index(best as int, kbps));
    lame_bitrate_at(best)
}

/// LAME's MPEG channel modes used here.
#[derive(Debug, Clone, Copy, PartialEq, Eq, Structural)]
pub enum LameMode {
    Mono,
    JointStereo,
}

/// LAME's encoding quality presets used here.
#[derive(Debug, Clone, Copy, PartialEq, Eq, Structural)]
pub enum LameQuality {
    Good,
}

// ---------------------------------------------------------------------------
// Calls into LAME
// ---------------------------------------------------------------------------

#[verifier::external_type_specification]
#[verifier::external_body]
pub struct ExLameBuilder(mp3lame_encoder::Builder);

#[verifier::external_type_specification]
#[verifier::external_body]
pub struct ExLameEncoder(mp3lame_encoder::Encoder);

#[verifier::external_type_specification]
#[verifier::external_body]
pub struct ExLameBuildError(mp3lame_encoder::BuildError);

#[verifier::external_type_specification]
#[verifier::external_body]
pub struct ExLameEncodeError(mp3lame_encoder::EncodeError);

/// What LAME is told to use: channel count, input rate, bitrate, quality
/// and mode, each `None` while LAME's default is left in place.
pub struct LameSettings {
    pub channels: Option<u8>,
    pub sample_rate: Option<u32>,
    pub brate: Option<LameBitrate>,
    pub quality: Option<LameQuality>,
    pub mode: Option<LameMode>,
}

/// The settings a LAME builder holds: those set on it so far.
pub uninterp spec fn lame_builder_settings(b: mp3lame_encoder::Builder) -> LameSettings;

/// The settings a LAME encoder was built with.
pub uninterp spec fn lame_encoder_settings(e: mp3lame_encoder::Encoder) -> LameSettings;

/// The PCM handed to a LAME encoder, one entry per encode call, in order.
pub uninterp spec fn lame_fed(e: mp3lame_encoder::Encoder) -> Seq<Seq<i16>>;

/// The MP3 bytes a LAME encoder has returned so far, in order.
pub uninterp spec fn lame_emitted(e: mp3lame_encoder::Encoder) -> Seq<u8>;

/// Whether LAME's `lame_init_params` accepts these settings and initializes
/// an encoder with them.
pub uninterp spec fn lame_accepts(s: LameSettings) -> bool;

/// `mp3lame_encoder::Builder::new`: allocates LAME's state (`None` when that
/// fails), with none of the settings made yet.
#[verifier::external_body]
fn lame_builder() -> (res: Option<mp3lame_encoder::Builder>)
    ensures
        res matches Some(b) ==> lame_builder_settings(b) == (LameSettings {
            channels: None,
            sample_rate: None,
            brate: None,
            quality: None,
            mode: None,
        }),
{
    mp3lame_encoder::Builder::new()
}

/// `Builder::set_num_channels`: LAME's `lame_set_num_channels` accepts one
/// or two channels, which the builder then holds, and refuses any other
/// count, leaving the builder as it was.
#[verifier::external_body]
fn lame_set_num_channels(b: &mut mp3lame_encoder::Builder, num: u8) -> (res: Result<(), mp3lame_encoder::BuildError>)
    ensures
        res is Ok <==> 1 <= num <= 2,
        res is Ok ==> lame_builder_settings(*final(b)) == (LameSettings {
            channels: Some(num),
            ..lame_builder_settings(*old(b))
        }),
        res is Err ==> lame_builder_settings(*final(b)) == lame_builder_settings(*old(b)),
{
    b.set_num_channels(num)
}

/// `Builder::set_sample_rate`: LAME's `lame_set_in_samplerate` refuses a
/// rate below 1 Hz, leaving the builder as it was, and takes any other
/// (rates beyond `c_int` are passed as `c_int::MAX`, which the settings
/// here do not tell apart).
#[verifier::external_body]
fn lame_set_sample_rate(b: &mut mp3lame_encoder::Builder, rate: u32) -> (res: Result<(), mp3lame_encoder::BuildError>)
    ensures
        res is Ok <==> rate >= 1,
        res is Ok ==> lame_builder_settings(*final(b)) == (LameSettings {
            sample_rate: Some(rate),
            ..lame_builder_settings(*old(b))
        }),
        res is Err ==> lame_builder_settings(*final(b)) == lame_builder_settings(*old(b)),
{
    b.set_sample_rate(rate)
}

/// `Builder::set_brate`, given the bitrate as this library's enum, converted one
/// variant for one. LAME's `lame_set_brate` stores any value and succeeds.
#[verifier::external_body]
fn lame_set_brate(b: &mut mp3lame_encoder::Builder, rate: LameBitrate) -> (res: Result<(), mp3lame_encoder::BuildError>)
    ensures
        res is Ok,
        lame_builder_settings(*final(b)) == (LameSettings {
            brate: Some(rate),
            ..lame_builder_settings(*old(b))
        }),
{
    b.set_brate(match rate {
        LameBitrate::Kbps8 => Bitrate::Kbps8, LameBitrate::Kbps16 => Bitrate::Kbps16,
        LameBitrate::Kbps24 => Bitrate::Kbps24, LameBitrate::Kbps32 => Bitrate::Kbps32,
        LameBitrate::Kbps40 => Bitrate::Kbps40, LameBitrate::Kbps48 => Bitrate::Kbps48,
        LameBitrate::Kbps64 => Bitrate::Kbps64, LameBitrate::Kbps80 => Bitrate::Kbps80,
        LameBitrate::Kbps96 => Bitrate::Kbps96, LameBitrate::Kbps112 => Bitrate::Kbps112,
        LameBitrate::Kbps128 => Bitrate::Kbps128, LameBitrate::Kbps160 => Bitrate::Kbps160,
        LameBitrate::Kbps192 => Bitrate::Kbps192, LameBitrate::Kbps224 => Bitrate::Kbps224,
        LameBitrate::Kbps256 => Bitrate::Kbps256, LameBitrate::Kbps320 => Bitrate::Kbps320,
    })
}

/// `Builder::set_quality`, the preset converted one for one. LAME's
/// `lame_set_quality` clamps the level to 0..=9 and succeeds.
#[verifier::external_body]
fn lame_set_quality(b: &mut mp3lame_encoder::Builder, q: LameQuality) -> (res: Result<(), mp3lame_encoder::BuildError>)
    ensures
        res is Ok,
        lame_builder_settings(*final(b)) == (LameSettings {
            quality: Some(q),
            ..lame_builder_settings(*old(b))
        }),
{
    b.set_quality(match q {
        LameQuality::Good => mp3lame_encoder::Quality::Good,
    })
}

/// `Builder::set_mode`, the mode converted one for one. LAME's
/// `lame_set_mode` accepts every known MPEG mode, so both succeed.
#[verifier::external_body]
fn lame_set_mode(b: &mut mp3lame_encoder::Builder, m: LameMode) -> (res: Result<(), mp3lame_encoder::BuildError>)
    ensures
        res is Ok,
        lame_builder_settings(*final(b)) == (LameSettings {
            mode: Some(m),
            ..lame_builder_settings(*old(b))
        }),
{
    b.set_mode(match m {
        LameMode::Mono => mp3lame_encoder::Mode::Mono,
        LameMode::JointStereo => mp3lame_encoder::Mode::JointStereo,
    })
}

/// `Builder::build`: LAME's parameter check and initialization. It succeeds
/// exactly when LAME accepts the builder's settings (named, not stated;
/// running out of memory is left aside), and the encoder keeps them and has
/// been handed nothing and returned nothing yet.
#[verifier::external_body]
fn lame_build(b: mp3lame_encoder::Builder) -> (res: Result<mp3lame_encoder::Encoder, mp3lame_encoder::BuildError>)
    ensures
        res is Ok <==> lame_accepts(lame_builder_settings(b)),
        res matches Ok(e) ==> lame_encoder_settings(e) == lame_builder_settings(b),
        res matches Ok(e) ==> lame_fed(e).len() == 0,
        res matches Ok(e) ==> lame_emitted(e).len() == 0,
{
    b.build()
}

/// `Encoder::encode_to_vec` on interleaved stereo PCM (`InterleavedPcm`,
/// which asserts an even length in debug builds), into a fresh buffer of
/// `capacity` bytes. The samples are handed to LAME; the encoder keeps its
/// settings. The bytes depend on LAME's internal state; nothing is claimed
/// of them.
#[verifier::external_body]
fn lame_encode(enc: &mut mp3lame_encoder::Encoder, pcm: &[i16], capacity: usize) -> (res: Result<Vec<u8>, mp3lame_encoder::EncodeError>)
    requires
        pcm@.len() % 2 == 0,
    ensures
        lame_encoder_settings(*final(enc)) == lame_encoder_settings(*old(enc)),
        lame_fed(*final(enc)) == lame_fed(*old(enc)).push(pcm@),
        res matches Ok(v) ==> lame_emitted(*final(enc)) == lame_emitted(*old(enc)) + v@,
        res is Err ==> lame_emitted(*final(enc)) == lame_emitted(*old(enc)),
{
    let mut out: Vec<u8> = Vec::with_capacity(capacity);
    enc.encode_to_vec(mp3lame_encoder::InterleavedPcm(pcm), &mut out).map(|_| out)
}

/// `Encoder::encode_to_vec` on mono PCM (`MonoPcm`), into a fresh buffer of
/// `capacity` bytes. The samples are handed to LAME; the encoder keeps its
/// settings. The bytes depend on LAME's internal state; nothing is claimed
/// of them.
#[verifier::external_body]
fn lame_encode_mono(enc: &mut mp3lame_encoder::Encoder, pcm: &[i16], capacity: usize) -> (res: Result<Vec<u8>, mp3lame_encoder::EncodeError>)
    ensures
        lame_encoder_settings(*final(enc)) == lame_encoder_settings(*old(enc)),
        lame_fed(*final(enc)) == lame_fed(*old(enc)).push(pcm@),
        res matches Ok(v) ==> lame_emitted(*final(enc)) == lame_emitted(*old(enc)) + v@,
        res is Err ==> lame_emitted(*final(enc)) == lame_emitted(*old(enc)),
{
    let mut out: Vec<u8> = Vec::with_capacity(capacity);
    enc.encode_to_vec(mp3lame_encoder::MonoPcm(pcm), &mut out).map(|_| out)
}

/// `Encoder::flush_to_vec::<FlushNoGap>` into a fresh buffer of `capacity`
/// bytes; no samples are handed over and the settings stay. Nothing is
/// claimed of the bytes.
#[verifier::external_body]
fn lame_flush(enc: &mut mp3lame_encoder::Encoder, capacity: usize) -> (res: Result<Vec<u8>, mp3lame_encoder::EncodeError>)
    ensures
        lame_encoder_settings(*final(enc)) == lame_encoder_settings(*old(enc)),
        lame_fed(*final(enc)) == lame_fed(*old(enc)),
        res matches Ok(v) ==> lame_emitted(*final(enc)) == lame_emitted(*old(enc)) + v@,
        res is Err ==> lame_emitted(*final(enc)) == lame_emitted(*old(enc)),
{
    let mut out: Vec<u8> = Vec::with_capacity(capacity);
    enc.flush_to_vec::<mp3lame_encoder::FlushNoGap>(&mut out).map(|_| out)
}

// ---------------------------------------------------------------------------
// The encoder
// ---------------------------------------------------------------------------

pub struct Mp3Encoder {
    enc: mp3lame_encoder::Encoder,
    sample_rate: u32,
    channels: u16,
    bitrate: u32,
    /// Undelimited MP3 bytes awaiting frame splitting.
    pending: Vec<u8>,
}

/// The LAME bitrate nearest to `bps` (the lower one on a tie).
pub open spec fn is_nearest_bitrate(b: LameBitrate, bps: u32) -> bool {
    exists|i: int| is_nearest_index(i, bps / 1000) && lame_bitrate_kbps(b) == lame_kbps_table()[i]
}

/// The settings `Mp3Encoder::new` gives LAME: the channel count and input
/// rate, the LAME bitrate nearest to `bitrate`, quality "good", and mono
/// mode for one channel, joint stereo otherwise.
pub open spec fn mp3_settings_for(s: LameSettings, sample_rate: u32, channels: u16, bitrate: u32) -> bool {
    &&& s.channels == Some(channels as u8)
    &&& s.sample_rate == Some(sample_rate)
    &&& s.brate matches Some(b) && is_nearest_bitrate(b, bitrate)
    &&& s.quality == Some(LameQuality::Good)
    &&& s.mode == Some(if channels == 1 {
        LameMode::Mono
    } else {
        LameMode::JointStereo
    })
}

/// The samples LAME is handed for interleaved input: all of them for mono;
/// for stereo, whole left/right pairs (a trailing odd sample is left out).
pub open spec fn lame_input(pcm: Seq<i16>, channels: u16) -> Seq<i16> {
    if channels == 1 {
        pcm
    } else {
        pcm.take(pcm.len() - pcm.len() % 2)
    }
}

/// Appending `out` to the pending bytes `before` and splitting yields the
/// frames `ps` and leaves `after` pending.
pub open spec fn frames_taken(before: Seq<u8>, out: Seq<u8>, ps: Seq<Packet>, after: Seq<u8>) -> bool {
    let all = before + out;
    &&& packets_view(ps) == split_spec(all, 0).0
    &&& after == all.subrange(split_spec(all, 0).1, all.len() as int)
}

impl Mp3Encoder {
    pub closed spec fn sample_rate_spec(&self) -> u32 {
        self.sample_rate
    }

    pub closed spec fn channels_spec(&self) -> u16 {
        self.channels
    }

    pub closed spec fn bitrate_spec(&self) -> u32 {
        self.bitrate
    }

    /// The MP3 bytes LAME has returned so far, in order.
    pub closed spec fn emitted(&self) -> Seq<u8> {
        lame_emitted(self.enc)
    }

    /// The PCM handed to LAME so far, one entry per encode.
    pub closed spec fn fed(&self) -> Seq<Seq<i16>> {
        lame_fed(self.enc)
    }

    /// What LAME was configured with.
    pub closed spec fn settings(&self) -> LameSettings {
        lame_encoder_settings(self.enc)
    }

    /// MP3 bytes produced but not yet split into frames.
    pub closed spec fn pending(&self) -> Seq<u8> {
        self.pending@
    }

    /// Configures LAME: channel count, input rate, the nearest CBR bitrate,
    /// quality "good", mono or joint-stereo mode.
    pub fn new(sample_rate: u32, channels: u16, bitrate: u32) -> (res: Result<Self, CodecError>)
        ensures
            match res {
                Ok(e) => {
                    &&& 1 <= channels as u8 <= 2
                    &&& sample_rate >= 1
                    &&& e.sample_rate_spec() == sample_rate
                    &&& e.channels_spec() == channels
                    &&& e.bitrate_spec() == bitrate
                    &&& e.pending() == Seq::<u8>::empty()
                    &&& mp3_settings_for(e.settings(), sample_rate, channels, bitrate)
                    &&& lame_accepts(e.settings())
                    &&& e.fed() == Seq::<Seq<i16>>::empty()
                    &&& e.emitted() == Seq::<u8>::empty()
                },
                Err(e) => {
                    &&& e == CodecError::Mp3Alloc || e == CodecError::Mp3Config
                    &&& e == CodecError::Mp3Config ==> !(1 <= channels as u8 <= 2 && sample_rate >= 1)
                        || exists|s: LameSettings|
                        #![trigger lame_accepts(s)]
                        mp3_settings_for(s, sample_rate, channels, bitrate) && !lame_accepts(s)
                },
            },
    {
        let mut builder = match lame_builder() {
            Some(b) => b,
            None => return Err(CodecError::Mp3Alloc),
        };
        if lame_set_num_channels(&mut builder, channels as u8).is_err() {
            return Err(CodecError::Mp3Config);
        }
        if lame_set_sample_rate(&mut builder, sample_rate).is_err() {
            return Err(CodecError::Mp3Config);
        }
        let brate = nearest_bitrate(bitrate);
        if lame_set_brate(&mut builder, brate).is_err() {
            return Err(CodecError::Mp3Config);
        }
        if lame_set_quality(&mut builder, LameQuality::Good).is_err() {
            return Err(CodecError::Mp3Config);
        }
        let mode = if channels == 1 {
            LameMode::Mono
        } else {
            LameMode::JointStereo
        };
        if lame_set_mode(&mut builder, mode).is_err() {
            return Err(CodecError::Mp3Config);
        }
        let enc = match lame_build(builder) {
            Ok(e) => e,
            Err(_) => return Err(CodecError::Mp3Config),
        };
        Ok(Self {
            enc,
            sample_rate,
            channels,
            bitrate,
            pending: Vec::new(),
        })
    }

    /// Split complete MPEG audio frames out of `pending`, leaving any partial
    /// trailing frame buffered.
    fn split_frames(&mut self) -> (res: Vec<Packet>)
        ensures
            packets_view(res@) == split_spec(old(self).pending(), 0).0,
            final(self).pending() == old(self).pending().subrange(
                split_spec(old(self).pending(), 0).1,
                old(self).pending().len() as int,
            ),
            final(self).sample_rate_spec() == old(self).sample_rate_spec(),
            final(self).channels_spec() == old(self).channels_spec(),
            final(self).bitrate_spec() == old(self).bitrate_spec(),
            final(self).settings() == old(self).settings(),
            final(self).fed() == old(self).fed(),
            final(self).emitted() == old(self).emitted(),
    {
        let (packets, rest) = split_mp3_frames(&self.pending);
        self.pending = rest;
        packets
    }

    /// Appends `bytes` to the pending MP3 bytes, then splits off the complete
    /// frames.
    fn take_frames(&mut self, bytes: Vec<u8>) -> (res: Vec<Packet>)
        ensures
            packets_view(res@) == split_spec(old(self).pending() + bytes@, 0).0,
            final(self).pending() == (old(self).pending() + bytes@).subrange(
                split_spec(old(self).pending() + bytes@, 0).1,
                (old(self).pending() + bytes@).len() as int,
            ),
            final(self).sample_rate_spec() == old(self).sample_rate_spec(),
            final(self).channels_spec() == old(self).channels_spec(),
            final(self).bitrate_spec() == old(self).bitrate_spec(),
            final(self).settings() == old(self).settings(),
            final(self).fed() == old(self).fed(),
            final(self).emitted() == old(self).emitted(),
    {
        crate::boxes::push_all(&mut self.pending, bytes.as_slice());
        self.split_frames()
    }
}

impl AudioEncoder for Mp3Encoder {
    /// Feeds the samples to LAME and returns the complete frames of everything
    /// LAME has produced so far: the pending bytes followed by the bytes LAME
    /// returns now; an incomplete trailing frame stays pending.
    #[verifier::spinoff_prover]
    #[verifier::rlimit(40)]
    fn encode(&mut self, interleaved: &[i16]) -> (res: Result<Vec<Packet>, CodecError>)
        ensures
            final(self).sample_rate_spec() == old(self).sample_rate_spec(),
            final(self).channels_spec() == old(self).channels_spec(),
            final(self).bitrate_spec() == old(self).bitrate_spec(),
            final(self).settings() == old(self).settings(),
            final(self).fed() == old(self).fed().push(lame_input(interleaved@, old(self).channels_spec())),
            res matches Ok(ps) ==> frames_taken(
                old(self).pending(),
                final(self).emitted().subrange(old(self).emitted().len() as int, final(self).emitted().len() as int),
                ps@,
                final(self).pending(),
            ),
            res is Ok ==> old(self).emitted().is_prefix_of(final(self).emitted()),
            res matches Err(e) ==> e == CodecError::Mp3Encode && final(self).pending()
                == old(self).pending() && final(self).emitted() == old(self).emitted(),
    {
        let ch: usize = if self.channels == 0 {
            1
        } else {
            self.channels as usize
        };
        let frames = interleaved.len() / ch;
        // frames * 5 / 4 + 7200, saturating (it cannot reach the limit for a slice).
        let q = frames / 4;
        let max_out = if q <= (usize::MAX - 7201) / 5 {
            q * 5 + (frames % 4) * 5 / 4 + 7200
        } else {
            usize::MAX
        };
        let r = if self.channels == 1 {
            lame_encode_mono(&mut self.enc, interleaved, max_out)
        } else {
            // Whole left/right pairs only.
            let pairs = copy_prefix_i16(interleaved, interleaved.len() - interleaved.len() % 2);
            assert(pairs@ == lame_input(interleaved@, self.channels));
            lame_encode(&mut self.enc, pairs.as_slice(), max_out)
        };
        match r {
            Ok(out) => {
                let ghost o = out@;
                let ps = self.take_frames(out);
                assert(self.emitted().subrange(old(self).emitted().len() as int, self.emitted().len() as int) =~= o);
                Ok(ps)
            },
            Err(_) => {
                assert(self.pending() =~= old(self).pending());
                Err(CodecError::Mp3Encode)
            },
        }
    }

    /// Flushes LAME and returns the complete frames of what is then pending.
    fn flush(&mut self) -> (res: Result<Vec<Packet>, CodecError>)
        ensures
            final(self).sample_rate_spec() == old(self).sample_rate_spec(),
            final(self).channels_spec() == old(self).channels_spec(),
            final(self).bitrate_spec() == old(self).bitrate_spec(),
            final(self).settings() == old(self).settings(),
            final(self).fed() == old(self).fed(),
            res matches Ok(ps) ==> frames_taken(
                old(self).pending(),
                final(self).emitted().subrange(old(self).emitted().len() as int, final(self).emitted().len() as int),
                ps@,
                final(self).pending(),
            ),
            res is Ok ==> old(self).emitted().is_prefix_of(final(self).emitted()),
            res matches Err(e) ==> e == CodecError::Mp3Encode && final(self).pending()
                == old(self).pending() && final(self).emitted() == old(self).emitted(),
    {
        match lame_flush(&mut self.enc, 7200) {
            Ok(out) => {
                let ghost o = out@;
                let ps = self.take_frames(out);
                assert(self.emitted().subrange(old(self).emitted().len() as int, self.emitted().len() as int) =~= o);
                Ok(ps)
            },
            Err(_) => {
                assert(self.pending() =~= old(self).pending());
                Err(CodecError::Mp3Encode)
            },
        }
    }

    /// `mp4a` with an `esds` of object type 0x6B (MPEG-1 audio) and no
    /// decoder-specific info; 16-bit samples.
    fn sample_entry(&self) -> (res: SampleEntry)
        ensures
            res.fourcc@ == seq![0x6du8, 0x70, 0x34, 0x61],
            res.config_boxes@ == esds_spec(0x6B, self.bitrate_spec(), None),
            res.channels == self.channels_spec(),
            res.sample_rate == self.sample_rate_spec(),
            res.sample_size == 16,
    {
        SampleEntry {
            fourcc: [0x6d, 0x70, 0x34, 0x61],  // "mp4a"
            // Object type 0x6B = MPEG-1 Audio (MP3); no DecoderSpecificInfo.
            config_boxes: esds_box(0x6B, self.bitrate, None),
            channels: self.channels,
            sample_rate: self.sample_rate,
            sample_size: 16,
        }
    }

    fn rfc6381_codec(&self) -> (res: String)
        ensures
            res@ == "mp4a.6B"@,
    {
        String::from_str("mp4a.6B")
    }

    fn name(&self) -> (res: &'static str)
        ensures
            res@ == "MP3"@,
    {
        "MP3"
    }
}

} // verus!
