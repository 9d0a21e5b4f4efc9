//! Fragmented-MP4 (CMAF) muxer. Produces one shared `init` segment and a
//! `moof`+`mdat` media segment per fragment, usable by both HLS (with
//! `EXT-X-MAP`) and MPEG-DASH.

use vstd::prelude::*;

use crate::boxes::{
    Buf, be16, be24, be32, be64, box_spec, concat, flat, full_box, full_box_spec, mp4_box,
    read_be32, zero_bytes,
};
use crate::codec::{Packet, SampleEntry};

verus! {

// -- four-character codes ---------------------------------------------------

pub open spec fn cc(a: u8, b: u8, c: u8, d: u8) -> Seq<u8> {
    seq![a, b, c, d]
}

pub open spec fn t_ftyp() -> Seq<u8> { cc(0x66, 0x74, 0x79, 0x70) }
pub open spec fn t_styp() -> Seq<u8> { cc(0x73, 0x74, 0x79, 0x70) }
pub open spec fn t_moov() -> Seq<u8> { cc(0x6d, 0x6f, 0x6f, 0x76) }
pub open spec fn t_mvhd() -> Seq<u8> { cc(0x6d, 0x76, 0x68, 0x64) }
pub open spec fn t_trak() -> Seq<u8> { cc(0x74, 0x72, 0x61, 0x6b) }
pub open spec fn t_tkhd() -> Seq<u8> { cc(0x74, 0x6b, 0x68, 0x64) }
pub open spec fn t_mdia() -> Seq<u8> { cc(0x6d, 0x64, 0x69, 0x61) }
pub open spec fn t_mdhd() -> Seq<u8> { cc(0x6d, 0x64, 0x68, 0x64) }
pub open spec fn t_hdlr() -> Seq<u8> { cc(0x68, 0x64, 0x6c, 0x72) }
pub open spec fn t_minf() -> Seq<u8> { cc(0x6d, 0x69, 0x6e, 0x66) }
pub open spec fn t_smhd() -> Seq<u8> { cc(0x73, 0x6d, 0x68, 0x64) }
pub open spec fn t_dinf() -> Seq<u8> { cc(0x64, 0x69, 0x6e, 0x66) }
pub open spec fn t_dref() -> Seq<u8> { cc(0x64, 0x72, 0x65, 0x66) }
pub open spec fn t_url() -> Seq<u8> { cc(0x75, 0x72, 0x6c, 0x20) }
pub open spec fn t_stbl() -> Seq<u8> { cc(0x73, 0x74, 0x62, 0x6c) }
pub open spec fn t_stsd() -> Seq<u8> { cc(0x73, 0x74, 0x73, 0x64) }
pub open spec fn t_stts() -> Seq<u8> { cc(0x73, 0x74, 0x74, 0x73) }
pub open spec fn t_stsc() -> Seq<u8> { cc(0x73, 0x74, 0x73, 0x63) }
pub open spec fn t_stsz() -> Seq<u8> { cc(0x73, 0x74, 0x73, 0x7a) }
pub open spec fn t_stco() -> Seq<u8> { cc(0x73, 0x74, 0x63, 0x6f) }
pub open spec fn t_mvex() -> Seq<u8> { cc(0x6d, 0x76, 0x65, 0x78) }
pub open spec fn t_trex() -> Seq<u8> { cc(0x74, 0x72, 0x65, 0x78) }
pub open spec fn t_moof() -> Seq<u8> { cc(0x6d, 0x6f, 0x6f, 0x66) }
pub open spec fn t_mfhd() -> Seq<u8> { cc(0x6d, 0x66, 0x68, 0x64) }
pub open spec fn t_traf() -> Seq<u8> { cc(0x74, 0x72, 0x61, 0x66) }
pub open spec fn t_tfhd() -> Seq<u8> { cc(0x74, 0x66, 0x68, 0x64) }
pub open spec fn t_tfdt() -> Seq<u8> { cc(0x74, 0x66, 0x64, 0x74) }
pub open spec fn t_trun() -> Seq<u8> { cc(0x74, 0x72, 0x75, 0x6e) }
pub open spec fn t_mdat() -> Seq<u8> { cc(0x6d, 0x64, 0x61, 0x74) }

// -- the layout of every box the muxer writes ---------------------------------

/// `ftyp`: major brand `iso5`, minor version 0x200, compatible brands
/// `iso5 iso6 mp41 dash cmfc`.
#[verifier::opaque]
pub open spec fn ftyp_spec() -> Seq<u8> {
    box_spec(
        t_ftyp(),
        cc(0x69, 0x73, 0x6f, 0x35) + be32(0x200) + cc(0x69, 0x73, 0x6f, 0x35) + cc(
            0x69,
            0x73,
            0x6f,
            0x36,
        ) + cc(0x6d, 0x70, 0x34, 0x31) + cc(0x64, 0x61, 0x73, 0x68) + cc(0x63, 0x6d, 0x66, 0x63),
    )
}

/// `styp`: major brand `msdh`, minor version 0, compatible brands
/// `msdh msix cmfs iso5`.
#[verifier::opaque]
pub open spec fn styp_spec() -> Seq<u8> {
    box_spec(
        t_styp(),
        cc(0x6d, 0x73, 0x64, 0x68) + be32(0) + cc(0x6d, 0x73, 0x64, 0x68) + cc(
            0x6d,
            0x73,
            0x69,
            0x78,
        ) + cc(0x63, 0x6d, 0x66, 0x73) + cc(0x69, 0x73, 0x6f, 0x35),
    )
}

/// The unity transformation matrix.
pub open spec fn matrix_spec() -> Seq<u8> {
    be32(0x1_0000) + be32(0) + be32(0) + be32(0) + be32(0x1_0000) + be32(0) + be32(0) + be32(0)
        + be32(0x4000_0000)
}

/// `mvhd`: media timescale, unknown duration, rate 1.0, volume 1.0, next track 2.
#[verifier::opaque]
pub open spec fn mvhd_spec(timescale: u32) -> Seq<u8> {
    full_box_spec(
        t_mvhd(),
        0,
        0,
        be32(0) + be32(0) + be32(timescale) + be32(0) + be32(0x1_0000) + be16(0x0100) + be16(0)
            + be32(0) + be32(0) + matrix_spec() + zero_bytes(24) + be32(2),
    )
}

/// `tkhd` of audio track 1 (enabled, in movie, in preview).
#[verifier::opaque]
pub open spec fn tkhd_spec() -> Seq<u8> {
    full_box_spec(
        t_tkhd(),
        0,
        7,
        be32(0) + be32(0) + be32(1) + be32(0) + be32(0) + be32(0) + be32(0) + be16(0) + be16(0)
            + be16(0x0100) + be16(0) + matrix_spec() + be32(0) + be32(0),
    )
}

/// `mdhd`: media timescale, language `und`.
#[verifier::opaque]
pub open spec fn mdhd_spec(timescale: u32) -> Seq<u8> {
    full_box_spec(
        t_mdhd(),
        0,
        0,
        be32(0) + be32(0) + be32(timescale) + be32(0) + be16(0x55C4) + be16(0),
    )
}

/// `hdlr`: handler `soun`, name "hlsd audio".
#[verifier::opaque]
pub open spec fn hdlr_spec() -> Seq<u8> {
    full_box_spec(
        t_hdlr(),
        0,
        0,
        be32(0) + cc(0x73, 0x6f, 0x75, 0x6e) + be32(0) + be32(0) + be32(0) + seq![
            0x68u8,
            0x6c,
            0x73,
            0x64,
            0x20,
            0x61,
            0x75,
            0x64,
            0x69,
            0x6f,
            0x00,
        ],
    )
}

/// `smhd`: balance 0.
#[verifier::opaque]
pub open spec fn smhd_spec() -> Seq<u8> {
    full_box_spec(t_smhd(), 0, 0, be16(0) + be16(0))
}

/// `dinf` holding a `dref` with one self-contained `url ` entry.
#[verifier::opaque]
pub open spec fn dinf_spec() -> Seq<u8> {
    box_spec(
        t_dinf(),
        full_box_spec(t_dref(), 0, 0, be32(1) + full_box_spec(t_url(), 0, 1, Seq::empty())),
    )
}

/// The audio sample entry: channel count, sample size, 16.16 sample rate and
/// the codec's own configuration boxes.
#[verifier::opaque]
pub open spec fn audio_sample_entry_spec(e: SampleEntry) -> Seq<u8> {
    box_spec(
        e.fourcc@,
        zero_bytes(6) + be16(1) + be32(0) + be32(0) + be16(e.channels) + be16(e.sample_size)
            + be16(0) + be16(0) + be32(e.sample_rate << 16u32) + e.config_boxes@,
    )
}

/// `stbl` with one sample description and empty sample tables.
#[verifier::opaque]
pub open spec fn stbl_spec(e: SampleEntry) -> Seq<u8> {
    box_spec(
        t_stbl(),
        full_box_spec(t_stsd(), 0, 0, be32(1) + audio_sample_entry_spec(e)) + full_box_spec(
            t_stts(),
            0,
            0,
            be32(0),
        ) + full_box_spec(t_stsc(), 0, 0, be32(0)) + full_box_spec(
            t_stsz(),
            0,
            0,
            be32(0) + be32(0),
        ) + full_box_spec(t_stco(), 0, 0, be32(0)),
    )
}

#[verifier::opaque]
pub open spec fn minf_spec(e: SampleEntry) -> Seq<u8> {
    box_spec(t_minf(), smhd_spec() + dinf_spec() + stbl_spec(e))
}

#[verifier::opaque]
pub open spec fn mdia_spec(e: SampleEntry) -> Seq<u8> {
    box_spec(t_mdia(), mdhd_spec(e.sample_rate) + hdlr_spec() + minf_spec(e))
}

#[verifier::opaque]
pub open spec fn trak_spec(e: SampleEntry) -> Seq<u8> {
    box_spec(t_trak(), tkhd_spec() + mdia_spec(e))
}

/// `mvex` with the `trex` defaults of track 1.
#[verifier::opaque]
pub open spec fn mvex_spec() -> Seq<u8> {
    box_spec(
        t_mvex(),
        full_box_spec(t_trex(), 0, 0, be32(1) + be32(1) + be32(0) + be32(0) + be32(0)),
    )
}

#[verifier::opaque]
pub open spec fn moov_spec(e: SampleEntry) -> Seq<u8> {
    box_spec(t_moov(), mvhd_spec(e.sample_rate) + trak_spec(e) + mvex_spec())
}

/// The initialization segment: `ftyp` then `moov`.
pub open spec fn init_segment_spec(e: SampleEntry) -> Seq<u8> {
    ftyp_spec() + moov_spec(e)
}

/// The per-sample entries of `trun`: duration and size of each packet, in order.
pub open spec fn trun_entries(ps: Seq<Packet>) -> Seq<u8>
    decreases ps.len(),
{
    if ps.len() == 0 {
        Seq::empty()
    } else {
        trun_entries(ps.drop_last()) + be32(ps.last().sample_count) + be32(
            ps.last().data@.len() as u32,
        )
    }
}

/// The packets' bytes, concatenated in order.
pub open spec fn packet_payload(ps: Seq<Packet>) -> Seq<u8>
    decreases ps.len(),
{
    if ps.len() == 0 {
        Seq::empty()
    } else {
        packet_payload(ps.drop_last()) + ps.last().data@
    }
}

pub open spec fn trun_spec(ps: Seq<Packet>, data_offset: i32) -> Seq<u8> {
    full_box_spec(
        t_trun(),
        0,
        0x301,
        be32(ps.len() as u32) + be32(data_offset as u32) + trun_entries(ps),
    )
}

/// `moof` of one fragment of track 1: sequence number, base decode time, and
/// one `trun` entry per packet.
#[verifier::opaque]
pub open spec fn moof_spec(sequence: u32, base_time: u64, ps: Seq<Packet>, data_offset: i32) -> Seq<
    u8,
> {
    box_spec(
        t_moof(),
        full_box_spec(t_mfhd(), 0, 0, be32(sequence)) + box_spec(
            t_traf(),
            full_box_spec(t_tfhd(), 0, 0x2_0000, be32(1)) + full_box_spec(
                t_tfdt(),
                1,
                0,
                be64(base_time),
            ) + trun_spec(ps, data_offset),
        ),
    )
}

#[verifier::opaque]
pub open spec fn mdat_spec(ps: Seq<Packet>) -> Seq<u8> {
    box_spec(t_mdat(), packet_payload(ps))
}

/// Length of the `moof` for `n` packets (whatever the data offset).
pub open spec fn moof_len(n: nat) -> nat {
    88 + 8 * n
}

/// The data offset written into `trun`: from the first byte of `moof` to the
/// first byte of the `mdat` payload.
pub open spec fn data_offset_spec(n: nat) -> i32 {
    (moof_len(n) + 8) as i32
}

/// A media segment: `styp`, `moof`, `mdat`.
pub open spec fn media_segment_spec(sequence: u32, base_time: u64, ps: Seq<Packet>) -> Seq<u8> {
    styp_spec() + moof_spec(sequence, base_time, ps, data_offset_spec(ps.len())) + mdat_spec(ps)
}

pub struct Mp4Muxer {
    timescale: u32,
    entry: SampleEntry,
}

impl Mp4Muxer {
    #[verifier::type_invariant]
    spec fn wf(self) -> bool {
        self.timescale == self.entry.sample_rate
    }

    /// The sample entry that describes the muxed track.
    pub closed spec fn entry(&self) -> SampleEntry {
        self.entry
    }

    pub fn new(entry: SampleEntry) -> (res: Self)
        ensures
            res.entry() == entry,
    {
        Self { timescale: entry.sample_rate, entry }
    }

    /// Media timescale (== sample rate). Manifests use it for durations.
    pub fn timescale(&self) -> (res: u32)
        ensures
            res == self.entry().sample_rate,
    {
        proof {
            use_type_invariant(self);
        }
        self.timescale
    }

    /// Channel count of the track.
    pub fn channels(&self) -> (res: u16)
        ensures
            res == self.entry().channels,
    {
        self.entry.channels
    }

    /// The initialization segment (`ftyp` + `moov`).
    pub fn init_segment(&self) -> (res: Vec<u8>)
        ensures
            res@ == init_segment_spec(self.entry()),
    {
        let f = self.ftyp();
        let m = self.moov();
        concat2(f.as_slice(), m.as_slice())
    }

    /// A media segment (`styp` + `moof` + `mdat`) for the given packets.
    pub fn media_segment(&self, sequence: u32, base_media_decode_time: u64, packets: &[Packet]) -> (res: Vec<u8>)
        ensures
            res@ == media_segment_spec(sequence, base_media_decode_time, packets@),
    {
        let mdat = self.mdat(packets);
        // The moof size does not depend on the data_offset value (a fixed
        // 4-byte field), so measure it once, then rebuild with the real offset.
        let probe = self.moof(sequence, base_media_decode_time, packets, 0);
        let pl: usize = probe.len();
        let data_offset: i32 = (pl as u64).wrapping_add(8) as i32;
        assert(data_offset == (pl + 8) as i32) by (bit_vector)
            requires
                data_offset == ((pl as u64).wrapping_add(8) as i32);
        proof {
            lemma_moof_len(sequence, base_media_decode_time, packets@, 0);
        }
        let moof = self.moof(sequence, base_media_decode_time, packets, data_offset);
        let s = self.styp();
        concat3(s.as_slice(), moof.as_slice(), mdat.as_slice())
    }
}


impl Mp4Muxer {
    // -- init boxes --------------------------------------------------------

    fn ftyp(&self) -> (res: Vec<u8>)
        ensures
            res@ == ftyp_spec(),
    {
        reveal(ftyp_spec);
        let mut b = Buf::new();
        b.bytes(&[0x69, 0x73, 0x6f, 0x35]).u32(0x0000_0200);  // "iso5"
        b.bytes(&[0x69, 0x73, 0x6f, 0x35]).bytes(&[0x69, 0x73, 0x6f, 0x36]);  // "iso5" "iso6"
        b.bytes(&[0x6d, 0x70, 0x34, 0x31]).bytes(&[0x64, 0x61, 0x73, 0x68]);  // "mp41" "dash"
        b.bytes(&[0x63, 0x6d, 0x66, 0x63]);  // "cmfc"
        let payload = b.take();
        mp4_box(&[0x66, 0x74, 0x79, 0x70], payload.as_slice())  // "ftyp"
    }

    fn styp(&self) -> (res: Vec<u8>)
        ensures
            res@ == styp_spec(),
    {
        reveal(styp_spec);
        let mut b = Buf::new();
        b.bytes(&[0x6d, 0x73, 0x64, 0x68]).u32(0);  // "msdh"
        b.bytes(&[0x6d, 0x73, 0x64, 0x68]).bytes(&[0x6d, 0x73, 0x69, 0x78]);  // "msdh" "msix"
        b.bytes(&[0x63, 0x6d, 0x66, 0x73]).bytes(&[0x69, 0x73, 0x6f, 0x35]);  // "cmfs" "iso5"
        let payload = b.take();
        mp4_box(&[0x73, 0x74, 0x79, 0x70], payload.as_slice())  // "styp"
    }

    fn moov(&self) -> (res: Vec<u8>)
        ensures
            res@ == moov_spec(self.entry()),
    {
        reveal(moov_spec);
        proof {
            use_type_invariant(self);
        }
        let a = self.mvhd();
        let t = self.trak();
        let x = self.mvex();
        let payload = concat3(a.as_slice(), t.as_slice(), x.as_slice());
        mp4_box(&[0x6d, 0x6f, 0x6f, 0x76], payload.as_slice())  // "moov"
    }

    fn mvhd(&self) -> (res: Vec<u8>)
        ensures
            res@ == mvhd_spec(self.timescale),
    {
        reveal(mvhd_spec);
        let mut b = Buf::new();
        b.u32(0).u32(0)  // creation, modification
        .u32(self.timescale).u32(0)  // duration (unknown / fragmented)
        .u32(0x0001_0000)  // rate 1.0
        .u16(0x0100)  // volume 1.0
        .u16(0)  // reserved
        .u32(0).u32(0);  // reserved
        write_matrix(&mut b);
        b.zeros(24);  // pre_defined
        b.u32(2);  // next_track_ID
        let payload = b.take();
        full_box(&[0x6d, 0x76, 0x68, 0x64], 0, 0, payload.as_slice())  // "mvhd"
    }

    fn trak(&self) -> (res: Vec<u8>)
        ensures
            res@ == trak_spec(self.entry()),
    {
        reveal(trak_spec);
        let h = self.tkhd();
        let m = self.mdia();
        let payload = concat2(h.as_slice(), m.as_slice());
        mp4_box(&[0x74, 0x72, 0x61, 0x6b], payload.as_slice())  // "trak"
    }

    fn tkhd(&self) -> (res: Vec<u8>)
        ensures
            res@ == tkhd_spec(),
    {
        reveal(tkhd_spec);
        let mut b = Buf::new();
        b.u32(0).u32(0)  // creation, modification
        .u32(1)  // track_ID
        .u32(0)  // reserved
        .u32(0)  // duration
        .u32(0).u32(0)  // reserved
        .u16(0)  // layer
        .u16(0)  // alternate_group
        .u16(0x0100)  // volume (audio)
        .u16(0);  // reserved
        write_matrix(&mut b);
        b.u32(0).u32(0);  // width, height
        let payload = b.take();
        full_box(&[0x74, 0x6b, 0x68, 0x64], 0, 0x0000_0007, payload.as_slice())  // "tkhd"
    }

    fn mdia(&self) -> (res: Vec<u8>)
        ensures
            res@ == mdia_spec(self.entry()),
    {
        reveal(mdia_spec);
        proof {
            use_type_invariant(self);
        }
        let h = self.mdhd();
        let r = self.hdlr();
        let m = self.minf();
        let payload = concat3(h.as_slice(), r.as_slice(), m.as_slice());
        mp4_box(&[0x6d, 0x64, 0x69, 0x61], payload.as_slice())  // "mdia"
    }

    fn mdhd(&self) -> (res: Vec<u8>)
        ensures
            res@ == mdhd_spec(self.timescale),
    {
        reveal(mdhd_spec);
        let mut b = Buf::new();
        b.u32(0).u32(0)  // creation, modification
        .u32(self.timescale).u32(0)  // duration
        .u16(0x55C4)  // language 'und'
        .u16(0);  // pre_defined
        let payload = b.take();
        full_box(&[0x6d, 0x64, 0x68, 0x64], 0, 0, payload.as_slice())  // "mdhd"
    }

    fn hdlr(&self) -> (res: Vec<u8>)
        ensures
            res@ == hdlr_spec(),
    {
        reveal(hdlr_spec);
        let mut b = Buf::new();
        b.u32(0)  // pre_defined
        .bytes(&[0x73, 0x6f, 0x75, 0x6e])  // "soun"
        .u32(0).u32(0).u32(0)  // reserved
        .bytes(&[0x68, 0x6c, 0x73, 0x64, 0x20, 0x61, 0x75, 0x64, 0x69, 0x6f, 0x00]);  // "hlsd audio\0"
        let payload = b.take();
        full_box(&[0x68, 0x64, 0x6c, 0x72], 0, 0, payload.as_slice())  // "hdlr"
    }

    fn minf(&self) -> (res: Vec<u8>)
        ensures
            res@ == minf_spec(self.entry()),
    {
        reveal(minf_spec);
        let s = self.smhd();
        let d = self.dinf();
        let t = self.stbl();
        let payload = concat3(s.as_slice(), d.as_slice(), t.as_slice());
        mp4_box(&[0x6d, 0x69, 0x6e, 0x66], payload.as_slice())  // "minf"
    }

    fn smhd(&self) -> (res: Vec<u8>)
        ensures
            res@ == smhd_spec(),
    {
        reveal(smhd_spec);
        let mut b = Buf::new();
        b.u16(0).u16(0);  // balance, reserved
        let payload = b.take();
        full_box(&[0x73, 0x6d, 0x68, 0x64], 0, 0, payload.as_slice())  // "smhd"
    }

    fn dinf(&self) -> (res: Vec<u8>)
        ensures
            res@ == dinf_spec(),
    {
        reveal(dinf_spec);
        // dref with a single self-contained url entry (flags 0x1 = data in file).
        let url = full_box(&[0x75, 0x72, 0x6c, 0x20], 0, 0x0000_0001, &[]);  // "url "
        let mut dref_body = Buf::new();
        dref_body.u32(1);  // entry_count
        dref_body.bytes(url.as_slice());
        let body = dref_body.take();
        let dref = full_box(&[0x64, 0x72, 0x65, 0x66], 0, 0, body.as_slice());  // "dref"
        mp4_box(&[0x64, 0x69, 0x6e, 0x66], dref.as_slice())  // "dinf"
    }

    fn stbl(&self) -> (res: Vec<u8>)
        ensures
            res@ == stbl_spec(self.entry()),
    {
        reveal(stbl_spec);
        let ase = self.audio_sample_entry();
        let mut body = Buf::new();
        body.u32(1);  // entry_count
        body.bytes(ase.as_slice());
        let stsd_body = body.take();
        let stsd = full_box(&[0x73, 0x74, 0x73, 0x64], 0, 0, stsd_body.as_slice());  // "stsd"
        let mut zb = Buf::new();
        zb.u32(0);
        let zero4 = zb.take();
        let stts = full_box(&[0x73, 0x74, 0x74, 0x73], 0, 0, zero4.as_slice());  // "stts"
        let stsc = full_box(&[0x73, 0x74, 0x73, 0x63], 0, 0, zero4.as_slice());  // "stsc"
        let mut stsz_body = Buf::new();
        stsz_body.u32(0).u32(0);  // sample_size, sample_count
        let stsz_payload = stsz_body.take();
        let stsz = full_box(&[0x73, 0x74, 0x73, 0x7a], 0, 0, stsz_payload.as_slice());  // "stsz"
        let stco = full_box(&[0x73, 0x74, 0x63, 0x6f], 0, 0, zero4.as_slice());  // "stco"
        let mut all = Buf::new();
        all.bytes(stsd.as_slice()).bytes(stts.as_slice()).bytes(stsc.as_slice());
        all.bytes(stsz.as_slice()).bytes(stco.as_slice());
        let payload = all.take();
        mp4_box(&[0x73, 0x74, 0x62, 0x6c], payload.as_slice())  // "stbl"
    }

    fn audio_sample_entry(&self) -> (res: Vec<u8>)
        ensures
            res@ == audio_sample_entry_spec(self.entry()),
    {
        reveal(audio_sample_entry_spec);
        let mut b = Buf::new();
        b.zeros(6)  // reserved
        .u16(1)  // data_reference_index
        .u32(0).u32(0)  // reserved (version/revision/vendor)
        .u16(self.entry.channels).u16(self.entry.sample_size).u16(0)  // pre_defined
        .u16(0)  // reserved
        .u32(self.entry.sample_rate << 16u32);  // 16.16 fixed
        b.bytes(self.entry.config_boxes.as_slice());
        let payload = b.take();
        mp4_box(&self.entry.fourcc, payload.as_slice())
    }

    fn mvex(&self) -> (res: Vec<u8>)
        ensures
            res@ == mvex_spec(),
    {
        reveal(mvex_spec);
        let mut b = Buf::new();
        b.u32(1)  // track_ID
        .u32(1)  // default_sample_description_index
        .u32(0)  // default_sample_duration
        .u32(0)  // default_sample_size
        .u32(0);  // default_sample_flags
        let payload = b.take();
        let trex = full_box(&[0x74, 0x72, 0x65, 0x78], 0, 0, payload.as_slice());  // "trex"
        mp4_box(&[0x6d, 0x76, 0x65, 0x78], trex.as_slice())  // "mvex"
    }

    // -- media boxes -------------------------------------------------------

    /// The `moof` of one fragment: sequence number, base decode time, one
    /// `trun` entry per packet, and `data_offset` as the `trun` data offset.
    pub fn moof(&self, sequence: u32, base_time: u64, packets: &[Packet], data_offset: i32) -> (res: Vec<u8>)
        ensures
            res@ == moof_spec(sequence, base_time, packets@, data_offset),
    {
        reveal(moof_spec);
        let mut mb = Buf::new();
        mb.u32(sequence);
        let mfhd_body = mb.take();
        let mfhd = full_box(&[0x6d, 0x66, 0x68, 0x64], 0, 0, mfhd_body.as_slice());  // "mfhd"
        // default-base-is-moof, track_ID=1
        let mut ob = Buf::new();
        ob.u32(1);
        let one4 = ob.take();
        let tfhd = full_box(&[0x74, 0x66, 0x68, 0x64], 0, 0x0002_0000, one4.as_slice());  // "tfhd"
        let mut tb = Buf::new();
        tb.u64(base_time);
        let tfdt_body = tb.take();
        let tfdt = full_box(&[0x74, 0x66, 0x64, 0x74], 1, 0, tfdt_body.as_slice());  // "tfdt"
        // trun flags: data-offset(0x1) | sample-duration(0x100) | sample-size(0x200)
        let mut b = Buf::new();
        b.u32(packets.len() as u32);
        b.u32(data_offset as u32);
        let ghost head = b@;
        let mut i: usize = 0;
        while i < packets.len()
            invariant
                i <= packets.len(),
                b@ == head + trun_entries(packets@.subrange(0, i as int)),
            decreases packets.len() - i,
        {
            let p = &packets[i];
            b.u32(p.sample_count);
            b.u32(p.data.len() as u32);
            i = i + 1;
            assert(packets@.subrange(0, i as int).drop_last() == packets@.subrange(0, i - 1));
        }
        assert(packets@.subrange(0, packets.len() as int) == packets@);
        let trun_body = b.take();
        let trun = full_box(&[0x74, 0x72, 0x75, 0x6e], 0, 0x0000_0301, trun_body.as_slice());  // "trun"
        let traf_payload = concat3(tfhd.as_slice(), tfdt.as_slice(), trun.as_slice());
        let traf = mp4_box(&[0x74, 0x72, 0x61, 0x66], traf_payload.as_slice());  // "traf"
        let payload = concat2(mfhd.as_slice(), traf.as_slice());
        mp4_box(&[0x6d, 0x6f, 0x6f, 0x66], payload.as_slice())  // "moof"
    }

    fn mdat(&self, packets: &[Packet]) -> (res: Vec<u8>)
        ensures
            res@ == mdat_spec(packets@),
    {
        reveal(mdat_spec);
        let mut payload: Vec<u8> = Vec::new();
        let mut i: usize = 0;
        while i < packets.len()
            invariant
                i <= packets.len(),
                payload@ == packet_payload(packets@.subrange(0, i as int)),
            decreases packets.len() - i,
        {
            crate::boxes::push_all(&mut payload, packets[i].data.as_slice());
            i = i + 1;
            assert(packets@.subrange(0, i as int).drop_last() == packets@.subrange(0, i - 1));
        }
        assert(packets@.subrange(0, packets.len() as int) == packets@);
        mp4_box(&[0x6d, 0x64, 0x61, 0x74], payload.as_slice())  // "mdat"
    }
}

/// Appends the unity transform matrix.
fn write_matrix(b: &mut Buf)
    ensures
        final(b)@ == old(b)@ + matrix_spec(),
{
    b.u32(0x0001_0000).u32(0).u32(0);
    b.u32(0).u32(0x0001_0000).u32(0);
    b.u32(0).u32(0).u32(0x4000_0000);
}

fn concat2(a: &[u8], b: &[u8]) -> (res: Vec<u8>)
    ensures
        res@ == a@ + b@,
{
    let arr = [a, b];
    let res = concat(&arr);
    assert(arr@.map_values(|p: &[u8]| p@) =~= seq![a@, b@]);
    proof { lemma_flat2(a@, b@); }
    res
}

fn concat3(a: &[u8], b: &[u8], c: &[u8]) -> (res: Vec<u8>)
    ensures
        res@ == a@ + b@ + c@,
{
    let arr = [a, b, c];
    let res = concat(&arr);
    assert(arr@.map_values(|p: &[u8]| p@) =~= seq![a@, b@, c@]);
    proof { lemma_flat3(a@, b@, c@); }
    res
}

proof fn lemma_flat2(a: Seq<u8>, b: Seq<u8>)
    ensures
        flat(seq![a, b]) == a + b,
{
    assert(seq![a, b].drop_last() =~= seq![a]);
    let e = Seq::<Seq<u8>>::empty();
    assert(seq![a].drop_last() =~= e);
    assert(flat(e) == Seq::<u8>::empty());
    assert(seq![a].last() == a);
    assert(flat(seq![a]) == flat(e) + a);
    assert(flat(seq![a]) =~= a);
}

proof fn lemma_flat3(a: Seq<u8>, b: Seq<u8>, c: Seq<u8>)
    ensures
        flat(seq![a, b, c]) == a + b + c,
{
    assert(seq![a, b, c].drop_last() =~= seq![a, b]);
    lemma_flat2(a, b);
}

/// `trun` carries eight bytes per packet.
pub proof fn lemma_trun_entries_len(ps: Seq<Packet>)
    ensures
        trun_entries(ps).len() == 8 * ps.len(),
    decreases ps.len(),
{
    if ps.len() > 0 {
        lemma_trun_entries_len(ps.drop_last());
    }
}

/// The bytes of a `moof` before its `trun` data offset field: every header
/// and field up to and including the `trun` sample count (84 bytes).
pub open spec fn moof_head(sequence: u32, base_time: u64, ps: Seq<Packet>) -> Seq<u8> {
    let e = trun_entries(ps).len();
    be32((88 + e) as u32) + t_moof() + full_box_spec(t_mfhd(), 0, 0, be32(sequence)) + be32(
        (64 + e) as u32,
    ) + t_traf() + full_box_spec(t_tfhd(), 0, 0x2_0000, be32(1)) + full_box_spec(
        t_tfdt(),
        1,
        0,
        be64(base_time),
    ) + be32((20 + e) as u32) + t_trun() + seq![0u8] + be24(0x301) + be32(ps.len() as u32)
}

/// A `moof` is its head, then the data offset, then the `trun` entries.
pub proof fn lemma_moof_parts(sequence: u32, base_time: u64, ps: Seq<Packet>, data_offset: i32)
    ensures
        moof_spec(sequence, base_time, ps, data_offset) == moof_head(sequence, base_time, ps) + be32(
            data_offset as u32,
        ) + trun_entries(ps),
        moof_head(sequence, base_time, ps).len() == 84,
{
    reveal(moof_spec);
    lemma_trun_entries_len(ps);
    let e = trun_entries(ps);
    let trun = trun_spec(ps, data_offset);
    assert(trun =~= be32((20 + e.len()) as u32) + t_trun() + seq![0u8] + be24(0x301) + be32(
        ps.len() as u32,
    ) + be32(data_offset as u32) + e);
    let traf_payload = full_box_spec(t_tfhd(), 0, 0x2_0000, be32(1)) + full_box_spec(
        t_tfdt(),
        1,
        0,
        be64(base_time),
    ) + trun;
    assert(traf_payload.len() == 56 + e.len());
    let traf = box_spec(t_traf(), traf_payload);
    let payload = full_box_spec(t_mfhd(), 0, 0, be32(sequence)) + traf;
    assert(payload.len() == 80 + e.len());
    assert(moof_spec(sequence, base_time, ps, data_offset) =~= moof_head(sequence, base_time, ps)
        + be32(data_offset as u32) + e);
}

/// Two `moof`s of the same fragment that differ in their data offset differ
/// only in the four bytes of that field, at offset 84: they have the same
/// length and agree on every other byte.
pub proof fn law_moof_differs_only_in_data_offset(
    sequence: u32,
    base_time: u64,
    ps: Seq<Packet>,
    d1: i32,
    d2: i32,
)
    ensures
        ({
            let a = moof_spec(sequence, base_time, ps, d1);
            let b = moof_spec(sequence, base_time, ps, d2);
            &&& a.len() == b.len()
            &&& a.len() == moof_len(ps.len())
            &&& a.subrange(84, 88) == be32(d1 as u32)
            &&& b.subrange(84, 88) == be32(d2 as u32)
            &&& forall|i: int| 0 <= i < a.len() && !(84 <= i < 88) ==> #[trigger] a[i] == b[i]
        }),
{
    lemma_moof_parts(sequence, base_time, ps, d1);
    lemma_moof_parts(sequence, base_time, ps, d2);
    lemma_moof_len(sequence, base_time, ps, d1);
    let a = moof_spec(sequence, base_time, ps, d1);
    let b = moof_spec(sequence, base_time, ps, d2);
    let h = moof_head(sequence, base_time, ps);
    let e = trun_entries(ps);
    assert(a.subrange(84, 88) =~= be32(d1 as u32));
    assert(b.subrange(84, 88) =~= be32(d2 as u32));
    assert forall|i: int| 0 <= i < a.len() && !(84 <= i < 88) implies #[trigger] a[i] == b[i] by {
        if i < 84 {
            assert(a[i] == h[i]);
            assert(b[i] == h[i]);
        } else {
            assert(a[i] == e[i - 88]);
            assert(b[i] == e[i - 88]);
        }
    }
}

/// The length of a `moof` depends only on the number of packets.
pub proof fn lemma_moof_len(sequence: u32, base_time: u64, ps: Seq<Packet>, data_offset: i32)
    ensures
        moof_spec(sequence, base_time, ps, data_offset).len() == moof_len(ps.len()),
{
    reveal(moof_spec);
    lemma_trun_entries_len(ps);
}

} // verus!

verus! {

/// Reading back a big-endian 32-bit field gives the value that was written.
pub proof fn lemma_read_be32(v: u32)
    ensures
        read_be32(be32(v)) == v,
{
    let b0 = (v >> 24u32) as u8;
    let b1 = (v >> 16u32) as u8;
    let b2 = (v >> 8u32) as u8;
    let b3 = v as u8;
    assert(b0 as int * 0x100_0000 + b1 as int * 0x1_0000 + b2 as int * 0x100 + b3 as int == v)
        by (bit_vector)
        requires
            b0 == (v >> 24u32) as u8,
            b1 == (v >> 16u32) as u8,
            b2 == (v >> 8u32) as u8,
            b3 == v as u8,
    ;
}

/// Every box starts with its own total length, read as a big-endian 32-bit
/// value, followed by its type and then exactly its payload (whenever the
/// length fits in the 32-bit size field).
pub proof fn law_box_header(fourcc: Seq<u8>, payload: Seq<u8>)
    requires
        fourcc.len() == 4,
        8 + payload.len() <= u32::MAX,
    ensures
        box_spec(fourcc, payload).len() == 8 + payload.len(),
        read_be32(box_spec(fourcc, payload).subrange(0, 4)) == 8 + payload.len(),
        box_spec(fourcc, payload).subrange(4, 8) == fourcc,
        box_spec(fourcc, payload).subrange(8, 8 + payload.len() as int) == payload,
{
    let b = box_spec(fourcc, payload);
    let v = (8 + payload.len()) as u32;
    lemma_read_be32(v);
    assert(b.subrange(0, 4) =~= be32(v));
    assert(b.subrange(4, 8) =~= fourcc);
    assert(b.subrange(8, 8 + payload.len() as int) =~= payload);
}

/// The initialization segment is an `ftyp` box of 36 bytes followed by the
/// `moov` box.
pub proof fn law_init_segment_layout(e: SampleEntry)
    ensures
        init_segment_spec(e).subrange(0, 36) == ftyp_spec(),
        read_be32(init_segment_spec(e).subrange(0, 4)) == 36,
        init_segment_spec(e).subrange(4, 8) == t_ftyp(),
        init_segment_spec(e).subrange(40, 44) == t_moov(),
{
    reveal(ftyp_spec);
    reveal(moov_spec);
    let f = ftyp_spec();
    let init = init_segment_spec(e);
    assert(f.len() == 36);
    lemma_read_be32(36);
    assert(init.subrange(0, 36) =~= f);
    assert(init.subrange(0, 4) =~= be32(36));
    assert(init.subrange(4, 8) =~= t_ftyp());
    assert(init.subrange(40, 44) =~= t_moov());
}

/// In a media segment, the data offset written into `trun`, counted from the
/// first byte of `moof` as `default-base-is-moof` prescribes, points exactly at
/// the first byte of the `mdat` payload, which holds the packets' bytes in
/// order. The segment is `styp` (32 bytes), then `moof`, then `mdat`.
pub proof fn law_media_segment_data_offset(sequence: u32, base_time: u64, ps: Seq<Packet>)
    requires
        moof_len(ps.len()) + 8 + packet_payload(ps).len() <= i32::MAX,
    ensures
        ({
            let seg = media_segment_spec(sequence, base_time, ps);
            let m = moof_len(ps.len()) as int;
            let off = read_be32(seg.subrange(116, 120));
            let n = packet_payload(ps).len() as int;
            &&& seg.subrange(0, 32) == styp_spec()
            &&& seg.subrange(36, 40) == t_moof()
            &&& read_be32(seg.subrange(32, 36)) == m
            &&& seg.subrange(32 + m + 4, 32 + m + 8) == t_mdat()
            &&& read_be32(seg.subrange(32 + m, 32 + m + 4)) == n + 8
            &&& off == m + 8
            &&& seg.len() == 32 + off + n
            &&& seg.subrange(32 + off, 32 + off + n) == packet_payload(ps)
        }),
{
    reveal(styp_spec);
    reveal(moof_spec);
    reveal(mdat_spec);
    let n_ps = ps.len();
    let d = data_offset_spec(n_ps);
    let seg = media_segment_spec(sequence, base_time, ps);
    let st = styp_spec();
    let mf = moof_spec(sequence, base_time, ps, d);
    let md = mdat_spec(ps);
    let pay = packet_payload(ps);
    let m = moof_len(n_ps) as int;
    lemma_moof_len(sequence, base_time, ps, d);
    lemma_trun_entries_len(ps);
    assert(st.len() == 32);
    assert(seg == st + mf + md);
    assert(mf.len() == m);
    assert(d as int == m + 8);
    assert(d as u32 == m + 8);
    // the moof header
    let mv = (8 + (mf.len() - 8)) as u32;
    lemma_read_be32(mv);
    assert(seg.subrange(32, 36) =~= mf.subrange(0, 4));
    assert(mf.subrange(0, 4) =~= be32(mv));
    assert(seg.subrange(36, 40) =~= t_moof());
    // the data offset field inside trun
    let traf_payload = full_box_spec(t_tfhd(), 0, 0x2_0000, be32(1)) + full_box_spec(
        t_tfdt(),
        1,
        0,
        be64(base_time),
    ) + trun_spec(ps, d);
    assert(mf =~= be32(mv) + t_moof() + (full_box_spec(t_mfhd(), 0, 0, be32(sequence)) + box_spec(
        t_traf(),
        traf_payload,
    )));
    assert(mf.subrange(84, 88) =~= be32(d as u32));
    lemma_read_be32(d as u32);
    assert(seg.subrange(116, 120) =~= mf.subrange(84, 88));
    // the mdat header and payload
    let dv = (8 + pay.len()) as u32;
    lemma_read_be32(dv);
    assert(seg.subrange(32 + m, 32 + m + 4) =~= be32(dv));
    assert(seg.subrange(32 + m + 4, 32 + m + 8) =~= t_mdat());
    assert(seg.subrange(32 + m + 8, 32 + m + 8 + pay.len()) =~= pay);
}

/// Entry `i` of the `trun` sample table is packet `i`'s duration then its
/// size.
proof fn lemma_trun_entry_at(ps: Seq<Packet>, i: int)
    requires
        0 <= i < ps.len(),
    ensures
        trun_entries(ps).subrange(8 * i, 8 * i + 8) == be32(ps[i].sample_count) + be32(
            ps[i].data@.len() as u32,
        ),
    decreases ps.len(),
{
    let init = ps.drop_last();
    lemma_trun_entries_len(init);
    let t = trun_entries(ps);
    if i == ps.len() - 1 {
        assert(t.subrange(8 * i, 8 * i + 8) =~= be32(ps.last().sample_count) + be32(
            ps.last().data@.len() as u32,
        ));
    } else {
        lemma_trun_entry_at(init, i);
        assert(init[i] == ps[i]);
        assert(t.subrange(8 * i, 8 * i + 8) =~= trun_entries(init).subrange(8 * i, 8 * i + 8));
    }
}

/// In a media segment the `trun` sample table (flags 0x301: duration, then
/// size) starts at byte 120 and lists every packet in order, eight bytes
/// each: first its duration in samples, then its size in bytes, both
/// big-endian.
pub proof fn law_trun_sample_table(sequence: u32, base_time: u64, ps: Seq<Packet>)
    ensures
        forall|i: int|
            #![trigger ps[i]]
            0 <= i < ps.len() ==> media_segment_spec(sequence, base_time, ps).subrange(
                120 + 8 * i,
                128 + 8 * i,
            ) == be32(ps[i].sample_count) + be32(ps[i].data@.len() as u32),
{
    reveal(styp_spec);
    let d = data_offset_spec(ps.len());
    lemma_moof_parts(sequence, base_time, ps, d);
    lemma_trun_entries_len(ps);
    let st = styp_spec();
    assert(st.len() == 32);
    let seg = media_segment_spec(sequence, base_time, ps);
    let e = trun_entries(ps);
    let head = moof_head(sequence, base_time, ps);
    assert(seg == st + (head + be32(d as u32) + e) + mdat_spec(ps));
    assert forall|i: int| #![trigger ps[i]] 0 <= i < ps.len() implies seg.subrange(
        120 + 8 * i,
        128 + 8 * i,
    ) == be32(ps[i].sample_count) + be32(ps[i].data@.len() as u32) by {
        lemma_trun_entry_at(ps, i);
        assert(seg.subrange(120 + 8 * i, 128 + 8 * i) =~= e.subrange(8 * i, 8 * i + 8));
    }
}

/// The audio sample entry holds, after its 8-byte box header, six reserved
/// bytes, the data reference index and eight reserved bytes, the channel
/// count at bytes 24..26 and the sample size at bytes 26..28, then the sample
/// rate in 16.16 fixed point at bytes 32..36 (ISO/IEC 14496-12
/// `AudioSampleEntry`); its type is the codec's four-character code.
pub proof fn law_audio_sample_entry_fields(e: SampleEntry)
    ensures
        ({
            let b = audio_sample_entry_spec(e);
            &&& b.subrange(4, 8) == e.fourcc@
            &&& b.subrange(24, 26) == be16(e.channels)
            &&& b.subrange(26, 28) == be16(e.sample_size)
            &&& b.subrange(32, 36) == be32(e.sample_rate << 16u32)
        }),
{
    reveal(audio_sample_entry_spec);
    let b = audio_sample_entry_spec(e);
    assert(b.subrange(4, 8) =~= e.fourcc@);
    assert(b.subrange(24, 26) =~= be16(e.channels));
    assert(b.subrange(26, 28) =~= be16(e.sample_size));
    assert(b.subrange(32, 36) =~= be32(e.sample_rate << 16u32));
}

} // verus!
