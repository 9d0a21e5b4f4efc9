use hlsd::boxes::{full_box, mp4_box, Buf};
use hlsd::codec::{Packet, SampleEntry};
use hlsd::mux::Mp4Muxer;

fn be32_at(b: &[u8], at: usize) -> u32 {
    u32::from_be_bytes([b[at], b[at + 1], b[at + 2], b[at + 3]])
}

fn flac_entry() -> SampleEntry {
    SampleEntry {
        fourcc: *b"fLaC",
        config_boxes: vec![],
        channels: 2,
        sample_rate: 44_100,
        sample_size: 16,
    }
}

#[test]
fn mp4_box_prefixes_size_and_type() {
    assert_eq!(mp4_box(b"free", &[1, 2]), vec![0, 0, 0, 10, b'f', b'r', b'e', b'e', 1, 2]);
    assert_eq!(mp4_box(b"skip", &[]), vec![0, 0, 0, 8, b's', b'k', b'i', b'p']);
}

#[test]
fn full_box_writes_version_and_flags() {
    assert_eq!(
        full_box(b"tfhd", 1, 0x020304, &[9]),
        vec![0, 0, 0, 13, b't', b'f', b'h', b'd', 1, 2, 3, 4, 9]
    );
}

#[test]
fn concat_joins_in_order() {
    let a: &[u8] = &[1, 2];
    let b: &[u8] = &[];
    let c: &[u8] = &[3];
    assert_eq!(hlsd::boxes::concat(&[a, b, c]), vec![1, 2, 3]);
    assert_eq!(hlsd::boxes::concat(&[]), Vec::<u8>::new());
}

#[test]
fn buf_writes_big_endian() {
    let mut b = Buf::new();
    b.u8(1).u16(0x0203).u32(0x0405_0607).u64(0x0809_0a0b_0c0d_0e0f).bytes(&[0xaa]).zeros(2);
    let out = b.take();
    assert_eq!(
        out,
        vec![1, 2, 3, 4, 5, 6, 7, 8, 9, 0xa, 0xb, 0xc, 0xd, 0xe, 0xf, 0xaa, 0, 0]
    );
    assert!(b.take().is_empty());
}

#[test]
fn muxer_timescale_is_sample_rate() {
    assert_eq!(Mp4Muxer::new(flac_entry()).timescale(), 44_100);
}

#[test]
fn init_segment_is_ftyp_then_moov() {
    let init = Mp4Muxer::new(flac_entry()).init_segment();
    assert_eq!(be32_at(&init, 0), 36);
    assert_eq!(&init[4..8], b"ftyp");
    assert_eq!(&init[8..12], b"iso5");
    assert_eq!(&init[40..44], b"moov");
    assert_eq!(be32_at(&init, 36) as usize, init.len() - 36);
    // The sample entry fourcc and the timescale appear inside the moov.
    assert!(init.windows(4).any(|w| w == b"fLaC"));
    assert!(init.windows(4).any(|w| w == b"mvex"));
}

#[test]
fn media_segment_offsets_point_at_mdat_payload() {
    let m = Mp4Muxer::new(flac_entry());
    let packets = vec![
        Packet { data: vec![1, 2, 3], sample_count: 4096 },
        Packet { data: vec![4, 5], sample_count: 1000 },
    ];
    let seg = m.media_segment(7, 12_345, &packets);
    assert_eq!(be32_at(&seg, 0), 32);
    assert_eq!(&seg[4..8], b"styp");
    assert_eq!(&seg[36..40], b"moof");
    let moof_len = be32_at(&seg, 32) as usize;
    assert_eq!(be32_at(&seg, 52), 7);
    assert_eq!(&seg[84..88], b"tfdt");
    assert_eq!(u64::from_be_bytes(seg[92..100].try_into().unwrap()), 12_345);
    assert_eq!(be32_at(&seg, 112), 2);
    assert_eq!(moof_len, 88 + 8 * packets.len());
    // trun data offset: from the moof start to the first mdat payload byte.
    assert_eq!(be32_at(&seg, 116) as usize, moof_len + 8);
    let mdat_at = 32 + moof_len;
    assert_eq!(be32_at(&seg, mdat_at), 8 + 5);
    assert_eq!(&seg[mdat_at + 4..mdat_at + 8], b"mdat");
    assert_eq!(&seg[mdat_at + 8..], &[1, 2, 3, 4, 5]);
    assert_eq!(seg.len(), 32 + moof_len + 13);
}

#[test]
fn moof_differs_only_in_data_offset() {
    let m = Mp4Muxer::new(flac_entry());
    let ps = vec![
        Packet { data: vec![1, 2, 3], sample_count: 4096 },
        Packet { data: vec![4], sample_count: 100 },
    ];
    let a = m.moof(7, 1000, &ps, 112);
    let b = m.moof(7, 1000, &ps, -5);
    assert_eq!(a.len(), 88 + 8 * 2);
    assert_eq!(b.len(), a.len());
    assert_eq!(be32_at(&a, 84), 112);
    assert_eq!(be32_at(&b, 84), (-5i32) as u32);
    for i in (0..a.len()).filter(|i| !(84..88).contains(i)) {
        assert_eq!(a[i], b[i]);
    }
}
