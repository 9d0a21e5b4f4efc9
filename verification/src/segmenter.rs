//! The decisions of the live pipeline: how PCM bytes become samples, how much
//! goes into a segment, how segments are numbered and timed, which ones fall
//! out of the sliding window, and which manifests are written. Reading the
//! input and writing files is the caller's part.

use vstd::prelude::*;

use crate::codec::{Packet, SampleEntry};
use crate::config::{CodecKind, Config};
use crate::mux::{Mp4Muxer, init_segment_spec, media_segment_spec};
use crate::playlist::{
    ManifestParams, SegmentRef, dash_spec, total_ts, hls_master_spec, hls_spec, render_dash, render_hls,
    render_hls_master,
};
use crate::text::{dec_pad, lemma_dec_value_dec_pad, push_dec_pad, push_str};

verus! {

pub const INIT_NAME: &'static str = "init.mp4";

pub const HLS_MEDIA: &'static str = "stream.m3u8";

pub const HLS_MASTER: &'static str = "master.m3u8";

pub const DASH_NAME: &'static str = "stream.mpd";

// ---------------------------------------------------------------------------
// PCM input
// ---------------------------------------------------------------------------

/// The signed 16-bit sample of two little-endian bytes.
pub open spec fn le16(lo: u8, hi: u8) -> i16 {
    (((hi as u16) << 8u16) | (lo as u16)) as i16
}

/// The samples of a little-endian byte string, one per whole pair.
pub open spec fn le_samples(bytes: Seq<u8>) -> Seq<i16> {
    Seq::new(bytes.len() / 2, |i: int| le16(bytes[2 * i], bytes[2 * i + 1]))
}

/// The carried byte, as a byte string.
pub open spec fn carry_bytes(carry: Option<u8>) -> Seq<u8> {
    match carry {
        Some(b) => seq![b],
        None => Seq::empty(),
    }
}

/// Decoding a chunk after a carried byte: the samples of the carried byte
/// followed by the chunk, and the odd byte left over, if any.
pub open spec fn decode_chunk(carry: Option<u8>, chunk: Seq<u8>) -> (Seq<i16>, Option<u8>) {
    let all = carry_bytes(carry) + chunk;
    (le_samples(all), if all.len() % 2 == 1 {
        Some(all.last())
    } else {
        None
    })
}

/// Reads raw s16le bytes and yields interleaved i16 samples in batches,
/// carrying a leftover odd byte across reads.
pub struct PcmReader {
    channels: usize,
    carry: Option<u8>,
    samples: Vec<i16>,
    /// Every byte pushed so far, in order.
    pushed: Ghost<Seq<u8>>,
    /// Every sample handed out in a batch so far, in order.
    taken: Ghost<Seq<i16>>,
}

/// The samples of all bytes pushed, as handed out and still buffered: what
/// was handed out followed by what is buffered is the decoded byte stream,
/// and the carried byte is its odd trailing byte.
pub open spec fn reader_in_step(taken: Seq<i16>, buffered: Seq<i16>, carry: Option<u8>, pushed: Seq<u8>) -> bool {
    &&& taken + buffered == decode_chunk(None, pushed).0
    &&& carry == decode_chunk(None, pushed).1
}

/// `s` cut to whole frames of `channels` samples.
pub open spec fn whole_frames(s: Seq<i16>, channels: int) -> Seq<i16> {
    s.take((s.len() as int) - (s.len() as int) % channels)
}

impl PcmReader {
    pub closed spec fn channels_spec(&self) -> usize {
        self.channels
    }

    /// The byte held back from the previous chunk.
    pub closed spec fn carry(&self) -> Option<u8> {
        self.carry
    }

    /// Samples decoded but not yet handed out in a batch.
    pub closed spec fn buffered(&self) -> Seq<i16> {
        self.samples@
    }

    /// Every byte pushed so far, in order.
    pub closed spec fn pushed(&self) -> Seq<u8> {
        self.pushed@
    }

    /// Every sample handed out in a batch so far, in order.
    pub closed spec fn taken(&self) -> Seq<i16> {
        self.taken@
    }

    /// Nothing lost, duplicated or reordered so far: the samples handed out,
    /// then those buffered, are the decoded bytes pushed.
    pub open spec fn in_step(&self) -> bool {
        reader_in_step(self.taken(), self.buffered(), self.carry(), self.pushed())
    }

    pub fn new(channels: u16) -> (res: Self)
        ensures
            res.channels_spec() == channels as usize,
            res.carry().is_none(),
            res.buffered() == Seq::<i16>::empty(),
            res.pushed() == Seq::<u8>::empty(),
            res.taken() == Seq::<i16>::empty(),
            res.in_step(),
    {
        let r = Self {
            channels: channels as usize,
            carry: None,
            samples: Vec::new(),
            pushed: Ghost(Seq::empty()),
            taken: Ghost(Seq::empty()),
        };
        assert(le_samples(Seq::<u8>::empty()) =~= Seq::<i16>::empty());
        assert(carry_bytes(None) + Seq::<u8>::empty() =~= Seq::<u8>::empty());
        r
    }

    /// Samples decoded but not yet handed out.
    pub fn buffered_len(&self) -> (res: usize)
        ensures
            res == self.buffered().len(),
    {
        self.samples.len()
    }

    /// Decodes one chunk read from the input (after the carried byte) and
    /// buffers its samples.
    pub fn push_bytes(&mut self, chunk: &[u8])
        ensures
            final(self).channels_spec() == old(self).channels_spec(),
            final(self).buffered() == old(self).buffered() + decode_chunk(old(self).carry(), chunk@).0,
            final(self).carry() == decode_chunk(old(self).carry(), chunk@).1,
            final(self).pushed() == old(self).pushed() + chunk@,
            final(self).taken() == old(self).taken(),
            old(self).in_step() ==> final(self).in_step(),
    {
        let mut out: Vec<i16> = Vec::new();
        std::mem::swap(&mut out, &mut self.samples);
        self.decode_into(chunk, &mut out);
        self.samples = out;
        proof {
            law_decode_chunk_split(None, old(self).pushed(), chunk@);
            self.pushed@ = old(self).pushed() + chunk@;
            let d = decode_chunk(old(self).carry(), chunk@).0;
            assert(old(self).taken() + (old(self).buffered() + d) =~= (old(self).taken() + old(
                self,
            ).buffered()) + d);
        }
    }

    /// The next batch of `target` interleaved samples, once that many are
    /// buffered. At the end of the input (`ended`), what remains instead, cut
    /// to whole sample frames: a batch is shorter than `target` only then,
    /// and a short batch is the last (`true`). `None` when more input is
    /// needed first.
    ///
    /// Every batch joins the samples handed out. While batches are whole
    /// frames, the last one completes the decoded byte stream cut to whole
    /// frames.
    pub fn next_batch(&mut self, target: usize, ended: bool) -> (res: Option<(Vec<i16>, bool)>)
        requires
            old(self).channels_spec() > 0,
        ensures
            final(self).channels_spec() == old(self).channels_spec(),
            final(self).carry() == old(self).carry(),
            final(self).pushed() == old(self).pushed(),
            res matches Some((b, _)) ==> final(self).taken() == old(self).taken() + b@,
            res is None ==> final(self).taken() == old(self).taken(),
            res matches Some((_, last)) && !last ==> (old(self).in_step() ==> final(self).in_step()),
            res matches Some((_, last)) && last ==> (old(self).in_step() && (old(self).taken().len() as int) % (
                old(self).channels_spec() as int) == 0 ==> final(self).taken() == whole_frames(
                decode_chunk(None, final(self).pushed()).0,
                old(self).channels_spec() as int,
            )),
            res is None ==> (old(self).in_step() ==> final(self).in_step()),
            old(self).buffered().len() >= target ==> (res matches Some((b, last)) && b@ == old(
                self,
            ).buffered().take(target as int) && !last && final(self).buffered() == old(
                self,
            ).buffered().skip(target as int)),
            old(self).buffered().len() < target && !ended ==> res is None && final(self).buffered()
                == old(self).buffered(),
            old(self).buffered().len() < target && ended ==> ({
                let n = old(self).buffered().len() as int;
                &&& res matches Some((b, last)) && last && b@ == old(self).buffered().take(
                    n - n % (old(self).channels_spec() as int),
                )
                &&& final(self).buffered() == Seq::<i16>::empty()
            }),
    {
        let len = self.samples.len();
        if len >= target {
            let mut batch: Vec<i16> = Vec::new();
            let mut rest: Vec<i16> = Vec::new();
            let mut i: usize = 0;
            while i < len
                invariant
                    i <= len == self.samples@.len(),
                    i <= target ==> batch@ == self.samples@.take(i as int) && rest@.len() == 0,
                    i > target ==> batch@ == self.samples@.take(target as int) && rest@
                        == self.samples@.subrange(target as int, i as int),
                decreases len - i,
            {
                if i < target {
                    batch.push(self.samples[i]);
                } else {
                    rest.push(self.samples[i]);
                }
                i = i + 1;
                assert(batch@ =~= self.samples@.take(if i <= target { i as int } else { target as int }));
                if i > target {
                    assert(rest@ =~= self.samples@.subrange(target as int, i as int));
                }
            }
            assert(self.samples@.subrange(target as int, len as int) =~= self.samples@.skip(target as int));
            if len == target {
                assert(rest@ =~= self.samples@.skip(target as int));
            }
            self.samples = rest;
            proof {
                self.taken@ = old(self).taken() + batch@;
                assert(self.taken() + self.buffered() =~= old(self).taken() + old(self).buffered());
            }
            return Some((batch, false));
        }
        if !ended {
            return None;
        }
        // Align to whole frames (drop any trailing partial frame samples).
        self.finish();
        let mut batch: Vec<i16> = Vec::new();
        std::mem::swap(&mut batch, &mut self.samples);
        proof {
            self.taken@ = old(self).taken() + batch@;
            let ch = old(self).channels_spec() as int;
            let t = old(self).taken().len() as int;
            let n = old(self).buffered().len() as int;
            if old(self).in_step() && t % ch == 0 {
                let all = decode_chunk(None, self.pushed()).0;
                vstd::arithmetic::div_mod::lemma_fundamental_div_mod(t, ch);
                vstd::arithmetic::div_mod::lemma_mod_multiples_vanish(t / ch, n, ch);
                assert(t + n == ch * (t / ch) + n);
                assert((t + n) % ch == n % ch);
                vstd::arithmetic::div_mod::lemma_fundamental_div_mod(n, ch);
                assert(0 <= n % ch <= n) by (nonlinear_arith)
                    requires
                        n >= 0,
                        ch > 0,
                        n == ch * (n / ch) + n % ch,
                        0 <= n % ch < ch,
                ;
                assert(all.len() == t + n);
                assert(old(self).taken() + old(self).buffered() == all);
                assert(self.taken() =~= whole_frames(all, ch));
            }
        }
        Some((batch, true))
    }

    /// Interleaved samples to read for `frames_per_channel` sample frames.
    pub fn target(&self, frames_per_channel: usize) -> (res: usize)
        requires
            frames_per_channel * self.channels_spec() <= usize::MAX,
        ensures
            res == frames_per_channel * self.channels_spec(),
    {
        frames_per_channel * self.channels
    }

    /// Decodes one chunk read from the input (after the carried byte) and
    /// appends its samples to `out`.
    fn decode_into(&mut self, chunk: &[u8], out: &mut Vec<i16>)
        ensures
            final(self).channels_spec() == old(self).channels_spec(),
            final(self).buffered() == old(self).buffered(),
            final(out)@ == old(out)@ + decode_chunk(old(self).carry(), chunk@).0,
            final(self).carry() == decode_chunk(old(self).carry(), chunk@).1,
            final(self).pushed() == old(self).pushed(),
            final(self).taken() == old(self).taken(),
    {
        let ghost all = carry_bytes(self.carry) + chunk@;
        let ghost start = out@;
        let n = chunk.len();
        if n == 0 {
            assert(le_samples(all) =~= Seq::<i16>::empty());
            assert(out@ =~= start + le_samples(all));
            return;
        }
        let ghost lead: int = if self.carry.is_some() { 1 } else { 0 };
        let mut idx: usize = 0;
        // Consume a carried low byte first.
        if let Some(lo) = self.carry {
            let sample = le16_exec(lo, chunk[0]);
            out.push(sample);
            idx = 1;
            self.carry = None;
        }
        proof {
            lemma_le_samples_prefix(all, idx + lead);
            assert(le_samples(all).subrange(0, (idx + lead) / 2) =~= if lead == 1 {
                seq![le16(all[0], all[1])]
            } else {
                Seq::<i16>::empty()
            });
        }
        while n - idx >= 2
            invariant
                idx <= n,
                n == chunk@.len(),
                all == carry_bytes(old(self).carry()) + chunk@,
                lead == 0 || lead == 1,
                all.len() == lead + n,
                lead == 1 ==> idx >= 1,
                (idx + lead) % 2 == 0,
                self.carry.is_none(),
                out@ == start + le_samples(all).subrange(0, (idx + lead) / 2),
            decreases n - idx,
        {
            let s = le16_exec(chunk[idx], chunk[idx + 1]);
            out.push(s);
            proof {
                let p = idx + lead;
                assert(all[p] == chunk@[idx as int] && all[p + 1] == chunk@[idx + 1]);
                assert(le_samples(all).subrange(0, (p + 2) / 2) =~= le_samples(all).subrange(0, p / 2).push(
                    le16(all[p], all[p + 1]),
                ));
            }
            idx = idx + 2;
        }
        if idx < n {
            self.carry = Some(chunk[idx]);
            assert(all.last() == chunk@[idx as int]);
        }
        assert(le_samples(all).subrange(0, (idx + lead) / 2) =~= le_samples(all));
    }

    /// Aligns the buffered samples to whole sample frames, dropping a
    /// trailing partial frame.
    fn finish(&mut self)
        requires
            old(self).channels_spec() > 0,
        ensures
            final(self).channels_spec() == old(self).channels_spec(),
            final(self).carry() == old(self).carry(),
            final(self).pushed() == old(self).pushed(),
            final(self).taken() == old(self).taken(),
            final(self).buffered() == old(self).buffered().take(
                (old(self).buffered().len() as int) - (old(self).buffered().len() as int) % (
                old(self).channels_spec() as int),
            ),
    {
        let len = self.samples.len();
        let rem = len % self.channels;
        assert(rem <= len) by (nonlinear_arith)
            requires
                rem == len % self.channels,
                self.channels > 0,
        ;
        let usable = len - rem;
        self.samples.truncate(usable);
        assert(self.samples@ =~= old(self).buffered().take(usable as int));
    }
}

/// The samples of an even-length prefix are a prefix of the samples.
proof fn lemma_le_samples_prefix(all: Seq<u8>, p: int)
    requires
        0 <= p <= all.len(),
        p % 2 == 0,
    ensures
        le_samples(all.subrange(0, p)) =~= le_samples(all).subrange(0, p / 2),
{
}

/// Samples split at an even byte position.
proof fn lemma_le_samples_split(all: Seq<u8>, p: int)
    requires
        0 <= p <= all.len(),
        p % 2 == 0,
    ensures
        le_samples(all) =~= le_samples(all.subrange(0, p)) + le_samples(all.subrange(p, all.len() as int)),
{
    let m = p / 2;
    assert(all.len() / 2 == m + (all.len() - p) / 2);
    let l = le_samples(all.subrange(0, p));
    let r = le_samples(all.subrange(p, all.len() as int));
    assert forall|i: int| 0 <= i < le_samples(all).len() implies le_samples(all)[i] == (l + r)[i] by {
        if i < m {
            assert(all.subrange(0, p)[2 * i] == all[2 * i]);
        } else {
            assert(all.subrange(p, all.len() as int)[2 * (i - m)] == all[2 * i]);
            assert(all.subrange(p, all.len() as int)[2 * (i - m) + 1] == all[2 * i + 1]);
        }
    }
}

fn le16_exec(lo: u8, hi: u8) -> (res: i16)
    ensures
        res == le16(lo, hi),
{
    (((hi as u16) << 8u16) | (lo as u16)) as i16
}

/// Splitting the byte stream into chunks anywhere gives the same samples:
/// decoding `a` then `b` equals decoding `a + b` at once.
pub proof fn law_decode_chunk_split(carry: Option<u8>, a: Seq<u8>, b: Seq<u8>)
    ensures
        ({
            let (s1, c1) = decode_chunk(carry, a);
            let (s2, c2) = decode_chunk(c1, b);
            let (s, c) = decode_chunk(carry, a + b);
            s1 + s2 == s && c2 == c
        }),
{
    let (s1, c1) = decode_chunk(carry, a);
    let all1 = carry_bytes(carry) + a;
    let all = carry_bytes(carry) + (a + b);
    let all2 = carry_bytes(c1) + b;
    let k: int = (all1.len() / 2) as int;
    assert(all =~= all1 + b);
    assert(all2 =~= all.subrange(2 * k, all.len() as int)) by {
        if all1.len() % 2 == 1 {
            assert(all1.last() == all[2 * k]);
        }
    }
    lemma_le_samples_split(all, 2 * k);
    assert(all.subrange(0, 2 * k) =~= all1.subrange(0, 2 * k));
    lemma_le_samples_prefix(all1, 2 * k);
    assert(le_samples(all1).subrange(0, k) =~= le_samples(all1));
}

/// The chunks joined, in order.
pub open spec fn join_chunks(chunks: Seq<Seq<u8>>) -> Seq<u8>
    decreases chunks.len(),
{
    if chunks.len() == 0 {
        Seq::empty()
    } else {
        join_chunks(chunks.drop_last()) + chunks.last()
    }
}

/// Decoding the chunks one after the other, each after the byte the
/// previous one left over: the samples of all of them, and the byte left
/// over at the end.
pub open spec fn decode_reads(carry: Option<u8>, chunks: Seq<Seq<u8>>) -> (Seq<i16>, Option<u8>)
    decreases chunks.len(),
{
    if chunks.len() == 0 {
        (Seq::empty(), carry)
    } else {
        let (s, c) = decode_reads(carry, chunks.drop_last());
        let (s2, c2) = decode_chunk(c, chunks.last());
        (s + s2, c2)
    }
}

/// However the byte stream is split into reads, decoding the reads one after
/// the other gives the samples of the whole stream, with nothing lost,
/// duplicated or reordered, and leaves its odd trailing byte.
pub proof fn law_decode_reads(chunks: Seq<Seq<u8>>)
    ensures
        decode_reads(None, chunks) == decode_chunk(None, join_chunks(chunks)),
    decreases chunks.len(),
{
    if chunks.len() == 0 {
        assert(le_samples(Seq::<u8>::empty()) =~= Seq::<i16>::empty());
        assert(carry_bytes(None) + Seq::<u8>::empty() =~= Seq::<u8>::empty());
    } else {
        law_decode_reads(chunks.drop_last());
        law_decode_chunk_split(None, join_chunks(chunks.drop_last()), chunks.last());
    }
}

// ---------------------------------------------------------------------------
// Segments
// ---------------------------------------------------------------------------

/// `seg-NNNNN.m4s`, the sequence number zero-padded to five digits.
pub open spec fn segment_filename_spec(sequence: u32) -> Seq<char> {
    "seg-"@ + dec_pad(sequence as nat, 5) + ".m4s"@
}

/// The file name of a media segment.
pub fn segment_filename(sequence: u32) -> (res: String)
    ensures
        res@ == segment_filename_spec(sequence),
{
    let mut s = String::new();
    push_str(&mut s, "seg-");
    push_dec_pad(&mut s, sequence as u64, 5);
    push_str(&mut s, ".m4s");
    s
}

/// Samples per channel in the packets.
pub open spec fn packet_samples(ps: Seq<Packet>) -> nat
    decreases ps.len(),
{
    if ps.len() == 0 {
        0
    } else {
        packet_samples(ps.drop_last()) + (ps.last().sample_count as nat)
    }
}

/// Samples per channel in the packets, or `None` above `u64::MAX`.
pub fn packets_duration(packets: &[Packet]) -> (res: Option<u64>)
    ensures
        match res {
            Some(n) => n == packet_samples(packets@),
            None => packet_samples(packets@) > u64::MAX,
        },
{
    let mut total: u64 = 0;
    let mut i: usize = 0;
    while i < packets.len()
        invariant
            i <= packets@.len(),
            total == packet_samples(packets@.subrange(0, i as int)),
        decreases packets@.len() - i,
    {
        assert(packets@.subrange(0, i + 1).drop_last() == packets@.subrange(0, i as int));
        let c = packets[i].sample_count as u64;
        if total > u64::MAX - c {
            proof {
                lemma_packet_samples_prefix(packets@, i + 1);
            }
            return None;
        }
        total = total + c;
        i = i + 1;
    }
    assert(packets@.subrange(0, packets@.len() as int) == packets@);
    Some(total)
}

proof fn lemma_packet_samples_prefix(ps: Seq<Packet>, k: int)
    requires
        0 <= k <= ps.len(),
    ensures
        packet_samples(ps.subrange(0, k)) <= packet_samples(ps),
    decreases ps.len() - k,
{
    if k < ps.len() {
        lemma_packet_samples_prefix(ps, k + 1);
        assert(ps.subrange(0, k + 1).drop_last() == ps.subrange(0, k));
    } else {
        assert(ps.subrange(0, k) == ps);
    }
}

/// What to do for one media segment: its number, decode time and file name,
/// and the files of the segments that fell out of the window (oldest first).
pub struct SegmentPlan {
    pub sequence: u32,
    pub base_ts: u64,
    pub filename: String,
    pub evicted: Vec<String>,
}

/// Numbers, times and windows the live segments.
pub struct Segmenter {
    sequence: u32,
    base_ts: u64,
    playlist_size: u32,
    window: Vec<SegmentRef>,
    /// Every segment made so far, oldest first.
    history: Ghost<Seq<SegmentRef>>,
}

/// The window is a run of consecutive segments: numbers increase by one,
/// each starts where the previous ends, each file is named after its number.
pub open spec fn consecutive(w: Seq<SegmentRef>) -> bool {
    &&& forall|i: int|
        #![trigger w[i]]
        0 <= i < w.len() ==> w[i].filename@ == segment_filename_spec(w[i].sequence)
    &&& forall|i: int|
        #![trigger w[i + 1]]
        0 <= i < w.len() - 1 ==> {
            &&& w[i + 1].sequence == w[i].sequence + 1
            &&& w[i + 1].start_ts == w[i].start_ts + w[i].duration_ts
        }
}

/// A window of consecutive segments is what the DASH manifest describes: the
/// `i`-th segment is numbered `first + i` (so its file is the template's
/// name for that number) and starts at the first start time plus the
/// durations of the segments before it (its place on the timeline).
pub proof fn law_window_matches_dash_template(w: Seq<SegmentRef>)
    requires
        consecutive(w),
    ensures
        forall|i: int|
            #![trigger w[i]]
            0 <= i < w.len() ==> {
                &&& w[i].sequence == w[0].sequence + i
                &&& w[i].filename@ == segment_filename_spec((w[0].sequence + i) as u32)
                &&& w[i].start_ts == w[0].start_ts + total_ts(w.subrange(0, i))
            },
    decreases w.len(),
{
    if w.len() > 0 {
        let init = w.drop_last();
        assert forall|i: int| #![trigger init[i + 1]] 0 <= i < init.len() - 1 implies {
            &&& init[i + 1].sequence == init[i].sequence + 1
            &&& init[i + 1].start_ts == init[i].start_ts + init[i].duration_ts
        } by {
            assert(init[i + 1] == w[i + 1]);
            assert(init[i] == w[i]);
        }
        assert forall|i: int| #![trigger init[i]] 0 <= i < init.len() implies init[i].filename@
            == segment_filename_spec(init[i].sequence) by {
            assert(init[i] == w[i]);
        }
        law_window_matches_dash_template(init);
        assert forall|i: int| #![trigger w[i]] 0 <= i < w.len() implies {
            &&& w[i].sequence == w[0].sequence + i
            &&& w[i].filename@ == segment_filename_spec((w[0].sequence + i) as u32)
            &&& w[i].start_ts == w[0].start_ts + total_ts(w.subrange(0, i))
        } by {
            if i < init.len() {
                assert(init[i] == w[i]);
                assert(init[0] == w[0]);
                assert(init.subrange(0, i) =~= w.subrange(0, i));
            } else if i > 0 {
                let j = i - 1;
                assert(init[j] == w[j]);
                assert(init[0] == w[0]);
                assert(init.subrange(0, j) =~= w.subrange(0, j));
                assert(w[j + 1].sequence == w[j].sequence + 1);
                assert(w.subrange(0, i).drop_last() =~= w.subrange(0, j));
                assert(w.subrange(0, i).last() == w[j]);
            } else {
                assert(w.subrange(0, 0) =~= Seq::<SegmentRef>::empty());
            }
        }
    }
}

/// Different segment numbers give different file names.
pub proof fn lemma_segment_filename_injective(a: u32, b: u32)
    requires
        segment_filename_spec(a) == segment_filename_spec(b),
    ensures
        a == b,
{
    let fa = segment_filename_spec(a);
    let fb = segment_filename_spec(b);
    reveal_strlit("seg-");
    reveal_strlit(".m4s");
    let pa = dec_pad(a as nat, 5);
    let pb = dec_pad(b as nat, 5);
    assert(fa.subrange(4, fa.len() - 4) =~= pa);
    assert(fb.subrange(4, fb.len() - 4) =~= pb);
    lemma_dec_value_dec_pad(a as nat, 5);
    lemma_dec_value_dec_pad(b as nat, 5);
}

/// Segments leave a window of consecutive segments oldest first, so the file
/// of a segment that was dropped is never the file of one that was kept: the
/// files deleted on eviction are not listed by the manifests.
pub proof fn law_evicted_files_not_in_window(added: Seq<SegmentRef>, k: int)
    requires
        consecutive(added),
        0 <= k <= added.len(),
    ensures
        forall|i: int, j: int|
            0 <= i < k <= j < added.len() ==> #[trigger] added[i].filename@ != #[trigger] added[j].filename@,
{
    law_window_matches_dash_template(added);
    assert forall|i: int, j: int|
        0 <= i < k <= j < added.len() implies #[trigger] added[i].filename@ != #[trigger] added[j].filename@ by {
        if added[i].filename@ == added[j].filename@ {
            lemma_segment_filename_injective(added[i].sequence, added[j].sequence);
        }
    }
}

/// Over any run of segments, the segments made so far are numbered 1, 2,
/// ... in order, each named after its number and starting where the ones
/// before it end (the first at decode time 0); the window is the newest
/// `playlist_size` of them, all of them while there are fewer.
pub proof fn law_window_is_newest_segments(s: Segmenter)
    requires
        s.wf(),
    ensures
        ({
            let h = s.history_spec();
            let w = s.window_spec();
            let p = s.playlist_size_spec() as int;
            &&& forall|i: int|
                #![trigger h[i]]
                0 <= i < h.len() ==> {
                    &&& h[i].sequence == i + 1
                    &&& h[i].filename@ == segment_filename_spec((i + 1) as u32)
                    &&& h[i].start_ts == total_ts(h.subrange(0, i))
                }
            &&& w == h.subrange(h.len() - w.len(), h.len() as int)
            &&& w.len() == if h.len() > p { p } else { h.len() as int }
            &&& s.next_sequence() == h.len() + 1
            &&& s.next_base_ts() == total_ts(h)
        }),
{
    let h = s.history_spec();
    law_window_matches_dash_template(h);
    if h.len() > 0 {
        assert(h.last() == h[h.len() - 1]);
        assert(h.subrange(0, h.len() - 1) == h.drop_last());
    }
}

impl Segmenter {
    /// Number of the next segment.
    pub closed spec fn next_sequence(&self) -> u32 {
        self.sequence
    }

    /// Decode time of the next segment.
    pub closed spec fn next_base_ts(&self) -> u64 {
        self.base_ts
    }

    pub closed spec fn playlist_size_spec(&self) -> u32 {
        self.playlist_size
    }

    /// The segments in the live window, oldest first.
    pub closed spec fn window_spec(&self) -> Seq<SegmentRef> {
        self.window@
    }

    /// The window holds at most `playlist_size` consecutive segments, and
    /// the newest one immediately precedes the next segment.
    ///
    /// The segments made so far are consecutive from segment 1 at decode
    /// time 0, the next one follows the newest, and the window holds the
    /// newest `playlist_size` of them (all of them while there are fewer).
    pub open spec fn wf(&self) -> bool {
        let w = self.window_spec();
        let h = self.history_spec();
        &&& w.len() <= self.playlist_size_spec()
        &&& consecutive(w)
        &&& w.len() > 0 ==> {
            &&& w.last().sequence + 1 == self.next_sequence()
            &&& w.last().start_ts + w.last().duration_ts == self.next_base_ts()
        }
        &&& consecutive(h)
        &&& h.len() > 0 ==> h[0].sequence == 1 && h[0].start_ts == 0
        &&& h.len() > 0 ==> {
            &&& h.last().sequence + 1 == self.next_sequence()
            &&& h.last().start_ts + h.last().duration_ts == self.next_base_ts()
        }
        &&& h.len() == 0 ==> self.next_sequence() == 1 && self.next_base_ts() == 0
        &&& w.len() == if h.len() > self.playlist_size_spec() {
            self.playlist_size_spec() as int
        } else {
            h.len() as int
        }
        &&& w == h.subrange(h.len() - w.len(), h.len() as int)
    }

    /// Every segment made so far, oldest first.
    pub closed spec fn history_spec(&self) -> Seq<SegmentRef> {
        self.history@
    }

    /// Starts at segment 1, decode time 0, empty window.
    pub fn new(playlist_size: u32) -> (res: Self)
        ensures
            res.wf(),
            res.next_sequence() == 1,
            res.next_base_ts() == 0,
            res.playlist_size_spec() == playlist_size,
            res.window_spec() == Seq::<SegmentRef>::empty(),
            res.history_spec() == Seq::<SegmentRef>::empty(),
    {
        let s = Self { sequence: 1, base_ts: 0, playlist_size, window: Vec::new(), history: Ghost(Seq::empty()) };
        assert(s.window_spec() =~= s.history_spec().subrange(0, 0));
        s
    }

    /// Number the next segment will get.
    pub fn sequence(&self) -> (res: u32)
        ensures
            res == self.next_sequence(),
    {
        self.sequence
    }

    /// Decode time the next segment will start at.
    pub fn base_ts(&self) -> (res: u64)
        ensures
            res == self.next_base_ts(),
    {
        self.base_ts
    }

    /// The live window, oldest first.
    pub fn window(&self) -> (res: &[SegmentRef])
        ensures
            res@ == self.window_spec(),
    {
        self.window.as_slice()
    }

    /// Accounts for the next media segment, holding `samples` samples per
    /// channel and lasting `extinf` seconds (`ceil_secs` rounded up): assigns
    /// it the next number and decode time, appends it to the window and
    /// evicts the oldest segments beyond the window size.
    pub fn next_segment(&mut self, samples: u64, extinf: String, ceil_secs: u32) -> (plan: SegmentPlan)
        requires
            old(self).wf(),
            old(self).next_sequence() < u32::MAX,
            old(self).next_base_ts() + samples <= u64::MAX,
        ensures
            final(self).wf(),
            plan.sequence == old(self).next_sequence(),
            plan.base_ts == old(self).next_base_ts(),
            plan.filename@ == segment_filename_spec(plan.sequence),
            final(self).next_sequence() == old(self).next_sequence() + 1,
            final(self).next_base_ts() == old(self).next_base_ts() + samples,
            final(self).playlist_size_spec() == old(self).playlist_size_spec(),
            ({
                let added = old(self).window_spec().push(
                    SegmentRef {
                        sequence: plan.sequence,
                        filename: plan.filename,
                        start_ts: plan.base_ts,
                        duration_ts: samples,
                        extinf,
                        ceil_secs,
                    },
                );
                let k = added.len() - final(self).window_spec().len();
                &&& final(self).history_spec() == old(self).history_spec().push(added.last())
                &&& consecutive(added)
                &&& k >= 0
                &&& final(self).window_spec() == added.subrange(k, added.len() as int)
                &&& plan.evicted@.len() == k
                &&& forall|i: int|
                    #![trigger plan.evicted@[i]]
                    0 <= i < k ==> plan.evicted@[i]@ == added[i].filename@
                &&& final(self).window_spec().len() == if added.len() > old(self).playlist_size_spec() {
                    old(self).playlist_size_spec() as int
                } else {
                    added.len() as int
                }
            }),
    {
        let sequence = self.sequence;
        let base_ts = self.base_ts;
        let filename = segment_filename(sequence);
        let keep = filename.clone();
        let ghost new_ref = SegmentRef {
            sequence,
            filename: keep,
            start_ts: base_ts,
            duration_ts: samples,
            extinf,
            ceil_secs,
        };
        self.window.push(SegmentRef { sequence, filename: keep, start_ts: base_ts, duration_ts: samples, extinf, ceil_secs });
        let ghost added = self.window@;
        // Evict beyond the window.
        let mut evicted: Vec<String> = Vec::new();
        let ghost mut k: int = 0;
        while self.window.len() > self.playlist_size as usize
            invariant
                0 <= k <= added.len(),
                self.window@ == added.subrange(k, added.len() as int),
                k > 0 ==> self.window@.len() >= self.playlist_size,
                self.playlist_size == old(self).playlist_size,
                self.history@ == old(self).history@,
                evicted@.len() == k,
                forall|i: int|
                    #![trigger evicted@[i]]
                    0 <= i < k ==> evicted@[i]@ == added[i].filename@,
            decreases self.window@.len(),
        {
            let old_ref = self.window.remove(0);
            evicted.push(old_ref.filename);
            proof {
                k = k + 1;
            }
            assert(self.window@ =~= added.subrange(k, added.len() as int));
        }
        self.sequence = sequence + 1;
        self.base_ts = base_ts + samples;
        proof {
            assert(keep == filename);
            assert(added =~= old(self).window@.push(new_ref));
            let h = old(self).history@;
            let h2 = h.push(new_ref);
            self.history@ = h2;
            assert forall|i: int| #![trigger h2[i]] 0 <= i < h2.len() implies h2[i].filename@
                == segment_filename_spec(h2[i].sequence) by {
                if i < h.len() {
                    assert(h2[i] == h[i]);
                }
            }
            assert forall|i: int| #![trigger h2[i + 1]] 0 <= i < h2.len() - 1 implies {
                &&& h2[i + 1].sequence == h2[i].sequence + 1
                &&& h2[i + 1].start_ts == h2[i].start_ts + h2[i].duration_ts
            } by {
                assert(h2[i] == h[i]);
                if i + 1 < h.len() {
                    assert(h2[i + 1] == h[i + 1]);
                }
            }
            let hl = h.len() as int;
            let wl = old(self).window@.len() as int;
            assert(added =~= h2.subrange(hl - wl, hl + 1));
            assert(self.window@ =~= h2.subrange(hl - wl + k, hl + 1));
            assert forall|i: int| #![trigger added[i]] 0 <= i < added.len() implies added[i].filename@
                == segment_filename_spec(added[i].sequence) by {
                if i < added.len() - 1 {
                    assert(added[i] == old(self).window@[i]);
                }
            }
            assert forall|i: int| #![trigger added[i + 1]] 0 <= i < added.len() - 1 implies {
                &&& added[i + 1].sequence == added[i].sequence + 1
                &&& added[i + 1].start_ts == added[i].start_ts + added[i].duration_ts
            } by {
                if i + 1 == added.len() - 1 {
                    assert(added[i] == old(self).window@.last());
                } else {
                    assert(added[i] == old(self).window@[i]);
                    assert(added[i + 1] == old(self).window@[i + 1]);
                }
            }
            assert forall|i: int|
                #![trigger self.window@[i]]
                0 <= i < self.window@.len() implies self.window@[i].filename@ == segment_filename_spec(
                self.window@[i].sequence,
            ) by {
                assert(self.window@[i] == added[i + k]);
            }
            assert forall|i: int|
                #![trigger self.window@[i + 1]]
                0 <= i < self.window@.len() - 1 implies {
                &&& self.window@[i + 1].sequence == self.window@[i].sequence + 1
                &&& self.window@[i + 1].start_ts == self.window@[i].start_ts + self.window@[i].duration_ts
            } by {
                assert(self.window@[i] == added[i + k]);
                assert(self.window@[i + 1] == added[i + k + 1]);
                if i + k + 1 == added.len() - 1 {
                    assert(added[i + k] == old(self).window@.last());
                } else {
                    assert(added[i + k] == old(self).window@[i + k]);
                    assert(added[i + k + 1] == old(self).window@[i + k + 1]);
                }
            }
        }
        SegmentPlan { sequence, base_ts, filename, evicted }
    }
}

// ---------------------------------------------------------------------------
// Manifests
// ---------------------------------------------------------------------------

/// The rough stream bandwidth for manifests: about 60% of raw 16-bit PCM for
/// FLAC (at least 1), else the configured bitrate (128 kb/s when it is not a
/// number).
pub open spec fn estimate_bandwidth_spec(codec: CodecKind, sample_rate: u32, channels: u16, bitrate_bps: Option<u32>) -> u32 {
    match codec {
        CodecKind::Flac => {
            let v = ((sample_rate as int * channels as int * 16 * 6 / 10) as u64) as u32;
            if v < 1 {
                1
            } else {
                v
            }
        },
        _ => match bitrate_bps {
            Some(b) => b,
            None => 128_000,
        },
    }
}

pub fn estimate_bandwidth(config: &Config, sample_rate: u32, channels: u16, bitrate_bps: Option<u32>) -> (res: u32)
    ensures
        res == estimate_bandwidth_spec(config.encoder.codec, sample_rate, channels, bitrate_bps),
{
    match config.encoder.codec {
        // Lossless: rough estimate ~60% of raw PCM.
        CodecKind::Flac => {
            assert(sample_rate as u64 * channels as u64 <= 0xffff_ffff * 0xffff) by (nonlinear_arith)
                requires
                    sample_rate <= 0xffff_ffff,
                    channels <= 0xffff,
            ;
            let v = (sample_rate as u64 * channels as u64 * 16 * 6 / 10) as u32;
            if v < 1 {
                1
            } else {
                v
            }
        },
        _ => match bitrate_bps {
            Some(b) => b,
            None => 128_000,
        },
    }
}

/// The manifests to (re)write after a segment: each present when its format
/// is enabled.
pub struct Manifests {
    /// `stream.m3u8`.
    pub hls_media: Option<String>,
    /// `master.m3u8`.
    pub hls_master: Option<String>,
    /// `stream.mpd`.
    pub dash: Option<String>,
}

/// The parameters the manifests are rendered with: the init segment's name,
/// the stream description, the configured segment duration as target, and
/// the two anchors in Unix seconds.
pub open spec fn params_spec<'a>(
    config: Config,
    timescale: u32,
    sample_rate: u32,
    channels: u16,
    codec: &'a str,
    bandwidth: u32,
    start_unix: u64,
    now_unix: u64,
) -> ManifestParams<'a> {
    ManifestParams {
        init_uri: INIT_NAME,
        timescale,
        sample_rate,
        channels,
        codec,
        target_duration: config.output.segment_duration,
        bandwidth,
        start_unix,
        now_unix,
    }
}

/// The manifests of a window: the HLS media and multivariant playlists when
/// HLS is enabled, the MPD when DASH is enabled, each rendered with `p` (the
/// MPD with the window's length `window_secs`).
pub open spec fn manifests_for(
    m: Manifests,
    config: Config,
    window: Seq<SegmentRef>,
    p: ManifestParams,
    window_secs: u64,
) -> bool {
    &&& match m.hls_media {
        Some(t) => config.hls.enabled && t@ == hls_spec(window, p),
        None => !config.hls.enabled,
    }
    &&& match m.hls_master {
        Some(t) => config.hls.enabled && t@ == hls_master_spec(HLS_MEDIA@, p),
        None => !config.hls.enabled,
    }
    &&& match m.dash {
        Some(t) => config.dash.enabled && t@ == dash_spec(window, p, window_secs),
        None => !config.dash.enabled,
    }
}

/// Renders the enabled manifests for the current window, which lasts
/// `window_secs` whole seconds.
pub fn render_manifests(
    config: &Config,
    window: &[SegmentRef],
    timescale: u32,
    sample_rate: u32,
    channels: u16,
    codec: &str,
    bandwidth: u32,
    start_unix: u64,
    now_unix: u64,
    window_secs: u64,
) -> (res: Manifests)
    requires
        config.dash.enabled ==> config.output.segment_duration <= u32::MAX / 2,
    ensures
        manifests_for(
            res,
            *config,
            window@,
            params_spec(*config, timescale, sample_rate, channels, codec, bandwidth, start_unix, now_unix),
            window_secs,
        ),
{
    let params = ManifestParams {
        init_uri: INIT_NAME,
        timescale,
        sample_rate,
        channels,
        codec,
        target_duration: config.output.segment_duration,
        bandwidth,
        start_unix,
        now_unix,
    };
    let (hls_media, hls_master) = if config.hls.enabled {
        (Some(render_hls(window, &params)), Some(render_hls_master(HLS_MEDIA, &params)))
    } else {
        (None, None)
    };
    let dash = if config.dash.enabled {
        Some(render_dash(window, &params, window_secs))
    } else {
        None
    };
    Manifests { hls_media, hls_master, dash }
}

/// Samples per channel in one segment: rate times the segment duration.
pub fn samples_per_segment(sample_rate: u32, segment_duration: u32) -> (res: usize)
    requires
        sample_rate * segment_duration <= u32::MAX,
    ensures
        res == sample_rate * segment_duration,
{
    (sample_rate * segment_duration) as usize
}

// ---------------------------------------------------------------------------
// One step of the live stream
// ---------------------------------------------------------------------------

/// What the loop does with a batch read from the input.
#[derive(Debug, Clone, Copy, PartialEq, Eq, Structural)]
pub enum BatchStep {
    /// Encode the batch, segment its packets and read the next batch.
    Encode,
    /// The input ended: encode the batch, flush the encoder into the same
    /// segment, and stop once that segment is written.
    EncodeFlushStop,
}

/// The step for a batch that `next_batch` reported as the last one or not.
pub fn batch_step(last: bool) -> (res: BatchStep)
    ensures
        res == (if last {
            BatchStep::EncodeFlushStop
        } else {
            BatchStep::Encode
        }),
{
    if last {
        BatchStep::EncodeFlushStop
    } else {
        BatchStep::Encode
    }
}

/// What a batch of encoded packets gives: the media segment and its file
/// name, and the files of the segments that left the window.
pub struct SegmentOutput {
    pub filename: String,
    pub bytes: Vec<u8>,
    pub evicted: Vec<String>,
}

/// The live stream between batches: the muxer of the track and the
/// segments' numbering, timing and window.
pub struct LiveStream {
    muxer: Mp4Muxer,
    segmenter: Segmenter,
}

impl LiveStream {
    /// The sample entry of the track.
    pub closed spec fn entry(&self) -> SampleEntry {
        self.muxer.entry()
    }

    /// The segment numbering, timing and window.
    pub closed spec fn segments(&self) -> Segmenter {
        self.segmenter
    }

    /// Starts a stream of the track described by `entry` whose window keeps
    /// `playlist_size` segments: segment 1 comes next, at decode time 0.
    pub fn new(entry: SampleEntry, playlist_size: u32) -> (res: Self)
        ensures
            res.entry() == entry,
            res.segments().wf(),
            res.segments().next_sequence() == 1,
            res.segments().next_base_ts() == 0,
            res.segments().playlist_size_spec() == playlist_size,
            res.segments().window_spec() == Seq::<SegmentRef>::empty(),
    {
        LiveStream { muxer: Mp4Muxer::new(entry), segmenter: Segmenter::new(playlist_size) }
    }

    /// The initialization segment of the track.
    pub fn init_segment(&self) -> (res: Vec<u8>)
        ensures
            res@ == init_segment_spec(self.entry()),
    {
        self.muxer.init_segment()
    }

    /// The media timescale (the sample rate).
    pub fn timescale(&self) -> (res: u32)
        ensures
            res == self.entry().sample_rate,
    {
        self.muxer.timescale()
    }

    /// Number of the next segment.
    pub fn sequence(&self) -> (res: u32)
        ensures
            res == self.segments().next_sequence(),
    {
        self.segmenter.sequence()
    }

    /// Decode time of the next segment.
    pub fn base_ts(&self) -> (res: u64)
        ensures
            res == self.segments().next_base_ts(),
    {
        self.segmenter.base_ts()
    }

    /// The live window, oldest first.
    pub fn window(&self) -> (res: &[SegmentRef])
        ensures
            res@ == self.segments().window_spec(),
    {
        self.segmenter.window()
    }

    /// Accounts for a batch of encoded packets, which last `extinf` seconds
    /// (`ceil_secs` rounded up). An empty batch makes no segment and changes
    /// nothing. Otherwise the packets become the next media segment, numbered
    /// and timed by the window, which then drops its oldest segments beyond
    /// its size.
    pub fn on_packets(
        &mut self,
        packets: &[Packet],
        extinf: String,
        ceil_secs: u32,
    ) -> (res: Option<SegmentOutput>)
        requires
            old(self).segments().wf(),
            old(self).segments().next_sequence() < u32::MAX,
            old(self).segments().next_base_ts() + packet_samples(packets@) <= u64::MAX,
        ensures
            final(self).segments().wf(),
            final(self).entry() == old(self).entry(),
            packets@.len() == 0 ==> res is None && final(self).segments() == old(self).segments(),
            packets@.len() > 0 ==> (res matches Some(o) && {
                let seq = old(self).segments().next_sequence();
                let base = old(self).segments().next_base_ts();
                let samples = packet_samples(packets@);
                let added = old(self).segments().window_spec().push(
                    SegmentRef {
                        sequence: seq,
                        filename: o.filename,
                        start_ts: base,
                        duration_ts: samples as u64,
                        extinf,
                        ceil_secs,
                    },
                );
                let window = final(self).segments().window_spec();
                let size = old(self).segments().playlist_size_spec();
                let k = added.len() - window.len();
                &&& o.filename@ == segment_filename_spec(seq)
                &&& final(self).segments().history_spec() == old(self).segments().history_spec().push(added.last())
                &&& o.bytes@ == media_segment_spec(seq, base, packets@)
                &&& final(self).segments().next_sequence() == seq + 1
                &&& final(self).segments().next_base_ts() == base + samples
                &&& final(self).segments().playlist_size_spec() == size
                &&& consecutive(added)
                &&& window.len() == if added.len() > size { size as int } else { added.len() as int }
                &&& window == added.subrange(k, added.len() as int)
                &&& o.evicted@.len() == k
                &&& forall|i: int| #![trigger o.evicted@[i]] 0 <= i < k ==> o.evicted@[i]@ == added[i].filename@
            }),
    {
        if packets.len() == 0 {
            return None;
        }
        let samples = match packets_duration(packets) {
            Some(n) => n,
            None => {
                assert(false);
                return None;
            },
        };
        let plan = self.segmenter.next_segment(samples, extinf, ceil_secs);
        let bytes = self.muxer.media_segment(plan.sequence, plan.base_ts, packets);
        Some(SegmentOutput { filename: plan.filename, bytes, evicted: plan.evicted })
    }

    /// The enabled manifests of the current window, which lasts
    /// `window_secs` whole seconds, for the track at its own sample rate.
    pub fn manifests(
        &self,
        config: &Config,
        codec: &str,
        bandwidth: u32,
        start_unix: u64,
        now_unix: u64,
        window_secs: u64,
    ) -> (res: Manifests)
        requires
            config.dash.enabled ==> config.output.segment_duration <= u32::MAX / 2,
        ensures
            manifests_for(
                res,
                *config,
                self.segments().window_spec(),
                params_spec(
                    *config,
                    self.entry().sample_rate,
                    self.entry().sample_rate,
                    self.entry().channels,
                    codec,
                    bandwidth,
                    start_unix,
                    now_unix,
                ),
                window_secs,
            ),
    {
        let timescale = self.muxer.timescale();
        render_manifests(
            config,
            self.segmenter.window(),
            timescale,
            timescale,
            self.muxer.channels(),
            codec,
            bandwidth,
            start_unix,
            now_unix,
            window_secs,
        )
    }
}

} // verus!
