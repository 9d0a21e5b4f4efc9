//! AAC-LC encoder backed by `fdk-aac` (vendored C).
//! Emits raw AAC access units wrapped in fMP4 via an `mp4a`/`esds` sample entry.

use vstd::prelude::*;

use super::{AudioEncoder, CodecError, Packet, SampleEntry, aac_lc_asc, aac_lc_asc_bits, esds_box, esds_spec};
use crate::boxes::be16;
use crate::config::CodecKind;

verus! {

/// AAC-LC always uses 1024 samples per frame.
pub const AAC_FRAME_LEN: usize = 1024;

/// Size of the buffer one encoded access unit is written into.
pub const AAC_SCRATCH_LEN: usize = 8192;

// ---------------------------------------------------------------------------
// Calls into fdk-aac
// ---------------------------------------------------------------------------

#[verifier::external_type_specification]
#[verifier::external_body]
pub struct ExFdkEncoder(fdk_aac::enc::Encoder);

#[verifier::external_type_specification]
#[verifier::external_body]
pub struct ExFdkEncoderError(fdk_aac::enc::EncoderError);

/// The layout of one or two channels (stereo for any count but one).
pub open spec fn aac_channels(channels: u16) -> AacChannels {
    if channels == 1 {
        AacChannels::Mono
    } else {
        AacChannels::Stereo
    }
}

/// The channel layouts the AAC encoder accepts.
#[derive(Debug, Clone, Copy, PartialEq, Eq, Structural)]
pub enum AacChannels {
    Mono,
    Stereo,
}

/// Whether libfdk-aac opens and configures an AAC-LC encoder in raw
/// transport at this constant bitrate, input rate and channel layout.
pub uninterp spec fn fdk_accepts(bitrate: u32, sample_rate: u32, channels: AacChannels) -> bool;

/// The runs of an fdk-aac encoder so far, in order: for each successful
/// `encode`, the samples handed to it, the samples it reported consuming and
/// the access unit it wrote, if any.
pub uninterp spec fn fdk_runs(e: fdk_aac::enc::Encoder) -> Seq<AacRun>;

/// `fdk_aac::enc::Encoder::new` for MPEG-4 AAC-LC in raw transport at a
/// constant bitrate; the channel layout is converted one for one. Whether it
/// succeeds depends only on these parameters (it opens and configures a
/// fresh encoder); that outcome is named, not stated. A new encoder has run
/// on nothing.
#[verifier::external_body]
fn fdk_new(bitrate: u32, sample_rate: u32, channels: AacChannels) -> (res: Result<fdk_aac::enc::Encoder, fdk_aac::enc::EncoderError>)
    ensures
        res is Ok <==> fdk_accepts(bitrate, sample_rate, channels),
        res matches Ok(e) ==> fdk_runs(e).len() == 0,
{
    fdk_aac::enc::Encoder::new(fdk_aac::enc::EncoderParams {
        bit_rate: fdk_aac::enc::BitRate::Cbr(bitrate),
        sample_rate,
        transport: fdk_aac::enc::Transport::Raw,
        channels: match channels {
            AacChannels::Mono => fdk_aac::enc::ChannelMode::Mono,
            AacChannels::Stereo => fdk_aac::enc::ChannelMode::Stereo,
        },
        audio_object_type: fdk_aac::enc::AudioObjectType::Mpeg4LowComplexity,
    })
}

/// `Encoder::encode` of `input` into `output`: returns (samples consumed,
/// bytes written). The encoder writes into the buffer without changing its
/// length; on success the run joins the encoder's runs with the samples it
/// was handed, the count it reported and the first `written` bytes of the
/// buffer (none when it wrote nothing). What it writes and the two counts
/// depend on its internal state and are not claimed.
#[verifier::external_body]
fn fdk_encode(enc: &mut fdk_aac::enc::Encoder, input: &[i16], output: &mut Vec<u8>) -> (res: Result<(usize, usize), fdk_aac::enc::EncoderError>)
    ensures
        final(output)@.len() == old(output)@.len(),
        res matches Ok((consumed, written)) ==> fdk_runs(*final(enc)) == fdk_runs(*old(enc)).push(
            (
                input@,
                consumed as int,
                if written > 0 {
                    Some(final(output)@.subrange(0, written as int))
                } else {
                    None
                },
            ),
        ),
{
    enc.encode(input, output.as_mut_slice()).map(|info| (info.input_consumed, info.output_size))
}

// ---------------------------------------------------------------------------
// Helpers
// ---------------------------------------------------------------------------

/// `a` is a suffix of `b`.
pub open spec fn is_suffix<T>(a: Seq<T>, b: Seq<T>) -> bool {
    a.len() <= b.len() && a == b.subrange(b.len() - a.len(), b.len() as int)
}

proof fn lemma_suffix_refl<T>(a: Seq<T>)
    ensures
        is_suffix(a, a),
{
    assert(a.subrange(0, a.len() as int) =~= a);
}

proof fn lemma_suffix_trans<T>(a: Seq<T>, b: Seq<T>, c: Seq<T>)
    requires
        is_suffix(a, b),
        is_suffix(b, c),
    ensures
        is_suffix(a, c),
{
    assert(c.subrange(c.len() - b.len(), c.len() as int).subrange(
        b.len() - a.len(),
        b.len() as int,
    ) =~= c.subrange(c.len() - a.len(), c.len() as int));
}

proof fn lemma_suffix_drop<T>(a: Seq<T>, n: int)
    requires
        0 <= n <= a.len(),
    ensures
        is_suffix(a.subrange(n, a.len() as int), a),
{
    assert(a.subrange(n, a.len() as int) =~= a.subrange(
        a.len() - a.subrange(n, a.len() as int).len(),
        a.len() as int,
    ));
}

fn drop_front(v: &mut Vec<i16>, n: usize)
    requires
        n <= old(v)@.len(),
    ensures
        final(v)@ == old(v)@.subrange(n as int, old(v)@.len() as int),
{
    let mut rest: Vec<i16> = Vec::new();
    let mut i = n;
    while i < v.len()
        invariant
            n <= i <= v@.len(),
            rest@ == v@.subrange(n as int, i as int),
        decreases v@.len() - i,
    {
        rest.push(v[i]);
        i = i + 1;
    }
    *v = rest;
}

fn copy_prefix_u8(v: &Vec<u8>, n: usize) -> (res: Vec<u8>)
    requires
        n <= v@.len(),
    ensures
        res@ == v@.subrange(0, n as int),
{
    let mut out: Vec<u8> = Vec::new();
    let mut i: usize = 0;
    while i < n
        invariant
            i <= n <= v@.len(),
            out@ == v@.subrange(0, i as int),
        decreases n - i,
    {
        out.push(v[i]);
        i = i + 1;
    }
    out
}

fn copy_prefix_i16(v: &Vec<i16>, n: usize) -> (res: Vec<i16>)
    requires
        n <= v@.len(),
    ensures
        res@ == v@.subrange(0, n as int),
{
    let mut out: Vec<i16> = Vec::new();
    let mut i: usize = 0;
    while i < n
        invariant
            i <= n <= v@.len(),
            out@ == v@.subrange(0, i as int),
        decreases n - i,
    {
        out.push(v[i]);
        i = i + 1;
    }
    out
}

fn zeroed(n: usize) -> (res: Vec<u8>)
    ensures
        res@ == Seq::new(n as nat, |i: int| 0u8),
{
    let mut out: Vec<u8> = Vec::new();
    let mut i: usize = 0;
    while i < n
        invariant
            i <= n,
            out@ == Seq::new(i as nat, |j: int| 0u8),
        decreases n - i,
    {
        out.push(0);
        i = i + 1;
        assert(out@ =~= Seq::new(i as nat, |j: int| 0u8));
    }
    out
}

// ---------------------------------------------------------------------------
// The encoder
// ---------------------------------------------------------------------------

/// One run of the encoder: the samples handed to it, the number of samples
/// it reported consuming, and the access unit it returned, if any.
pub type AacRun = (Seq<i16>, int, Option<Seq<u8>>);

/// `b` without its first `consumed` samples (all of them when it has fewer).
pub open spec fn drop_consumed(b: Seq<i16>, consumed: int) -> Seq<i16> {
    if consumed < b.len() {
        b.subrange(consumed, b.len() as int)
    } else {
        Seq::empty()
    }
}

/// The buffer `b` after the runs, each dropping what it consumed.
#[verifier::opaque]
pub open spec fn after_runs(b: Seq<i16>, runs: Seq<AacRun>) -> Seq<i16>
    decreases runs.len(),
{
    if runs.len() == 0 {
        b
    } else {
        drop_consumed(after_runs(b, runs.drop_last()), runs.last().1)
    }
}

/// The access units the runs returned, in order.
#[verifier::opaque]
pub open spec fn run_outputs(runs: Seq<AacRun>) -> Seq<Seq<u8>>
    decreases runs.len(),
{
    if runs.len() == 0 {
        Seq::empty()
    } else {
        let rest = run_outputs(runs.drop_last());
        match runs.last().2 {
            Some(au) => rest.push(au),
            None => rest,
        }
    }
}

/// The packet bytes, in order.
pub open spec fn packet_data(ps: Seq<Packet>) -> Seq<Seq<u8>> {
    ps.map_values(|p: Packet| p.data@)
}

/// Run `i` was handed the first frame of the buffer as the earlier runs
/// left it, which then held at least a frame.
pub open spec fn runs_take_frames(all: Seq<i16>, runs: Seq<AacRun>, frame: int) -> bool {
    forall|i: int|
        #![trigger runs[i]]
        #![trigger after_runs(all, runs.take(i))]
        0 <= i < runs.len() ==> {
            &&& after_runs(all, runs.take(i)).len() >= frame
            &&& runs[i].0 =~= after_runs(all, runs.take(i)).take(frame)
        }
}

/// Every run but the last consumed at least one sample.
pub open spec fn runs_progress(runs: Seq<AacRun>) -> bool {
    forall|i: int| #![trigger runs[i]] 0 <= i < runs.len() - 1 ==> runs[i].1 > 0
}

/// How `encode` drives the encoder, starting from the buffer `all`: each run
/// is handed the first frame of what the earlier runs left, and every run
/// but the last consumed something.
pub open spec fn encode_runs_ok(all: Seq<i16>, runs: Seq<AacRun>, frame: int) -> bool {
    runs_take_frames(all, runs, frame) && runs_progress(runs)
}

pub struct AacEncoder {
    enc: fdk_aac::enc::Encoder,
    sample_rate: u32,
    channels: u16,
    bitrate: u32,
    frame_samples: usize,  // 1024 * channels
    buf: Vec<i16>,
    scratch: Vec<u8>,
    /// How many of the encoder's runs came before the latest `encode` or
    /// `flush`.
    run_base: Ghost<nat>,
}

impl AacEncoder {
    pub closed spec fn sample_rate_spec(&self) -> u32 {
        self.sample_rate
    }

    pub closed spec fn channels_spec(&self) -> u16 {
        self.channels
    }

    pub closed spec fn bitrate_spec(&self) -> u32 {
        self.bitrate
    }

    /// Interleaved samples in one frame.
    pub closed spec fn frame_samples_spec(&self) -> usize {
        self.frame_samples
    }

    /// Interleaved samples handed to `encode` that the encoder has not taken yet.
    pub closed spec fn buffered(&self) -> Seq<i16> {
        self.buf@
    }

    /// The encoder runs of the latest `encode` or `flush`, in order.
    pub closed spec fn runs(&self) -> Seq<AacRun> {
        fdk_runs(self.enc).subrange(self.run_base@ as int, fdk_runs(self.enc).len() as int)
    }

    /// The runs of the latest call are a tail of the encoder's runs.
    pub closed spec fn runs_tracked(&self) -> bool {
        self.run_base@ <= fdk_runs(self.enc).len()
    }

    /// The parameters that never change after `new`.
    pub open spec fn same_params(&self, other: &Self) -> bool {
        &&& self.sample_rate_spec() == other.sample_rate_spec()
        &&& self.channels_spec() == other.channels_spec()
        &&& self.bitrate_spec() == other.bitrate_spec()
        &&& self.frame_samples_spec() == other.frame_samples_spec()
    }

    /// AAC-LC supports 1 or 2 channels.
    pub fn new(sample_rate: u32, channels: u16, bitrate: u32) -> (res: Result<Self, CodecError>)
        ensures
            match res {
                Ok(e) => {
                    &&& channels == 1 || channels == 2
                    &&& fdk_accepts(bitrate, sample_rate, aac_channels(channels))
                    &&& e.sample_rate_spec() == sample_rate
                    &&& e.channels_spec() == channels
                    &&& e.bitrate_spec() == bitrate
                    &&& e.frame_samples_spec() == AAC_FRAME_LEN * channels
                    &&& e.buffered() == Seq::<i16>::empty()
                },
                Err(e) => if channels == 1 || channels == 2 {
                    !fdk_accepts(bitrate, sample_rate, aac_channels(channels)) && e == CodecError::AacInit
                } else {
                    e == CodecError::UnsupportedChannels(CodecKind::Aac, channels)
                },
            },
    {
        let channel_mode = match channels {
            1 => AacChannels::Mono,
            2 => AacChannels::Stereo,
            n => return Err(CodecError::UnsupportedChannels(CodecKind::Aac, n)),
        };
        let enc = match fdk_new(bitrate, sample_rate, channel_mode) {
            Ok(e) => e,
            Err(_) => return Err(CodecError::AacInit),
        };
        Ok(Self {
            enc,
            sample_rate,
            channels,
            bitrate,
            frame_samples: AAC_FRAME_LEN * channels as usize,
            buf: Vec::new(),
            scratch: zeroed(AAC_SCRATCH_LEN),
            run_base: Ghost(0),
        })
    }

    /// Runs the encoder once on `input` and records the run; the consumed
    /// samples leave the front of the buffer and the access unit produced,
    /// if any, is returned.
    fn drain_frame(&mut self, input: &[i16]) -> (res: Result<Option<Packet>, CodecError>)
        requires
            old(self).runs_tracked(),
        ensures
            final(self).same_params(old(self)),
            is_suffix(final(self).buffered(), old(self).buffered()),
            res is Ok ==> {
                &&& final(self).runs_tracked()
                &&& final(self).runs().len() == old(self).runs().len() + 1
                &&& final(self).runs().drop_last() == old(self).runs()
                &&& final(self).runs().last().0 == input@
                &&& final(self).runs().last().1 >= 0
                &&& final(self).buffered() == drop_consumed(old(self).buffered(), final(self).runs().last().1)
                &&& match final(self).runs().last().2 {
                    Some(au) => res matches Ok(Some(p)) && p.data@ == au && p.sample_count == AAC_FRAME_LEN,
                    None => res matches Ok(None),
                }
            },
            res matches Err(e) ==> e == CodecError::AacEncode || e == CodecError::AacOutputSize,
    {
        let ghost pre_all = fdk_runs(self.enc);
        match fdk_encode(&mut self.enc, input, &mut self.scratch) {
            Ok((consumed, output_size)) => {
                let ghost before = self.scratch@;
                let ghost post_all = fdk_runs(self.enc);
                proof {
                    let b = self.run_base@ as int;
                    assert(post_all.subrange(b, post_all.len() as int) =~= pre_all.subrange(
                        b,
                        pre_all.len() as int,
                    ).push(post_all.last()));
                }
                let r = self.take_output(consumed, output_size);
                proof {
                    let len = old(self).buffered().len();
                    let n: int = if consumed < len { consumed as int } else { len as int };
                    lemma_suffix_drop(old(self).buffered(), n);
                    assert(drop_consumed(old(self).buffered(), consumed as int) =~= old(self).buffered().subrange(
                        n,
                        len as int,
                    ));
                }
                r
            },
            Err(_) => {
                proof {
                    lemma_suffix_refl(self.buf@);
                }
                Err(CodecError::AacEncode)
            },
        }
    }

    /// The encoder's output buffer.
    pub closed spec fn scratch(&self) -> Seq<u8> {
        self.scratch@
    }

    /// What one run of the encoder leaves behind, given what it reported:
    /// the `consumed` samples (at most all of them) leave the front of the
    /// buffer, and an access unit of `output_size` bytes, if any, is taken
    /// from the front of the output buffer as a packet of 1024 samples per
    /// channel. A size beyond the output buffer is an error.
    pub fn take_output(&mut self, consumed: usize, output_size: usize) -> (res: Result<Option<Packet>, CodecError>)
        ensures
            final(self).same_params(old(self)),
            final(self).scratch() == old(self).scratch(),
            final(self).runs() == old(self).runs(),
            final(self).runs_tracked() == old(self).runs_tracked(),
            final(self).buffered() == drop_consumed(old(self).buffered(), consumed as int),
            output_size == 0 ==> res matches Ok(None),
            output_size > old(self).scratch().len() ==> (res matches Err(e) && e
                == CodecError::AacOutputSize),
            0 < output_size <= old(self).scratch().len() ==> (res matches Ok(Some(p)) && p.data@
                == old(self).scratch().subrange(0, output_size as int) && p.sample_count
                == AAC_FRAME_LEN),
    {
        // Remove consumed samples from the front of the buffer.
        let n = if consumed < self.buf.len() {
            consumed
        } else {
            self.buf.len()
        };
        drop_front(&mut self.buf, n);
        assert(self.buf@ =~= drop_consumed(old(self).buffered(), consumed as int));
        if output_size > 0 {
            if output_size > self.scratch.len() {
                return Err(CodecError::AacOutputSize);
            }
            Ok(Some(Packet { data: copy_prefix_u8(&self.scratch, output_size), sample_count: AAC_FRAME_LEN as u32 }))
        } else {
            Ok(None)
        }
    }
}

proof fn lemma_runs_push(pre: Seq<AacRun>, runs: Seq<AacRun>)
    requires
        runs.len() == pre.len() + 1,
        runs.drop_last() == pre,
    ensures
        runs == pre.push(runs.last()),
        runs.take(pre.len() as int) == pre,
        forall|i: int| #![trigger runs[i]] 0 <= i < pre.len() ==> runs[i] == pre[i],
{
    assert(runs =~= pre.push(runs.last()));
    assert(runs.take(pre.len() as int) =~= pre);
    assert forall|i: int| #![trigger runs[i]] 0 <= i < pre.len() implies runs[i] == pre[i] by {
        assert(runs.drop_last()[i] == runs[i]);
    }
}

/// One more run, handed the first frame of the buffer the earlier runs left,
/// keeps the way `encode` drives the encoder.
proof fn lemma_encode_step(all: Seq<i16>, pre: Seq<AacRun>, runs: Seq<AacRun>, fs: int)
    requires
        encode_runs_ok(all, pre, fs),
        runs.len() == pre.len() + 1,
        runs.drop_last() == pre,
        after_runs(all, pre).len() >= fs,
        runs.last().0 == after_runs(all, pre).take(fs),
        pre.len() > 0 ==> pre.last().1 > 0,
    ensures
        encode_runs_ok(all, runs, fs),
        after_runs(all, runs) == drop_consumed(after_runs(all, pre), runs.last().1),
        run_outputs(runs) == match runs.last().2 {
            Some(au) => run_outputs(pre).push(au),
            None => run_outputs(pre),
        },
{
    lemma_encode_step_inputs(all, pre, runs, fs);
    lemma_encode_step_progress(pre, runs);
    reveal_with_fuel(after_runs, 1);
    reveal_with_fuel(run_outputs, 1);
}

proof fn lemma_encode_step_inputs(all: Seq<i16>, pre: Seq<AacRun>, runs: Seq<AacRun>, fs: int)
    requires
        runs_take_frames(all, pre, fs),
        runs.len() == pre.len() + 1,
        runs.drop_last() == pre,
        after_runs(all, pre).len() >= fs,
        runs.last().0 == after_runs(all, pre).take(fs),
    ensures
        runs_take_frames(all, runs, fs),
{
    assert forall|i: int|
        #![trigger runs[i]]
        #![trigger after_runs(all, runs.take(i))]
        0 <= i < runs.len() implies {
        &&& after_runs(all, runs.take(i)).len() >= fs
        &&& runs[i].0 =~= after_runs(all, runs.take(i)).take(fs)
    } by {
        if i < pre.len() {
            assert(runs[i] == runs.drop_last()[i]);
            assert(runs.take(i) =~= pre.take(i));
            assert(after_runs(all, pre.take(i)).len() >= fs && pre[i].0 == after_runs(
                all,
                pre.take(i),
            ).take(fs));
        } else {
            assert(runs.take(i) =~= pre);
            assert(runs[i] == runs.last());
        }
    }
}

proof fn lemma_encode_step_progress(pre: Seq<AacRun>, runs: Seq<AacRun>)
    requires
        runs_progress(pre),
        runs.len() == pre.len() + 1,
        runs.drop_last() == pre,
        pre.len() > 0 ==> pre.last().1 > 0,
    ensures
        runs_progress(runs),
{
    assert forall|i: int| #![trigger runs[i]] 0 <= i < runs.len() - 1 implies runs[i].1 > 0 by {
        assert(runs[i] == runs.drop_last()[i]);
        if i < pre.len() - 1 {
            assert(pre[i].1 > 0);
        } else {
            assert(pre[i] == pre.last());
        }
    }
}

impl AudioEncoder for AacEncoder {
    /// Buffers the samples and runs the encoder on the first frame of the
    /// buffer while at least a whole frame (1024 samples per channel) is
    /// buffered and the encoder keeps consuming. Returns the access units
    /// the runs produced, in order, each as a packet of 1024 samples per
    /// channel; what the runs did not consume stays buffered.
    fn encode(&mut self, interleaved: &[i16]) -> (res: Result<Vec<Packet>, CodecError>)
        ensures
            final(self).same_params(old(self)),
            is_suffix(final(self).buffered(), old(self).buffered() + interleaved@),
            res matches Ok(ps) ==> {
                let all = old(self).buffered() + interleaved@;
                let runs = final(self).runs();
                let fs = old(self).frame_samples_spec() as int;
                &&& encode_runs_ok(all, runs, fs)
                &&& final(self).buffered() == after_runs(all, runs)
                &&& (final(self).buffered().len() < fs || (runs.len() > 0 && after_runs(
                    all,
                    runs,
                ).len() == after_runs(all, runs.drop_last()).len()))
                &&& packet_data(ps@) == run_outputs(runs)
                &&& forall|i: int| #![trigger ps@[i]] 0 <= i < ps@.len() ==> ps@[i].sample_count == AAC_FRAME_LEN
            },
            old(self).buffered().len() + interleaved@.len() < old(self).frame_samples_spec() ==> (res matches Ok(ps)
                && ps@.len() == 0 && final(self).buffered() == old(self).buffered() + interleaved@),
            res matches Err(e) ==> e == CodecError::AacEncode || e == CodecError::AacOutputSize,
    {
        crate::codec::push_all_i16(&mut self.buf, interleaved);
        let ghost all = self.buf@;
        proof {
            lemma_suffix_refl(all);
            self.run_base@ = fdk_runs(self.enc).len();
            assert(self.runs() =~= Seq::<AacRun>::empty());
            reveal_with_fuel(after_runs, 1);
            reveal_with_fuel(run_outputs, 1);
            assert(after_runs(all, self.runs()) == all);
            assert(run_outputs(self.runs()) == Seq::<Seq<u8>>::empty());
        }
        let fs = self.frame_samples;
        let mut packets: Vec<Packet> = Vec::new();
        if self.buf.len() < fs {
            // Less than a frame: nothing for the encoder yet.
            assert(packet_data(packets@) =~= run_outputs(self.runs()));
            return Ok(packets);
        }
        while self.buf.len() >= fs
            invariant_except_break
                self.runs_tracked(),
                self.same_params(old(self)),
                fs == self.frame_samples,
                is_suffix(self.buffered(), all),
                all == old(self).buffered() + interleaved@,
                encode_runs_ok(all, self.runs(), fs as int),
                self.buffered() == after_runs(all, self.runs()),
                self.runs().len() > 0 ==> self.runs().last().1 > 0,
                packet_data(packets@) == run_outputs(self.runs()),
                forall|i: int|
                    #![trigger packets@[i]]
                    0 <= i < packets@.len() ==> packets@[i].sample_count == AAC_FRAME_LEN,
            ensures
                self.same_params(old(self)),
                is_suffix(self.buffered(), all),
                encode_runs_ok(all, self.runs(), fs as int),
                self.buffered() == after_runs(all, self.runs()),
                self.buffered().len() < fs || (self.runs().len() > 0 && after_runs(all, self.runs()).len()
                    == after_runs(all, self.runs().drop_last()).len()),
                packet_data(packets@) == run_outputs(self.runs()),
                forall|i: int|
                    #![trigger packets@[i]]
                    0 <= i < packets@.len() ==> packets@[i].sample_count == AAC_FRAME_LEN,
            decreases self.buf@.len(),
        {
            let before = self.buf.len();
            let frame: Vec<i16> = copy_prefix_i16(&self.buf, fs);
            let ghost pre = self.buf@;
            let ghost pre_runs = self.runs();
            let r = self.drain_frame(frame.as_slice());
            proof {
                lemma_suffix_trans(self.buf@, pre, all);
            }
            match r {
                Ok(Some(p)) => packets.push(p),
                Ok(None) => {},
                Err(e) => return Err(e),
            }
            proof {
                lemma_encode_step(all, pre_runs, self.runs(), fs as int);
                assert(packet_data(packets@) =~= run_outputs(self.runs()));
            }
            if self.buf.len() == before {
                assert(after_runs(all, self.runs().drop_last()) == pre);
                break;  // no samples consumed — avoid spinning
            }
            proof {
                // The buffer shrank, so the run consumed something.
                if self.runs().last().1 <= 0 {
                    assert(drop_consumed(pre, self.runs().last().1) =~= pre);
                }
            }
        }
        Ok(packets)
    }

    /// Runs the encoder once on everything still buffered (when anything
    /// is), then on no input, again and again, until a run returns no access
    /// unit (the encoder's delay is drained) or fails. Returns the access
    /// units in order, each as a packet of 1024 samples per channel; nothing
    /// stays buffered.
    fn flush(&mut self) -> (res: Result<Vec<Packet>, CodecError>)
        ensures
            final(self).same_params(old(self)),
            final(self).buffered() == Seq::<i16>::empty(),
            res matches Ok(ps) ==> {
                let runs = final(self).runs();
                let first: int = if old(self).buffered().len() > 0 { 1 } else { 0 };
                &&& runs.len() > first
                &&& first == 1 ==> runs[0].0 == old(self).buffered()
                &&& forall|i: int| #![trigger runs[i]] first <= i < runs.len() ==> runs[i].0 == Seq::<i16>::empty()
                &&& forall|i: int| #![trigger runs[i]] first <= i < runs.len() - 1 ==> runs[i].2 is Some
                &&& (runs.last().2 is None || runs.len() - first == u64::MAX)
                &&& packet_data(ps@) == run_outputs(runs)
                &&& forall|i: int| #![trigger ps@[i]] 0 <= i < ps@.len() ==> ps@[i].sample_count == AAC_FRAME_LEN
            },
            res matches Err(e) ==> e == CodecError::AacEncode || e == CodecError::AacOutputSize,
    {
        proof {
            self.run_base@ = fdk_runs(self.enc).len();
            assert(self.runs() =~= Seq::<AacRun>::empty());
            reveal_with_fuel(run_outputs, 1);
            assert(run_outputs(self.runs()) == Seq::<Seq<u8>>::empty());
        }
        let ghost first: int = if old(self).buffered().len() > 0 { 1 } else { 0 };
        let mut packets: Vec<Packet> = Vec::new();
        // Encode any remaining whole/partial buffer, then drain encoder delay.
        if self.buf.len() > 0 {
            let mut frame: Vec<i16> = Vec::new();
            std::mem::swap(&mut frame, &mut self.buf);
            match self.drain_frame(frame.as_slice()) {
                Ok(Some(p)) => packets.push(p),
                Ok(None) => {},
                Err(e) => return Err(e),
            }
            proof {
                assert(self.runs().drop_last() == Seq::<AacRun>::empty());
                reveal_with_fuel(run_outputs, 1);
                assert(run_outputs(self.runs().drop_last()) == Seq::<Seq<u8>>::empty());
                assert(packet_data(packets@) =~= run_outputs(self.runs()));
            }
        }
        assert(self.buf@.len() == 0);
        // The encoder stops producing output once its delay is drained; the
        // counter only bounds the loop.
        let mut budget: u64 = u64::MAX;
        while budget > 0
            invariant_except_break
                self.runs_tracked(),
                self.same_params(old(self)),
                self.buf@.len() == 0,
                first == 0 || first == 1,
                self.runs().len() == first + (u64::MAX - budget),
                first == 1 ==> self.runs()[0].0 == old(self).buffered(),
                forall|i: int| #![trigger self.runs()[i]] first <= i < self.runs().len() ==> self.runs()[i].0 == Seq::<i16>::empty(),
                forall|i: int| #![trigger self.runs()[i]] first <= i < self.runs().len() ==> self.runs()[i].2 is Some,
                packet_data(packets@) == run_outputs(self.runs()),
                forall|i: int|
                    #![trigger packets@[i]]
                    0 <= i < packets@.len() ==> packets@[i].sample_count == AAC_FRAME_LEN,
            ensures
                self.same_params(old(self)),
                self.buf@.len() == 0,
                self.runs().len() > first,
                first == 1 ==> self.runs()[0].0 == old(self).buffered(),
                forall|i: int| #![trigger self.runs()[i]] first <= i < self.runs().len() ==> self.runs()[i].0 == Seq::<i16>::empty(),
                forall|i: int| #![trigger self.runs()[i]] first <= i < self.runs().len() - 1 ==> self.runs()[i].2 is Some,
                self.runs().last().2 is None || self.runs().len() - first == u64::MAX,
                packet_data(packets@) == run_outputs(self.runs()),
                forall|i: int|
                    #![trigger packets@[i]]
                    0 <= i < packets@.len() ==> packets@[i].sample_count == AAC_FRAME_LEN,
            decreases budget,
        {
            let ghost pre_runs = self.runs();
            let mut drained = false;
            let nothing: Vec<i16> = Vec::new();
            match self.drain_frame(nothing.as_slice()) {
                Ok(Some(p)) => {
                    assert(self.runs().last().2 is Some);
                    packets.push(p);
                },
                Ok(None) => {
                    assert(self.runs().last().2 is None);
                    drained = true;
                },
                Err(e) => return Err(e),
            }
            proof {
                let runs = self.runs();
                assert(runs.len() == pre_runs.len() + 1);
                assert(runs.drop_last() == pre_runs);
                lemma_runs_push(pre_runs, runs);
                assert(runs.last().0 =~= Seq::<i16>::empty());
                assert(drained == (runs.last().2 is None));
                reveal_with_fuel(run_outputs, 1);
                assert(packet_data(packets@) =~= run_outputs(runs));
            }
            budget = budget - 1;
            if drained {
                break;
            }
        }
        Ok(packets)
    }

    /// `mp4a` with an `esds` of object type 0x40 (MPEG-4 audio) carrying the
    /// AAC-LC AudioSpecificConfig; 16-bit samples.
    fn sample_entry(&self) -> (res: SampleEntry)
        ensures
            res.fourcc@ == seq![0x6du8, 0x70, 0x34, 0x61],
            res.config_boxes@ == esds_spec(
                0x40,
                self.bitrate_spec(),
                Some(be16(aac_lc_asc_bits(self.sample_rate_spec(), self.channels_spec()))),
            ),
            res.channels == self.channels_spec(),
            res.sample_rate == self.sample_rate_spec(),
            res.sample_size == 16,
    {
        let asc = aac_lc_asc(self.sample_rate, self.channels);
        SampleEntry {
            fourcc: [0x6d, 0x70, 0x34, 0x61],  // "mp4a"
            config_boxes: esds_box(0x40, self.bitrate, Some(asc.as_slice())),
            channels: self.channels,
            sample_rate: self.sample_rate,
            sample_size: 16,
        }
    }

    fn rfc6381_codec(&self) -> (res: String)
        ensures
            res@ == "mp4a.40.2"@,
    {
        String::from_str("mp4a.40.2")
    }

    fn name(&self) -> (res: &'static str)
        ensures
            res@ == "AAC-LC"@,
    {
        "AAC-LC"
    }
}

} // verus!
