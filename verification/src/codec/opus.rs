//! Framing and stream description for Opus.
//!
//! Opus only accepts a handful of sample rates; hlsd requires 48 kHz input for
//! this codec. Frames are 20 ms (960 samples/channel) and are wrapped in fMP4
//! via an `Opus`/`dOps` sample entry. The Opus library itself is driven by the
//! caller: this module decides which samples go into each frame.

use vstd::prelude::*;

use super::{CodecError, SampleEntry};
use crate::boxes::{Buf, be16, be32, box_spec, mp4_box};
use crate::config::CodecKind;

verus! {

/// 20 ms at 48 kHz.
pub const OPUS_FRAME_LEN: usize = 960;

/// The concatenation of a list of sample frames.
pub open spec fn flat_frames(frames: Seq<Vec<i16>>) -> Seq<i16>
    decreases frames.len(),
{
    if frames.len() == 0 {
        Seq::empty()
    } else {
        flat_frames(frames.drop_last()) + frames.last()@
    }
}

/// `dOps` (OpusSpecificBox), big-endian: version 0, output channel count,
/// pre-skip 0, input rate 48000, gain 0, channel mapping family 0.
pub open spec fn dops_spec(channels: u16) -> Seq<u8> {
    box_spec(
        seq![0x64u8, 0x4f, 0x70, 0x73],
        seq![0u8, channels as u8] + be16(0) + be32(48_000) + be16(0) + seq![0u8],
    )
}

/// Cuts interleaved PCM into whole 20 ms Opus frames.
pub struct OpusFramer {
    channels: u16,
    frame_samples: usize,  // 960 * channels
    buf: Vec<i16>,
    /// Every sample pushed so far, in order.
    pushed: Ghost<Seq<i16>>,
    /// Every whole frame `push` has returned so far, in order.
    framed: Ghost<Seq<Vec<i16>>>,
}

impl OpusFramer {
    #[verifier::type_invariant]
    spec fn wf(self) -> bool {
        &&& self.channels == 1 || self.channels == 2
        &&& self.frame_samples == OPUS_FRAME_LEN * self.channels
    }

    pub closed spec fn channels_spec(&self) -> u16 {
        self.channels
    }

    /// Interleaved samples per frame.
    pub closed spec fn frame_samples_spec(&self) -> usize {
        self.frame_samples
    }

    /// Samples handed in but not yet part of a frame.
    pub closed spec fn buffered(&self) -> Seq<i16> {
        self.buf@
    }

    /// Every sample pushed so far, in order.
    pub closed spec fn pushed(&self) -> Seq<i16> {
        self.pushed@
    }

    /// Every whole frame `push` has returned so far, in order.
    pub closed spec fn framed(&self) -> Seq<Vec<i16>> {
        self.framed@
    }

    /// Nothing lost or reordered so far: the frames returned, then what is
    /// buffered, are the samples pushed; every frame is whole and less than
    /// one frame is buffered.
    pub open spec fn in_step(&self) -> bool {
        &&& flat_frames(self.framed()) + self.buffered() == self.pushed()
        &&& self.buffered().len() < self.frame_samples_spec()
        &&& forall|i: int|
            #![trigger self.framed()[i]]
            0 <= i < self.framed().len() ==> self.framed()[i]@.len() == self.frame_samples_spec()
    }

    /// Opus here requires 48 kHz input and 1 or 2 channels; the rate is
    /// checked first.
    pub fn new(sample_rate: u32, channels: u16) -> (res: Result<Self, CodecError>)
        ensures
            match res {
                Ok(f) => {
                    &&& sample_rate == 48_000
                    &&& channels == 1 || channels == 2
                    &&& f.channels_spec() == channels
                    &&& f.frame_samples_spec() == OPUS_FRAME_LEN * channels
                    &&& f.buffered() == Seq::<i16>::empty()
                    &&& f.pushed() == Seq::<i16>::empty()
                    &&& f.framed() == Seq::<Vec<i16>>::empty()
                    &&& f.in_step()
                },
                Err(e) => if sample_rate != 48_000 {
                    e == CodecError::OpusSampleRate(sample_rate)
                } else {
                    e == CodecError::UnsupportedChannels(CodecKind::Opus, channels)
                },
            },
    {
        if sample_rate != 48_000 {
            return Err(CodecError::OpusSampleRate(sample_rate));
        }
        if channels != 1 && channels != 2 {
            return Err(CodecError::UnsupportedChannels(CodecKind::Opus, channels));
        }
        let f = Self {
            channels,
            frame_samples: OPUS_FRAME_LEN * channels as usize,
            buf: Vec::new(),
            pushed: Ghost(Seq::empty()),
            framed: Ghost(Seq::empty()),
        };
        assert(flat_frames(f.framed()) + f.buffered() =~= f.pushed());
        Ok(f)
    }

    /// Buffers the samples and returns every whole frame now available, in
    /// order. Nothing is lost or reordered: the frames followed by what stays
    /// buffered are the old buffer followed by the input, and less than one
    /// frame stays buffered.
    pub fn push(&mut self, interleaved: &[i16]) -> (res: Vec<Vec<i16>>)
        ensures
            final(self).channels_spec() == old(self).channels_spec(),
            final(self).frame_samples_spec() == old(self).frame_samples_spec(),
            flat_frames(res@) + final(self).buffered() == old(self).buffered() + interleaved@,
            final(self).buffered().len() < final(self).frame_samples_spec(),
            forall|i: int|
                #![trigger res@[i]]
                0 <= i < res@.len() ==> res@[i]@.len() == old(self).frame_samples_spec(),
            final(self).pushed() == old(self).pushed() + interleaved@,
            final(self).framed() == old(self).framed() + res@,
            old(self).in_step() ==> final(self).in_step(),
    {
        proof {
            use_type_invariant(&*self);
        }
        let mut all: Vec<i16> = Vec::new();
        std::mem::swap(&mut all, &mut self.buf);
        super::push_all_i16(&mut all, interleaved);
        let fs = self.frame_samples;
        let mut frames: Vec<Vec<i16>> = Vec::new();
        let mut pos: usize = 0;
        while all.len() - pos >= fs
            invariant
                pos <= all@.len(),
                fs == OPUS_FRAME_LEN * self.channels,
                fs > 0,
                flat_frames(frames@) == all@.subrange(0, pos as int),
                forall|i: int|
                    #![trigger frames@[i]]
                    0 <= i < frames@.len() ==> frames@[i]@.len() == fs,
            decreases all@.len() - pos,
        {
            let mut frame: Vec<i16> = Vec::new();
            let mut k: usize = 0;
            while k < fs
                invariant
                    k <= fs,
                    pos + fs <= all.len(),
                    frame@ == all@.subrange(pos as int, pos + k),
                decreases fs - k,
            {
                frame.push(all[pos + k]);
                k = k + 1;
            }
            let ghost before = frames@;
            frames.push(frame);
            assert(frames@.drop_last() == before);
            assert(all@.subrange(0, (pos + fs) as int) =~= all@.subrange(0, pos as int)
                + all@.subrange(pos as int, pos + fs));
            pos = pos + fs;
        }
        let mut rest: Vec<i16> = Vec::new();
        let mut j = pos;
        while j < all.len()
            invariant
                pos <= j <= all@.len(),
                rest@ == all@.subrange(pos as int, j as int),
            decreases all@.len() - j,
        {
            rest.push(all[j]);
            j = j + 1;
        }
        assert(all@.subrange(0, pos as int) + all@.subrange(pos as int, all@.len() as int) =~= all@);
        self.buf = rest;
        proof {
            let fr = frames@;
            self.pushed@ = old(self).pushed() + interleaved@;
            self.framed@ = old(self).framed() + fr;
            assert(flat_frames(fr) + self.buf@ =~= old(self).buffered() + interleaved@);
            if old(self).in_step() {
                lemma_flat_frames_concat(old(self).framed(), fr);
                assert(self.pushed@ =~= flat_frames(old(self).framed()) + (old(self).buffered()
                    + interleaved@));
                assert(flat_frames(self.framed@) + self.buf@ =~= flat_frames(old(self).framed()) + (
                flat_frames(fr) + self.buf@));
                assert forall|i: int|
                    #![trigger self.framed@[i]]
                    0 <= i < self.framed@.len() implies self.framed@[i]@.len() == fs by {
                    if i < old(self).framed().len() {
                        assert(self.framed@[i] == old(self).framed()[i]);
                    } else {
                        assert(self.framed@[i] == fr[i - old(self).framed().len()]);
                    }
                }
            }
        }
        frames
    }

    /// The final partial frame, zero-padded to a whole 20 ms block, or `None`
    /// when nothing is buffered. Leaves the buffer empty.
    pub fn take_padded(&mut self) -> (res: Option<Vec<i16>>)
        ensures
            final(self).channels_spec() == old(self).channels_spec(),
            final(self).frame_samples_spec() == old(self).frame_samples_spec(),
            final(self).buffered() == Seq::<i16>::empty(),
            old(self).buffered().len() == 0 ==> res is None,
            old(self).buffered().len() > 0 && old(self).buffered().len() <= old(
                self,
            ).frame_samples_spec() ==> (res matches Some(f) && f@ == old(self).buffered() + Seq::new(
                (old(self).frame_samples_spec() - old(self).buffered().len()) as nat,
                |i: int| 0i16,
            )),
            old(self).buffered().len() > old(self).frame_samples_spec() ==> (res matches Some(f)
                && f@ == old(self).buffered().subrange(0, old(self).frame_samples_spec() as int)),
            final(self).pushed() == old(self).pushed(),
            final(self).framed() == old(self).framed(),
            old(self).in_step() ==> ({
                let n = old(self).pushed().len() as int;
                let fs = old(self).frame_samples_spec() as int;
                &&& old(self).framed().len() == n / fs
                &&& (res is Some <==> n % fs != 0)
                &&& res matches Some(f) ==> f@ == old(self).pushed().subrange(n - n % fs, n) + Seq::new(
                    (fs - n % fs) as nat,
                    |i: int| 0i16,
                )
            }),
    {
        proof {
            use_type_invariant(&*self);
        }
        proof {
            if old(self).in_step() {
                law_opus_framing(
                    old(self).framed(),
                    old(self).buffered(),
                    old(self).pushed(),
                    old(self).frame_samples_spec() as int,
                );
            }
        }
        if self.buf.len() == 0 {
            return None;
        }
        // Zero-pad the final partial frame to a whole 20 ms block.
        let mut frame: Vec<i16> = Vec::new();
        std::mem::swap(&mut frame, &mut self.buf);
        let fs = self.frame_samples;
        let ghost orig = frame@;
        if frame.len() > fs {
            let mut cut: Vec<i16> = Vec::new();
            let mut k: usize = 0;
            while k < fs
                invariant
                    k <= fs < frame@.len(),
                    cut@ == frame@.subrange(0, k as int),
                decreases fs - k,
            {
                cut.push(frame[k]);
                k = k + 1;
            }
            return Some(cut);
        }
        while frame.len() < fs
            invariant
                orig.len() <= frame@.len() <= fs,
                frame@ == orig + Seq::new((frame@.len() - orig.len()) as nat, |i: int| 0i16),
            decreases fs - frame@.len(),
        {
            let ghost prev = frame@;
            frame.push(0);
            assert(frame@ =~= orig + Seq::new((frame@.len() - orig.len()) as nat, |i: int| 0i16));
        }
        Some(frame)
    }

    /// `dOps` (OpusSpecificBox). All multi-byte fields are big-endian here
    /// (unlike the little-endian Ogg `OpusHead`).
    pub fn dops_box(&self) -> (res: Vec<u8>)
        ensures
            res@ == dops_spec(self.channels_spec()),
    {
        let mut b = Buf::new();
        b.u8(0)  // Version
        .u8(self.channels as u8)  // OutputChannelCount
        .u16(0)  // PreSkip: 0 so no real audio is trimmed at start
        .u32(48_000)  // InputSampleRate
        .u16(0)  // OutputGain (Q7.8, signed) = 0
        .u8(0);  // ChannelMappingFamily = 0 (mono/stereo)
        let payload = b.take();
        mp4_box(&[0x64, 0x4f, 0x70, 0x73], payload.as_slice())  // "dOps"
    }

    /// `Opus` with a `dOps` box, at 48 kHz with 16-bit samples.
    pub fn sample_entry(&self) -> (res: SampleEntry)
        ensures
            res.fourcc@ == seq![0x4fu8, 0x70, 0x75, 0x73],
            res.config_boxes@ == dops_spec(self.channels_spec()),
            res.channels == self.channels_spec(),
            res.sample_rate == 48_000,
            res.sample_size == 16,
    {
        SampleEntry {
            fourcc: [0x4f, 0x70, 0x75, 0x73],  // "Opus"
            config_boxes: self.dops_box(),
            channels: self.channels,
            sample_rate: 48_000,
            sample_size: 16,
        }
    }
}

/// The frames of two batches, concatenated, are the first batch's followed by
/// the second's.
pub proof fn lemma_flat_frames_concat(a: Seq<Vec<i16>>, b: Seq<Vec<i16>>)
    ensures
        flat_frames(a + b) == flat_frames(a) + flat_frames(b),
    decreases b.len(),
{
    if b.len() == 0 {
        assert(a + b =~= a);
        assert(flat_frames(a) + flat_frames(b) =~= flat_frames(a));
    } else {
        lemma_flat_frames_concat(a, b.drop_last());
        assert((a + b).drop_last() =~= a + b.drop_last());
        assert((a + b).last() == b.last());
    }
}

proof fn lemma_flat_frames_len(frames: Seq<Vec<i16>>, f: int)
    requires
        forall|i: int| #![trigger frames[i]] 0 <= i < frames.len() ==> frames[i]@.len() == f,
    ensures
        flat_frames(frames).len() == frames.len() * f,
    decreases frames.len(),
{
    if frames.len() > 0 {
        let init = frames.drop_last();
        assert forall|i: int| #![trigger init[i]] 0 <= i < init.len() implies init[i]@.len() == f by {
            assert(init[i] == frames[i]);
        }
        lemma_flat_frames_len(init, f);
        assert(frames.last() == frames[frames.len() - 1]);
        assert(init.len() * f + f == frames.len() * f) by (nonlinear_arith)
            requires
                init.len() + 1 == frames.len(),
        ;
    }
}

/// Opus framing over a whole stream: if the frames handed out so far by a
/// run of pushes, followed by what is still buffered, are all the samples
/// pushed (as each push ensures), then there is one frame per whole 20 ms of
/// input and the buffer holds the remainder, which a final `take_padded`
/// turns into one more frame exactly when it is not empty.
pub proof fn law_opus_framing(frames: Seq<Vec<i16>>, buffered: Seq<i16>, input: Seq<i16>, frame_samples: int)
    requires
        frame_samples > 0,
        flat_frames(frames) + buffered == input,
        buffered.len() < frame_samples,
        forall|i: int| #![trigger frames[i]] 0 <= i < frames.len() ==> frames[i]@.len() == frame_samples,
    ensures
        frames.len() == (input.len() as int) / frame_samples,
        buffered.len() == (input.len() as int) % frame_samples,
        buffered == input.subrange(input.len() - buffered.len(), input.len() as int),
{
    lemma_flat_frames_len(frames, frame_samples);
    let k = frames.len() as int;
    let r = buffered.len() as int;
    assert(input.len() == k * frame_samples + r);
    assert((input.len() as int) / frame_samples == k && (input.len() as int) % frame_samples == r) by (nonlinear_arith)
        requires
            input.len() == k * frame_samples + r,
            0 <= r < frame_samples,
            k >= 0,
    ;
    assert(buffered =~= input.subrange(input.len() - buffered.len(), input.len() as int));
}

} // verus!
