//! Minimal ISO-BMFF (MP4) box-building primitives shared by the muxer and the
//! codec-specific sample-entry descriptors.

use vstd::prelude::*;

verus! {

/// Big-endian encoding of a 16-bit value.
pub open spec fn be16(v: u16) -> Seq<u8> {
    seq![(v >> 8u16) as u8, v as u8]
}

/// Big-endian encoding of a 32-bit value.
pub open spec fn be32(v: u32) -> Seq<u8> {
    seq![(v >> 24u32) as u8, (v >> 16u32) as u8, (v >> 8u32) as u8, v as u8]
}

/// Big-endian encoding of a 64-bit value.
pub open spec fn be64(v: u64) -> Seq<u8> {
    be32((v >> 32u64) as u32) + be32(v as u32)
}

/// The low 24 bits of `v`, big-endian.
pub open spec fn be24(v: u32) -> Seq<u8> {
    be32(v).subrange(1, 4)
}

/// The bytes of `s` repeated zero bytes.
pub open spec fn zero_bytes(n: nat) -> Seq<u8> {
    Seq::new(n, |i: int| 0u8)
}

/// An ISO-BMFF box: 32-bit size (header included), four-character type, payload.
/// The size field is the total length truncated to 32 bits.
pub open spec fn box_spec(fourcc: Seq<u8>, payload: Seq<u8>) -> Seq<u8> {
    be32((8 + payload.len()) as u32) + fourcc + payload
}

/// An ISO-BMFF full box: a box whose payload starts with a version byte and
/// 24 bits of flags.
pub open spec fn full_box_spec(fourcc: Seq<u8>, version: u8, flags: u32, payload: Seq<u8>) -> Seq<u8> {
    box_spec(fourcc, seq![version] + be24(flags) + payload)
}

/// The concatenation of a sequence of byte strings, in order.
pub open spec fn flat(parts: Seq<Seq<u8>>) -> Seq<u8>
    decreases parts.len(),
{
    if parts.len() == 0 {
        Seq::empty()
    } else {
        flat(parts.drop_last()) + parts.last()
    }
}

/// Reads a big-endian 32-bit value from four bytes.
pub open spec fn read_be32(b: Seq<u8>) -> int {
    b[0] as int * 0x100_0000 + b[1] as int * 0x1_0000 + b[2] as int * 0x100 + b[3] as int
}

pub fn push_be16(out: &mut Vec<u8>, v: u16)
    ensures
        final(out)@ == old(out)@ + be16(v),
{
    out.push((v >> 8u16) as u8);
    out.push(v as u8);
}

pub fn push_be32(out: &mut Vec<u8>, v: u32)
    ensures
        final(out)@ == old(out)@ + be32(v),
{
    out.push((v >> 24u32) as u8);
    out.push((v >> 16u32) as u8);
    out.push((v >> 8u32) as u8);
    out.push(v as u8);
}

/// Appends all of `src` to `out`.
pub fn push_all(out: &mut Vec<u8>, src: &[u8])
    ensures
        final(out)@ == old(out)@ + src@,
{
    let mut i: usize = 0;
    while i < src.len()
        invariant
            i <= src.len(),
            out@ == old(out)@ + src@.subrange(0, i as int),
        decreases src.len() - i,
    {
        out.push(src[i]);
        i = i + 1;
        assert(src@.subrange(0, i as int) == src@.subrange(0, i - 1) + seq![src@[i - 1]]);
    }
    assert(src@.subrange(0, src@.len() as int) == src@);
}

/// A single ISO-BMFF box: `size(4) + type(4) + payload`.
pub fn mp4_box(fourcc: &[u8; 4], payload: &[u8]) -> (res: Vec<u8>)
    ensures
        res@ == box_spec(fourcc@, payload@),
{
    let mut out = Vec::new();
    let n: usize = payload.len();
    let size: u32 = (n as u32).wrapping_add(8);
    assert(size == (8 + n) as u32) by (bit_vector)
        requires size == (n as u32).wrapping_add(8);
    push_be32(&mut out, size);
    push_all(&mut out, fourcc.as_slice());
    push_all(&mut out, payload);
    out
}


/// A "full box": `size(4) + type(4) + version(1) + flags(3) + payload`.
pub fn full_box(fourcc: &[u8; 4], version: u8, flags: u32, payload: &[u8]) -> (res: Vec<u8>)
    ensures
        res@ == full_box_spec(fourcc@, version, flags, payload@),
{
    let mut body = Vec::new();
    body.push(version);
    body.push((flags >> 16u32) as u8);
    body.push((flags >> 8u32) as u8);
    body.push(flags as u8);
    push_all(&mut body, payload);
    assert(body@ == seq![version] + be24(flags) + payload@);
    mp4_box(fourcc, body.as_slice())
}

/// Concatenate several byte buffers.
pub fn concat(parts: &[&[u8]]) -> (res: Vec<u8>)
    ensures
        res@ == flat(parts@.map_values(|p: &[u8]| p@)),
{
    let ghost views = parts@.map_values(|p: &[u8]| p@);
    let mut out = Vec::new();
    let mut i: usize = 0;
    while i < parts.len()
        invariant
            i <= parts.len(),
            views == parts@.map_values(|p: &[u8]| p@),
            out@ == flat(views.subrange(0, i as int)),
        decreases parts.len() - i,
    {
        push_all(&mut out, parts[i]);
        i = i + 1;
        assert(views.subrange(0, i as int).drop_last() == views.subrange(0, i - 1));
    }
    assert(views.subrange(0, parts.len() as int) == views);
    out
}

/// Helper for building a byte buffer with big-endian primitives.
pub struct Buf(pub Vec<u8>);

impl View for Buf {
    type V = Seq<u8>;

    open spec fn view(&self) -> Seq<u8> {
        self.0@
    }
}

impl Default for Buf {
    fn default() -> (res: Self)
        ensures
            res@ == Seq::<u8>::empty(),
    {
        Buf(Vec::new())
    }
}

impl Buf {
    /// An empty buffer.
    pub fn new() -> (res: Self)
        ensures
            res@ == Seq::<u8>::empty(),
    {
        Buf(Vec::new())
    }

    /// Appends one byte.
    pub fn u8(&mut self, v: u8) -> (res: &mut Self)
        ensures
            res@ == old(self)@.push(v),
            *final(self) == *final(res),
    {
        self.0.push(v);
        self
    }

    /// Appends a big-endian 16-bit value.
    pub fn u16(&mut self, v: u16) -> (res: &mut Self)
        ensures
            res@ == old(self)@ + be16(v),
            *final(self) == *final(res),
    {
        push_be16(&mut self.0, v);
        self
    }

    /// Appends a big-endian 32-bit value.
    pub fn u32(&mut self, v: u32) -> (res: &mut Self)
        ensures
            res@ == old(self)@ + be32(v),
            *final(self) == *final(res),
    {
        push_be32(&mut self.0, v);
        self
    }

    /// Appends a big-endian 64-bit value.
    pub fn u64(&mut self, v: u64) -> (res: &mut Self)
        ensures
            res@ == old(self)@ + be64(v),
            *final(self) == *final(res),
    {
        push_be32(&mut self.0, (v >> 32u64) as u32);
        push_be32(&mut self.0, v as u32);
        self
    }

    /// Appends raw bytes.
    pub fn bytes(&mut self, v: &[u8]) -> (res: &mut Self)
        ensures
            res@ == old(self)@ + v@,
            *final(self) == *final(res),
    {
        push_all(&mut self.0, v);
        self
    }

    /// Appends `n` zero bytes.
    pub fn zeros(&mut self, n: usize) -> (res: &mut Self)
        ensures
            res@ == old(self)@ + zero_bytes(n as nat),
            *final(self) == *final(res),
    {
        let ghost start = self.0@;
        let mut i: usize = 0;
        while i < n
            invariant
                i <= n,
                self.0@ == start + zero_bytes(i as nat),
            decreases n - i,
        {
            self.0.push(0u8);
            i = i + 1;
            assert(self.0@ == start + zero_bytes(i as nat));
        }
        self
    }

    /// Moves the contents out, leaving the buffer empty.
    pub fn take(&mut self) -> (res: Vec<u8>)
        ensures
            res@ == old(self)@,
            final(self)@ == Seq::<u8>::empty(),
    {
        let mut out: Vec<u8> = Vec::new();
        std::mem::swap(&mut out, &mut self.0);
        out
    }
}

} // verus!
