//! Interleaved 16-bit little-endian stereo PCM, as it flows through the FIFOs.
//!
//! One frame is four bytes: the left sample (low byte, high byte), then the
//! right sample (low byte, high byte).

use vstd::prelude::*;

verus! {

/// Number of bytes in one stereo frame.
pub const FRAME_BYTES: usize = 4;

/// The value of a two's-complement 16-bit integer given by its low and high byte.
pub open spec fn i16_from_le(lo: u8, hi: u8) -> i16 {
    let u: int = lo as int + 256 * hi as int;
    if u >= 32768 {
        (u - 65536) as i16
    } else {
        u as i16
    }
}

/// The unsigned 16-bit pattern of `v`.
pub open spec fn u16_bits(v: i16) -> int {
    if v < 0 {
        v + 65536
    } else {
        v as int
    }
}

/// Low byte of the little-endian encoding of `v`.
pub open spec fn i16_low(v: i16) -> u8 {
    (u16_bits(v) % 256) as u8
}

/// High byte of the little-endian encoding of `v`.
pub open spec fn i16_high(v: i16) -> u8 {
    (u16_bits(v) / 256) as u8
}

/// Byte `j` (0..4) of the encoding of frame `f`.
pub open spec fn frame_byte(f: (i16, i16), j: int) -> u8 {
    if j == 0 {
        i16_low(f.0)
    } else if j == 1 {
        i16_high(f.0)
    } else if j == 2 {
        i16_low(f.1)
    } else {
        i16_high(f.1)
    }
}

/// The frames held by a byte stream: one per complete group of four bytes;
/// a trailing partial frame is not part of it.
pub open spec fn decode_frames(b: Seq<u8>) -> Seq<(i16, i16)> {
    Seq::new(
        b.len() / 4,
        |i: int| (i16_from_le(b[4 * i], b[4 * i + 1]), i16_from_le(b[4 * i + 2], b[4 * i + 3])),
    )
}

/// The byte stream of a sequence of frames.
pub open spec fn encode_frames(s: Seq<(i16, i16)>) -> Seq<u8> {
    Seq::new(4 * s.len(), |k: int| frame_byte(s[k / 4], k % 4))
}

fn i16_from_le_bytes(lo: u8, hi: u8) -> (v: i16)
    ensures
        v == i16_from_le(lo, hi),
{
    let u: u32 = lo as u32 + (hi as u32) * 256;
    if u >= 32768 {
        (u as i32 - 65536) as i16
    } else {
        u as i16
    }
}

fn i16_to_le_bytes(v: i16) -> (r: (u8, u8))
    ensures
        r.0 == i16_low(v),
        r.1 == i16_high(v),
{
    let u: u32 = if v < 0 {
        (v as i32 + 65536) as u32
    } else {
        v as u32
    };
    ((u % 256) as u8, (u / 256) as u8)
}

/// Splits a byte buffer into stereo frames; bytes after the last complete
/// frame are dropped.
pub fn bytes_to_stereo_samples(buffer: &[u8]) -> (samples: Vec<(i16, i16)>)
    ensures
        samples@ == decode_frames(buffer@),
        samples.len() == buffer.len() / 4,
{
    let n: usize = buffer.len() / FRAME_BYTES;
    let mut samples: Vec<(i16, i16)> = Vec::new();
    let mut i: usize = 0;
    while i < n
        invariant
            n == buffer.len() / 4,
            i <= n,
            samples.len() == i,
            forall|k: int| 0 <= k < i ==> samples@[k] == #[trigger] decode_frames(buffer@)[k],
        decreases n - i,
    {
        let base: usize = i * FRAME_BYTES;
        let left = i16_from_le_bytes(buffer[base], buffer[base + 1]);
        let right = i16_from_le_bytes(buffer[base + 2], buffer[base + 3]);
        samples.push((left, right));
        i += 1;
    }
    assert(samples@ =~= decode_frames(buffer@));
    samples
}

/// Serialises stereo frames to the interleaved little-endian byte stream.
pub fn stereo_samples_to_bytes(samples: &[(i16, i16)]) -> (buffer: Vec<u8>)
    requires
        samples.len() * 4 <= usize::MAX,
    ensures
        buffer@ == encode_frames(samples@),
        buffer.len() == samples.len() * 4,
{
    let mut buffer: Vec<u8> = Vec::with_capacity(samples.len() * FRAME_BYTES);
    let mut i: usize = 0;
    while i < samples.len()
        invariant
            i <= samples.len(),
            samples.len() * 4 <= usize::MAX,
            buffer.len() == 4 * i,
            forall|k: int| 0 <= k < 4 * i ==> buffer@[k] == #[trigger] encode_frames(samples@)[k],
        decreases samples.len() - i,
    {
        let (left, right) = samples[i];
        let (l0, l1) = i16_to_le_bytes(left);
        let (r0, r1) = i16_to_le_bytes(right);
        buffer.push(l0);
        buffer.push(l1);
        buffer.push(r0);
        buffer.push(r1);
        proof {
            assert forall|k: int| 4 * i <= k < 4 * i + 4 implies buffer@[k]
                == #[trigger] encode_frames(samples@)[k] by {
                assert(k / 4 == i as int);
                assert(k % 4 == k - 4 * i);
            }
        }
        i += 1;
    }
    assert(buffer@ =~= encode_frames(samples@));
    buffer
}

/// What the FIFO reader does after one read.
#[derive(Debug, Clone, PartialEq, Eq)]
pub enum ReaderAction {
    /// The read returned no bytes: pause briefly and read again.
    Wait,
    /// Hand these frames to the audio pipeline.
    Send(Vec<(i16, i16)>),
    /// Bytes arrived but no complete frame: read again without sending.
    Continue,
    /// The read failed: stop reading.
    Stop,
}

/// Decides the reader's next step from the outcome of one read: `None` for a
/// failed read, otherwise the bytes it delivered. Each read is decoded on its
/// own, so bytes of a frame split across two reads are dropped.
pub fn reader_step(read: Option<&[u8]>) -> (action: ReaderAction)
    ensures
        match read {
            None => action is Stop,
            Some(b) => if b.len() == 0 {
                action is Wait
            } else if b.len() < 4 {
                action is Continue
            } else {
                action matches ReaderAction::Send(f) && f@ == decode_frames(b@)
            },
        },
{
    match read {
        None => ReaderAction::Stop,
        Some(bytes) => {
            if bytes.len() == 0 {
                ReaderAction::Wait
            } else {
                let samples = bytes_to_stereo_samples(bytes);
                if samples.len() == 0 {
                    ReaderAction::Continue
                } else {
                    ReaderAction::Send(samples)
                }
            }
        },
    }
}

proof fn lemma_i16_bytes_roundtrip(v: i16)
    ensures
        i16_from_le(i16_low(v), i16_high(v)) == v,
{
    let u: int = u16_bits(v);
    assert(0 <= u < 65536);
    assert(i16_low(v) as int + 256 * (i16_high(v) as int) == u);
}

proof fn lemma_bytes_i16_roundtrip(lo: u8, hi: u8)
    ensures
        i16_low(i16_from_le(lo, hi)) == lo,
        i16_high(i16_from_le(lo, hi)) == hi,
{
    let u: int = lo as int + 256 * hi as int;
    assert(u16_bits(i16_from_le(lo, hi)) == u);
    assert(u % 256 == lo as int && u / 256 == hi as int) by (nonlinear_arith)
        requires
            u == lo as int + 256 * hi as int,
            0 <= lo < 256,
            0 <= hi < 256,
    ;
}

/// Encoding frames and decoding the bytes gives back the same frames.
pub proof fn law_decode_encode(s: Seq<(i16, i16)>)
    ensures
        decode_frames(encode_frames(s)) == s,
{
    let b = encode_frames(s);
    assert forall|i: int| 0 <= i < s.len() implies #[trigger] decode_frames(b)[i] == s[i] by {
        assert((4 * i) / 4 == i && (4 * i) % 4 == 0);
        assert((4 * i + 1) / 4 == i && (4 * i + 1) % 4 == 1);
        assert((4 * i + 2) / 4 == i && (4 * i + 2) % 4 == 2);
        assert((4 * i + 3) / 4 == i && (4 * i + 3) % 4 == 3);
        lemma_i16_bytes_roundtrip(s[i].0);
        lemma_i16_bytes_roundtrip(s[i].1);
    }
    assert(decode_frames(b) =~= s);
}

/// Decoding a byte stream and encoding the frames gives back the stream up to
/// its last complete frame: a trailing partial frame is lost.
pub proof fn law_encode_decode(b: Seq<u8>)
    ensures
        encode_frames(decode_frames(b)) == b.take(4 * (b.len() / 4) as int),
{
    let s = decode_frames(b);
    let t = b.take(4 * (b.len() / 4) as int);
    assert forall|k: int| 0 <= k < t.len() implies #[trigger] encode_frames(s)[k] == t[k] by {
        let i: int = k / 4;
        let j: int = k % 4;
        assert(k == 4 * i + j);
        assert(0 <= i < b.len() / 4);
        lemma_bytes_i16_roundtrip(b[4 * i], b[4 * i + 1]);
        lemma_bytes_i16_roundtrip(b[4 * i + 2], b[4 * i + 3]);
    }
    assert(encode_frames(s) =~= t);
}

/// Frame `i` of a byte stream is made of bytes `4i..4i+4`: the left sample
/// from bytes `4i` (low) and `4i+1` (high), the right one from `4i+2` and
/// `4i+3`, each read as a two's-complement 16-bit number; there are as many
/// frames as complete groups of four bytes.
pub proof fn law_decode_frames(b: Seq<u8>, i: int)
    ensures
        decode_frames(b).len() == b.len() / 4,
        0 <= i < b.len() / 4 ==> {
            let lo_l = b[4 * i] as int;
            let hi_l = b[4 * i + 1] as int;
            let lo_r = b[4 * i + 2] as int;
            let hi_r = b[4 * i + 3] as int;
            &&& decode_frames(b)[i].0 as int == lo_l + 256 * hi_l - (if hi_l >= 128 {
                65536int
            } else {
                0int
            })
            &&& decode_frames(b)[i].1 as int == lo_r + 256 * hi_r - (if hi_r >= 128 {
                65536int
            } else {
                0int
            })
        },
{
}

/// The stream of a frame sequence has four bytes per frame: the left sample's
/// low and high byte, then the right sample's, in two's complement.
pub proof fn law_encode_frames(s: Seq<(i16, i16)>, i: int)
    ensures
        encode_frames(s).len() == 4 * s.len(),
        0 <= i < s.len() ==> {
            let l = if s[i].0 < 0 { s[i].0 + 65536 } else { s[i].0 as int };
            let r = if s[i].1 < 0 { s[i].1 + 65536 } else { s[i].1 as int };
            &&& encode_frames(s)[4 * i] as int == l % 256
            &&& encode_frames(s)[4 * i + 1] as int == l / 256
            &&& encode_frames(s)[4 * i + 2] as int == r % 256
            &&& encode_frames(s)[4 * i + 3] as int == r / 256
        },
{
    if 0 <= i < s.len() {
        assert((4 * i) / 4 == i && (4 * i) % 4 == 0);
        assert((4 * i + 1) / 4 == i && (4 * i + 1) % 4 == 1);
        assert((4 * i + 2) / 4 == i && (4 * i + 2) % 4 == 2);
        assert((4 * i + 3) / 4 == i && (4 * i + 3) % 4 == 3);
    }
}

} // verus!
