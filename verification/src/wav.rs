//! Canonical RIFF/WAVE framing for mono PCM.
//!
//! The library frames complete WAV files as bytes; writing them to disk
//! is the application's business.  Two sample formats are supported: the
//! default 32-bit IEEE-float samples, carried through this crate as their
//! bit patterns so that nothing alters them, and 16-bit integer PCM.  A
//! strict parser for the float format is specified alongside the writer,
//! and the round trip through the bytes is proved exact.

use vstd::prelude::*;

verus! {

/// The four little-endian bytes of a 32-bit word.
pub open spec fn le32(x: u32) -> Seq<u8> {
    seq![
        (x & 0xFF) as u8,
        ((x >> 8) & 0xFF) as u8,
        ((x >> 16) & 0xFF) as u8,
        ((x >> 24) & 0xFF) as u8,
    ]
}

/// The two little-endian bytes of a 16-bit word.
pub open spec fn le16(x: u16) -> Seq<u8> {
    seq![(x & 0xFF) as u8, ((x >> 8) & 0xFF) as u8]
}

/// The 32-bit word encoded by four little-endian bytes.
pub open spec fn word_at(b: Seq<u8>, i: int) -> int {
    b[i] + 0x100 * b[i + 1] + 0x10000 * b[i + 2] + 0x1000000 * b[i + 3]
}

/// The 16-bit word encoded by two little-endian bytes.
pub open spec fn half_at(b: Seq<u8>, i: int) -> int {
    b[i] + 0x100 * b[i + 1]
}

/// The canonical 44-byte mono header: RIFF and WAVE marks, a 16-byte fmt
/// chunk with the given format tag, rate and widths, and the data mark
/// with the payload size.
pub open spec fn wav_header_spec(fmt: u16, bits: u16, block: u16, sr: u32, data_len: u32) -> Seq<u8> {
    seq![0x52u8, 0x49u8, 0x46u8, 0x46u8]  // "RIFF"
        + le32((36 + data_len) as u32)
        + seq![0x57u8, 0x41u8, 0x56u8, 0x45u8]  // "WAVE"
        + seq![0x66u8, 0x6Du8, 0x74u8, 0x20u8]  // "fmt "
        + le32(16u32)
        + le16(fmt)
        + le16(1u16)
        + le32(sr)
        + le32((sr * (block as u32)) as u32)
        + le16(block)
        + le16(bits)
        + seq![0x64u8, 0x61u8, 0x74u8, 0x61u8]  // "data"
        + le32(data_len)
}

/// The data bytes of a float file: each sample's bit pattern, little
/// endian, in order.
pub open spec fn f32_data_spec(samples: Seq<u32>) -> Seq<u8>
    decreases samples.len(),
{
    if samples.len() == 0 {
        Seq::empty()
    } else {
        f32_data_spec(samples.drop_last()) + le32(samples.last())
    }
}

/// The data bytes of a 16-bit file.
pub open spec fn i16_data_spec(samples: Seq<i16>) -> Seq<u8>
    decreases samples.len(),
{
    if samples.len() == 0 {
        Seq::empty()
    } else {
        i16_data_spec(samples.drop_last()) + le16(samples.last() as u16)
    }
}

/// A complete float-format file.
pub open spec fn wav_f32_spec(samples: Seq<u32>, sr: u32) -> Seq<u8> {
    wav_header_spec(3u16, 32u16, 4u16, sr, (4 * samples.len()) as u32)
        + f32_data_spec(samples)
}

/// A complete 16-bit-format file.
pub open spec fn wav_i16_spec(samples: Seq<i16>, sr: u32) -> Seq<u8> {
    wav_header_spec(1u16, 16u16, 2u16, sr, (2 * samples.len()) as u32)
        + i16_data_spec(samples)
}

/// Most samples a framed file can carry under the format's 32-bit sizes.
pub const WAV_MAX_SAMPLES: usize = 0x0FFFFFF0;

/// Appends the little-endian bytes of a 32-bit word.
fn push_le32(out: &mut Vec<u8>, x: u32)
    ensures
        final(out)@ == old(out)@ + le32(x),
{
    let ghost pre = out@;
    out.push((x & 0xFF) as u8);
    out.push(((x >> 8) & 0xFF) as u8);
    out.push(((x >> 16) & 0xFF) as u8);
    out.push(((x >> 24) & 0xFF) as u8);
    proof {
        assert(out@ =~= pre + le32(x));
    }
}

/// Appends the little-endian bytes of a 16-bit word.
fn push_le16(out: &mut Vec<u8>, x: u16)
    ensures
        final(out)@ == old(out)@ + le16(x),
{
    let ghost pre = out@;
    out.push((x & 0xFF) as u8);
    out.push(((x >> 8) & 0xFF) as u8);
    proof {
        assert(out@ =~= pre + le16(x));
    }
}

/// Appends the canonical header.
fn push_header(out: &mut Vec<u8>, fmt: u16, bits: u16, block: u16, sr: u32, data_len: u32)
    requires
        1 <= block <= 4,
        sr <= 1000000,
        data_len <= 0x3FFFFFFF,
    ensures
        final(out)@ == old(out)@ + wav_header_spec(fmt, bits, block, sr, data_len),
{
    proof {
        assert((sr as int) * (block as int) <= 4000000) by (nonlinear_arith)
            requires sr <= 1000000 && block <= 4;
    }
    let ghost pre = out@;
    out.push(0x52u8);
    out.push(0x49u8);
    out.push(0x46u8);
    out.push(0x46u8);
    push_le32(out, 36 + data_len);
    out.push(0x57u8);
    out.push(0x41u8);
    out.push(0x56u8);
    out.push(0x45u8);
    out.push(0x66u8);
    out.push(0x6Du8);
    out.push(0x74u8);
    out.push(0x20u8);
    push_le32(out, 16u32);
    push_le16(out, fmt);
    push_le16(out, 1u16);
    push_le32(out, sr);
    push_le32(out, sr * (block as u32));
    push_le16(out, block);
    push_le16(out, bits);
    out.push(0x64u8);
    out.push(0x61u8);
    out.push(0x74u8);
    out.push(0x61u8);
    push_le32(out, data_len);
    proof {
        assert(out@ =~= pre + wav_header_spec(fmt, bits, block, sr, data_len));
    }
}

/// Frames a float-format mono file from the samples' bit patterns.
pub fn wav_file_f32(samples: &Vec<u32>, sample_rate: u32) -> (r: Vec<u8>)
    requires
        samples@.len() <= WAV_MAX_SAMPLES,
        1 <= sample_rate <= 1000000,
    ensures
        r@ == wav_f32_spec(samples@, sample_rate),
{
    let n: usize = samples.len();
    let data_len: u32 = (4 * n) as u32;
    let mut out: Vec<u8> = Vec::new();
    push_header(&mut out, 3u16, 32u16, 4u16, sample_rate, data_len);
    let ghost header = out@;
    let mut i: usize = 0;
    proof {
        assert(f32_data_spec(samples@.take(0)) =~= Seq::<u8>::empty());
        assert(out@ =~= header + f32_data_spec(samples@.take(0)));
    }
    while i < n
        invariant
            n == samples@.len(),
            i <= n,
            out@ == header + f32_data_spec(samples@.take(i as int)),
        decreases n - i,
    {
        push_le32(&mut out, samples[i]);
        proof {
            assert(samples@.take(i + 1).drop_last() =~= samples@.take(i as int));
            assert(samples@.take(i + 1).last() == samples@[i as int]);
            assert(out@ =~= header + f32_data_spec(samples@.take(i + 1)));
        }
        i = i + 1;
    }
    proof {
        assert(samples@.take(n as int) =~= samples@);
    }
    out
}

/// Frames a 16-bit-format mono file.
pub fn wav_file_i16(samples: &Vec<i16>, sample_rate: u32) -> (r: Vec<u8>)
    requires
        samples@.len() <= WAV_MAX_SAMPLES,
        1 <= sample_rate <= 1000000,
    ensures
        r@ == wav_i16_spec(samples@, sample_rate),
{
    let n: usize = samples.len();
    let data_len: u32 = (2 * n) as u32;
    let mut out: Vec<u8> = Vec::new();
    push_header(&mut out, 1u16, 16u16, 2u16, sample_rate, data_len);
    let ghost header = out@;
    let mut i: usize = 0;
    proof {
        assert(i16_data_spec(samples@.take(0)) =~= Seq::<u8>::empty());
        assert(out@ =~= header + i16_data_spec(samples@.take(0)));
    }
    while i < n
        invariant
            n == samples@.len(),
            i <= n,
            out@ == header + i16_data_spec(samples@.take(i as int)),
        decreases n - i,
    {
        push_le16(&mut out, samples[i] as u16);
        proof {
            assert(samples@.take(i + 1).drop_last() =~= samples@.take(i as int));
            assert(samples@.take(i + 1).last() == samples@[i as int]);
            assert(out@ =~= header + i16_data_spec(samples@.take(i + 1)));
        }
        i = i + 1;
    }
    proof {
        assert(samples@.take(n as int) =~= samples@);
    }
    out
}

/// A strict parse of the canonical float format: the header must read
/// back field for field, and the payload splits into four-byte words.
pub open spec fn parse_wav_f32(b: Seq<u8>) -> Option<(u32, Seq<u32>)> {
    if b.len() >= 44
        && (b.len() - 44) % 4 == 0
        && b.subrange(0, 4) == seq![0x52u8, 0x49u8, 0x46u8, 0x46u8]
        && word_at(b, 4) == b.len() - 8
        && b.subrange(8, 16)
            == seq![0x57u8, 0x41u8, 0x56u8, 0x45u8, 0x66u8, 0x6Du8, 0x74u8, 0x20u8]
        && word_at(b, 16) == 16
        && half_at(b, 20) == 3
        && half_at(b, 22) == 1
        && word_at(b, 28) == word_at(b, 24) * 4
        && half_at(b, 32) == 4
        && half_at(b, 34) == 32
        && b.subrange(36, 40) == seq![0x64u8, 0x61u8, 0x74u8, 0x61u8]
        && word_at(b, 40) == b.len() - 44
    {
        Some((
            word_at(b, 24) as u32,
            Seq::new(((b.len() - 44) / 4) as nat, |i: int| word_at(b, 44 + 4 * i) as u32),
        ))
    } else {
        None
    }
}

/// Four little-endian bytes decode to the word they encode.
proof fn lemma_word_at_le32(b: Seq<u8>, i: int, x: u32)
    requires
        0 <= i,
        i + 4 <= b.len(),
        b.subrange(i, i + 4) == le32(x),
    ensures
        word_at(b, i) == x,
{
    assert(b[i] == le32(x)[0] && b[i + 1] == le32(x)[1]
        && b[i + 2] == le32(x)[2] && b[i + 3] == le32(x)[3]) by {
        assert(b.subrange(i, i + 4)[0] == b[i]);
        assert(b.subrange(i, i + 4)[1] == b[i + 1]);
        assert(b.subrange(i, i + 4)[2] == b[i + 2]);
        assert(b.subrange(i, i + 4)[3] == b[i + 3]);
    }
    assert((x & 0xFF) < 256 && ((x >> 8) & 0xFF) < 256
        && ((x >> 16) & 0xFF) < 256 && ((x >> 24) & 0xFF) < 256) by (bit_vector);
    assert((x & 0xFF) + 0x100 * ((x >> 8) & 0xFF) + 0x10000 * ((x >> 16) & 0xFF)
        + 0x1000000 * ((x >> 24) & 0xFF) == x) by (bit_vector);
}

/// Two little-endian bytes decode to the half-word they encode.
proof fn lemma_half_at_le16(b: Seq<u8>, i: int, x: u16)
    requires
        0 <= i,
        i + 2 <= b.len(),
        b.subrange(i, i + 2) == le16(x),
    ensures
        half_at(b, i) == x,
{
    assert(b[i] == le16(x)[0] && b[i + 1] == le16(x)[1]) by {
        assert(b.subrange(i, i + 2)[0] == b[i]);
        assert(b.subrange(i, i + 2)[1] == b[i + 1]);
    }
    assert((x & 0xFF) < 256 && ((x >> 8) & 0xFF) < 256) by (bit_vector);
    assert((x & 0xFF) + 0x100 * ((x >> 8) & 0xFF) == x) by (bit_vector);
}

/// The data segment holds each sample's bytes at its slot.
proof fn lemma_f32_data_index(samples: Seq<u32>, j: int)
    requires
        0 <= j < samples.len(),
    ensures
        f32_data_spec(samples).len() == 4 * samples.len(),
        f32_data_spec(samples).subrange(4 * j, 4 * j + 4) == le32(samples[j]),
    decreases samples.len(),
{
    if samples.len() > 0 {
        let pre = samples.drop_last();
        if j < samples.len() - 1 {
            lemma_f32_data_index(pre, j);
            assert(f32_data_spec(samples).subrange(4 * j, 4 * j + 4)
                =~= f32_data_spec(pre).subrange(4 * j, 4 * j + 4));
        } else {
            if pre.len() > 0 {
                lemma_f32_data_index(pre, 0);
            } else {
                assert(f32_data_spec(pre) =~= Seq::<u8>::empty());
            }
            assert(f32_data_spec(samples).subrange(4 * j, 4 * j + 4)
                =~= le32(samples.last()));
        }
    }
}

/// The data segment's length alone.
proof fn lemma_f32_data_len(samples: Seq<u32>)
    ensures
        f32_data_spec(samples).len() == 4 * samples.len(),
    decreases samples.len(),
{
    if samples.len() > 0 {
        lemma_f32_data_len(samples.drop_last());
    }
}

/// Reading a framed float file back recovers the sample rate and every
/// sample's bit pattern exactly.
pub proof fn lemma_wav_f32_roundtrip(samples: Seq<u32>, sr: u32)
    requires
        samples.len() <= WAV_MAX_SAMPLES,
        1 <= sr <= 1000000,
    ensures
        parse_wav_f32(wav_f32_spec(samples, sr)) == Some((sr, samples)),
{
    let b = wav_f32_spec(samples, sr);
    let data_len = (4 * samples.len()) as u32;
    let h = wav_header_spec(3u16, 32u16, 4u16, sr, data_len);
    lemma_f32_data_len(samples);
    assert(h.len() == 44);
    assert(b.len() == 44 + 4 * samples.len());
    assert forall|i: int| 0 <= i < 44 implies b[i] == h[i] by {}
    assert(b.subrange(0, 4) =~= seq![0x52u8, 0x49u8, 0x46u8, 0x46u8]);
    assert(b.subrange(8, 16)
        =~= seq![0x57u8, 0x41u8, 0x56u8, 0x45u8, 0x66u8, 0x6Du8, 0x74u8, 0x20u8]);
    assert(b.subrange(36, 40) =~= seq![0x64u8, 0x61u8, 0x74u8, 0x61u8]);
    assert(b.subrange(4, 8) =~= le32((36 + data_len) as u32));
    assert(b.subrange(16, 20) =~= le32(16u32));
    assert(b.subrange(20, 22) =~= le16(3u16));
    assert(b.subrange(22, 24) =~= le16(1u16));
    assert(b.subrange(24, 28) =~= le32(sr));
    assert(b.subrange(28, 32) =~= le32((sr * 4) as u32));
    assert(b.subrange(32, 34) =~= le16(4u16));
    assert(b.subrange(34, 36) =~= le16(32u16));
    assert(b.subrange(40, 44) =~= le32(data_len));
    lemma_word_at_le32(b, 4, (36 + data_len) as u32);
    lemma_word_at_le32(b, 16, 16u32);
    lemma_half_at_le16(b, 20, 3u16);
    lemma_half_at_le16(b, 22, 1u16);
    lemma_word_at_le32(b, 24, sr);
    lemma_word_at_le32(b, 28, (sr * 4) as u32);
    lemma_half_at_le16(b, 32, 4u16);
    lemma_half_at_le16(b, 34, 32u16);
    lemma_word_at_le32(b, 40, data_len);
    assert(word_at(b, 4) == 36 + data_len);
    assert(word_at(b, 40) == b.len() - 44);
    let parsed = Seq::new(((b.len() - 44) / 4) as nat, |i: int| word_at(b, 44 + 4 * i) as u32);
    assert forall|j: int| 0 <= j < samples.len() implies parsed[j] == samples[j] by {
        lemma_f32_data_index(samples, j);
        let d = f32_data_spec(samples);
        assert(d.subrange(4 * j, 4 * j + 4) == le32(samples[j]));
        assert(b.subrange(44 + 4 * j, 44 + 4 * j + 4) =~= d.subrange(4 * j, 4 * j + 4));
        lemma_word_at_le32(b, 44 + 4 * j, samples[j]);
    }
    assert(parsed =~= samples);
}

} // verus!
