use vstd::prelude::*;

verus! {

/// Samples per second of every sound.
pub const SAMPLE_RATE: u32 = 44_100;
/// Mono, 16-bit PCM.
pub const CHANNELS: u16 = 1;
pub const BITS: u16 = 16;
/// Bytes of the header that precedes the samples.
pub const HEADER_LEN: usize = 44;

/// Little-endian bytes of a 16-bit and of a 32-bit unsigned value.
pub open spec fn le16(v: int) -> Seq<u8> {
    seq![(v % 256) as u8, ((v / 256) % 256) as u8]
}

pub open spec fn le32(v: int) -> Seq<u8> {
    seq![(v % 256) as u8, ((v / 256) % 256) as u8, ((v / 65536) % 256) as u8, ((v / 16777216) % 256) as u8]
}

/// The two's-complement bit pattern of a 16-bit sample, as an unsigned value.
pub open spec fn sample_bits(s: i16) -> int {
    if s < 0 { s + 65536 } else { s as int }
}

/// The ASCII tags of the container.
pub open spec fn tag_riff() -> Seq<u8> { seq![82u8, 73u8, 70u8, 70u8] }
pub open spec fn tag_wave() -> Seq<u8> { seq![87u8, 65u8, 86u8, 69u8] }
pub open spec fn tag_fmt() -> Seq<u8> { seq![102u8, 109u8, 116u8, 32u8] }
pub open spec fn tag_data() -> Seq<u8> { seq![100u8, 97u8, 116u8, 97u8] }

/// The 44-byte header of a mono 16-bit PCM WAV file of `n` samples at
/// `SAMPLE_RATE`: the RIFF chunk (size 36 + data), the "fmt " chunk (size 16,
/// PCM format 1, one channel, rate, byte rate, block align 2, 16 bits), and
/// the "data" chunk header (size 2 bytes per sample).
pub open spec fn wav_header(n: nat) -> Seq<u8> {
    tag_riff() + le32(36 + 2 * n as int) + tag_wave()
        + tag_fmt() + le32(16) + le16(1) + le16(CHANNELS as int) + le32(SAMPLE_RATE as int)
        + le32(SAMPLE_RATE as int * CHANNELS as int * (BITS as int / 8)) + le16(CHANNELS as int * (BITS as int / 8)) + le16(BITS as int)
        + tag_data() + le32(2 * n as int)
}

/// The samples, little-endian, two bytes each.
pub open spec fn pcm_bytes(samples: Seq<i16>) -> Seq<u8>
    decreases samples.len(),
{
    if samples.len() == 0 {
        Seq::empty()
    } else {
        pcm_bytes(samples.drop_last()) + le16(sample_bits(samples.last()))
    }
}

fn push_tag(v: &mut Vec<u8>, a: u8, b: u8, c: u8, d: u8)
    ensures
        final(v)@ == old(v)@ + seq![a, b, c, d],
{
    v.push(a);
    v.push(b);
    v.push(c);
    v.push(d);
    assert(v@ =~= old(v)@ + seq![a, b, c, d]);
}

fn push_le16(v: &mut Vec<u8>, x: u16)
    ensures
        final(v)@ == old(v)@ + le16(x as int),
{
    v.push((x % 256) as u8);
    v.push(((x / 256) % 256) as u8);
    assert(v@ =~= old(v)@ + le16(x as int));
}

fn push_le32(v: &mut Vec<u8>, x: u32)
    ensures
        final(v)@ == old(v)@ + le32(x as int),
{
    v.push((x % 256) as u8);
    v.push(((x / 256) % 256) as u8);
    v.push(((x / 65536) % 256) as u8);
    v.push(((x / 16777216) % 256) as u8);
    assert(v@ =~= old(v)@ + le32(x as int));
}

/// A mono 16-bit PCM WAV file holding `samples`: the header, then each sample
/// in little-endian order.
pub fn wav_bytes(samples: &[i16]) -> (v: Vec<u8>)
    requires
        36 + 2 * samples@.len() <= u32::MAX,
    ensures
        v@ == wav_header(samples@.len()) + pcm_bytes(samples@),
        v@.len() == HEADER_LEN + 2 * samples@.len(),
{
    let channels: u16 = CHANNELS;
    let bits: u16 = BITS;
    let byte_rate: u32 = SAMPLE_RATE * (channels as u32) * ((bits as u32) / 8);
    let block_align: u16 = channels * (bits / 8);
    let data_len: u32 = (samples.len() * 2) as u32;

    let mut v: Vec<u8> = Vec::new();
    push_tag(&mut v, 82, 73, 70, 70);
    push_le32(&mut v, 36 + data_len);
    push_tag(&mut v, 87, 65, 86, 69);
    push_tag(&mut v, 102, 109, 116, 32);
    push_le32(&mut v, 16);
    push_le16(&mut v, 1);
    push_le16(&mut v, channels);
    push_le32(&mut v, SAMPLE_RATE);
    push_le32(&mut v, byte_rate);
    push_le16(&mut v, block_align);
    push_le16(&mut v, bits);
    push_tag(&mut v, 100, 97, 116, 97);
    push_le32(&mut v, data_len);
    assert(v@ =~= wav_header(samples@.len()));
    let ghost head = v@;
    let n = samples.len();
    let mut i: usize = 0;
    while i < n
        invariant
            n == samples@.len(),
            i <= n,
            v@ == head + pcm_bytes(samples@.take(i as int)),
            v@.len() == head.len() + 2 * i,
        decreases n - i,
    {
        let s = samples[i];
        let u: u16 = if s < 0 { (s as i32 + 65536) as u16 } else { s as u16 };
        push_le16(&mut v, u);
        assert(samples@.take(i + 1).drop_last() =~= samples@.take(i as int));
        i = i + 1;
        assert(v@ =~= head + pcm_bytes(samples@.take(i as int)));
    }
    assert(samples@.take(n as int) =~= samples@);
    v
}

} // verus!
