//! RIFF/WAVE encoding of mono 16-bit PCM sample buffers.
use vstd::prelude::*;

verus! {

/// The two little-endian bytes of a 16-bit value.
pub open spec fn le_u16(x: int) -> Seq<u8> {
    seq![(x % 256) as u8, ((x / 256) % 256) as u8]
}

/// The four little-endian bytes of a 32-bit value.
pub open spec fn le_u32(x: int) -> Seq<u8> {
    seq![
        (x % 256) as u8,
        ((x / 256) % 256) as u8,
        ((x / 65536) % 256) as u8,
        ((x / 16777216) % 256) as u8,
    ]
}

/// The unsigned 16-bit pattern of a signed sample (two's complement).
pub open spec fn sample_bits(s: i16) -> int {
    if s < 0 {
        s + 65536
    } else {
        s as int
    }
}

/// The low byte (`lo == true`) or the high byte of a sample's bit pattern.
pub open spec fn sample_byte(s: i16, lo: bool) -> u8 {
    if lo {
        (sample_bits(s) % 256) as u8
    } else {
        (sample_bits(s) / 256) as u8
    }
}

/// Every sample written as two little-endian bytes, in order.
pub open spec fn sample_bytes(samples: Seq<i16>) -> Seq<u8> {
    Seq::new(2 * samples.len(), |j: int| sample_byte(samples[j / 2], j % 2 == 0))
}

/// `RIFF`
pub open spec fn tag_riff() -> Seq<u8> {
    seq![82u8, 73u8, 70u8, 70u8]
}

/// `WAVE`
pub open spec fn tag_wave() -> Seq<u8> {
    seq![87u8, 65u8, 86u8, 69u8]
}

/// `fmt ` (with a trailing space)
pub open spec fn tag_fmt() -> Seq<u8> {
    seq![102u8, 109u8, 116u8, 32u8]
}

/// `data`
pub open spec fn tag_data() -> Seq<u8> {
    seq![100u8, 97u8, 116u8, 97u8]
}

/// The 44-byte header of a mono, 16-bit PCM file whose data chunk holds
/// `data_len` bytes at `sample_rate` samples per second.
pub open spec fn wav_header(data_len: int, sample_rate: int) -> Seq<u8> {
    tag_riff() + le_u32(36 + data_len) + tag_wave()
        + tag_fmt() + le_u32(16) + le_u16(1) + le_u16(1)
        + le_u32(sample_rate) + le_u32(sample_rate * 2) + le_u16(2) + le_u16(16)
        + tag_data() + le_u32(data_len)
}

/// The complete file for `samples`.
pub open spec fn wav_bytes(samples: Seq<i16>, sample_rate: int) -> Seq<u8> {
    wav_header(2 * (samples.len() as int), sample_rate) + sample_bytes(samples)
}

/// Whether a file of `sample_count` samples at `sample_rate` fits the
/// format's 32-bit fields: the RIFF size `36 + 2 * sample_count` (the largest
/// size field) and the byte rate `2 * sample_rate`.
pub open spec fn wav_fits(sample_count: int, sample_rate: int) -> bool {
    &&& 2 * sample_count + 36 <= u32::MAX
    &&& 2 * sample_rate <= u32::MAX
}

/// Reads a little-endian 16-bit value at `at`.
pub open spec fn read_u16_le(bytes: Seq<u8>, at: int) -> int {
    bytes[at] + 256 * bytes[at + 1]
}

/// Reads a little-endian 32-bit value at `at`.
pub open spec fn read_u32_le(bytes: Seq<u8>, at: int) -> int {
    bytes[at] + 256 * bytes[at + 1] + 65536 * bytes[at + 2] + 16777216 * bytes[at + 3]
}

/// Reads the signed 16-bit sample stored at `at`.
pub open spec fn read_sample(bytes: Seq<u8>, at: int) -> int {
    let u = read_u16_le(bytes, at);
    if u >= 32768 {
        u - 65536
    } else {
        u
    }
}

fn push_u16_le(bytes: &mut Vec<u8>, x: u16)
    ensures
        final(bytes)@ == old(bytes)@ + le_u16(x as int),
{
    bytes.push((x % 256) as u8);
    bytes.push(((x / 256) % 256) as u8);
}

fn push_u32_le(bytes: &mut Vec<u8>, x: u32)
    ensures
        final(bytes)@ == old(bytes)@ + le_u32(x as int),
{
    bytes.push((x % 256) as u8);
    bytes.push(((x / 256) % 256) as u8);
    bytes.push(((x / 65536) % 256) as u8);
    bytes.push(((x / 16777216) % 256) as u8);
}

fn push_tag(bytes: &mut Vec<u8>, a: u8, b: u8, c: u8, d: u8)
    ensures
        final(bytes)@ == old(bytes)@ + seq![a, b, c, d],
{
    bytes.push(a);
    bytes.push(b);
    bytes.push(c);
    bytes.push(d);
}

proof fn lemma_sample_bytes_push(samples: Seq<i16>, i: int)
    requires
        0 <= i < samples.len(),
    ensures
        sample_bytes(samples.take(i + 1)) == sample_bytes(samples.take(i)) + seq![
            sample_byte(samples[i], true),
            sample_byte(samples[i], false),
        ],
{
    let a = sample_bytes(samples.take(i + 1));
    let b = sample_bytes(samples.take(i)) + seq![
        sample_byte(samples[i], true),
        sample_byte(samples[i], false),
    ];
    assert forall|j: int| 0 <= j < a.len() implies a[j] == b[j] by {
        if j < 2 * i {
            assert(j / 2 < i);
        } else {
            assert(j / 2 == i);
        }
    }
    assert(a =~= b);
}

/// Encodes `samples` as a mono, 16-bit PCM WAV file at `sample_rate` samples
/// per second: the 44-byte header, then each sample as two little-endian bytes.
pub fn build_wav(samples: &[i16], sample_rate: u32) -> (bytes: Vec<u8>)
    requires
        wav_fits(samples@.len() as int, sample_rate as int),
    ensures
        bytes@ == wav_bytes(samples@, sample_rate as int),
{
    let data_len: u32 = (samples.len() * 2) as u32;
    let mut bytes: Vec<u8> = Vec::with_capacity((data_len as usize).saturating_add(44));

    push_tag(&mut bytes, 82, 73, 70, 70);
    push_u32_le(&mut bytes, 36 + data_len);
    push_tag(&mut bytes, 87, 65, 86, 69);

    push_tag(&mut bytes, 102, 109, 116, 32);
    push_u32_le(&mut bytes, 16);
    push_u16_le(&mut bytes, 1);
    push_u16_le(&mut bytes, 1);
    push_u32_le(&mut bytes, sample_rate);
    push_u32_le(&mut bytes, sample_rate * 2);
    push_u16_le(&mut bytes, 2);
    push_u16_le(&mut bytes, 16);

    push_tag(&mut bytes, 100, 97, 116, 97);
    push_u32_le(&mut bytes, data_len);

    let ghost header = wav_header(2 * (samples@.len() as int), sample_rate as int);
    assert(bytes@ =~= header);
    assert(samples@.take(0) =~= Seq::<i16>::empty());
    assert(sample_bytes(samples@.take(0)) =~= Seq::<u8>::empty());

    let mut i: usize = 0;
    while i < samples.len()
        invariant
            i <= samples@.len(),
            header == wav_header(2 * (samples@.len() as int), sample_rate as int),
            bytes@ == header + sample_bytes(samples@.take(i as int)),
        decreases samples@.len() - i,
    {
        let s: i16 = samples[i];
        let bits: u32 = if s < 0 {
            (s as i32 + 65536) as u32
        } else {
            s as u32
        };
        proof {
            lemma_sample_bytes_push(samples@, i as int);
        }
        bytes.push((bits % 256) as u8);
        bytes.push((bits / 256) as u8);
        i = i + 1;
        assert(bytes@ =~= header + sample_bytes(samples@.take(i as int)));
    }
    assert(samples@.take(samples@.len() as int) =~= samples@);
    bytes
}

proof fn lemma_le_u32_read_back(x: int)
    requires
        0 <= x <= u32::MAX,
    ensures
        read_u32_le(le_u32(x), 0) == x,
{
    let b = le_u32(x);
    assert(b[0] == x % 256);
    assert(b[1] == (x / 256) % 256);
    assert(b[2] == (x / 65536) % 256);
    assert(b[3] == x / 16777216) by (nonlinear_arith)
        requires
            0 <= x <= u32::MAX,
            b[3] == (x / 16777216) % 256,
    ;
    assert(x % 256 + 256 * ((x / 256) % 256) + 65536 * ((x / 65536) % 256) + 16777216 * (x
        / 16777216) == x) by (nonlinear_arith)
        requires
            0 <= x,
    ;
}

/// Law: the size fields of the file read back as the sizes the format
/// prescribes (the RIFF size is everything after its own field, the data size
/// is two bytes per sample), the sample rate reads back, and the file is
/// exactly the header followed by the samples.
pub proof fn lemma_wav_header_fields(samples: Seq<i16>, sample_rate: int)
    requires
        wav_fits(samples.len() as int, sample_rate),
        0 <= sample_rate,
    ensures
        wav_bytes(samples, sample_rate).len() == 44 + 2 * (samples.len() as int),
        read_u32_le(wav_bytes(samples, sample_rate), 4) == wav_bytes(samples, sample_rate).len()
            - 8,
        read_u32_le(wav_bytes(samples, sample_rate), 24) == sample_rate,
        read_u32_le(wav_bytes(samples, sample_rate), 40) == 2 * (samples.len() as int),
{
    let w = wav_bytes(samples, sample_rate);
    let n = 2 * (samples.len() as int);
    lemma_le_u32_read_back(36 + n);
    lemma_le_u32_read_back(sample_rate);
    lemma_le_u32_read_back(n);
    assert(w.subrange(4, 8) =~= le_u32(36 + n));
    assert(w.subrange(24, 28) =~= le_u32(sample_rate));
    assert(w.subrange(40, 44) =~= le_u32(n));
    assert(read_u32_le(w, 4) == read_u32_le(w.subrange(4, 8), 0));
    assert(read_u32_le(w, 24) == read_u32_le(w.subrange(24, 28), 0));
    assert(read_u32_le(w, 40) == read_u32_le(w.subrange(40, 44), 0));
}

/// Law: every sample reads back from the data chunk, at byte `44 + 2 * i`.
pub proof fn lemma_wav_samples_read_back(samples: Seq<i16>, sample_rate: int, i: int)
    requires
        0 <= i < samples.len(),
    ensures
        read_sample(wav_bytes(samples, sample_rate), 44 + 2 * i) == samples[i],
{
    let w = wav_bytes(samples, sample_rate);
    let d = sample_bytes(samples);
    assert(wav_header(2 * (samples.len() as int), sample_rate).len() == 44);
    assert(w[44 + 2 * i] == d[2 * i]);
    assert(w[44 + 2 * i + 1] == d[2 * i + 1]);
    assert((2 * i) / 2 == i);
    assert((2 * i + 1) / 2 == i);
    let u = sample_bits(samples[i]);
    assert(0 <= u < 65536);
    assert(d[2 * i] == u % 256);
    assert(d[2 * i + 1] == u / 256);
    assert(u % 256 + 256 * (u / 256) == u);
}

} // verus!
