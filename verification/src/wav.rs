//! 16-bit PCM WAV files: the byte layout written for saved recordings and the
//! chunk walk that reads such a file back.
//!
//! Samples are carried as signed 16-bit integers; converting between those
//! and floating-point audio happens at the edge of the application.

use vstd::prelude::*;

verus! {

/// Little-endian encoding of a 16-bit value.
pub open spec fn le16(x: u16) -> Seq<u8> {
    seq![(x & 0xff) as u8, ((x >> 8u16) & 0xff) as u8]
}

/// Little-endian encoding of a 32-bit value.
pub open spec fn le32(x: u32) -> Seq<u8> {
    seq![
        (x & 0xff) as u8,
        ((x >> 8u32) & 0xff) as u8,
        ((x >> 16u32) & 0xff) as u8,
        ((x >> 24u32) & 0xff) as u8,
    ]
}

/// The ASCII tag "RIFF".
pub open spec fn riff_tag() -> Seq<u8> {
    seq![0x52u8, 0x49u8, 0x46u8, 0x46u8]
}

/// The ASCII tag "WAVE".
pub open spec fn wave_tag() -> Seq<u8> {
    seq![0x57u8, 0x41u8, 0x56u8, 0x45u8]
}

/// The ASCII tag "fmt ".
pub open spec fn fmt_tag() -> Seq<u8> {
    seq![0x66u8, 0x6du8, 0x74u8, 0x20u8]
}

/// The ASCII tag "data".
pub open spec fn data_tag() -> Seq<u8> {
    seq![0x64u8, 0x61u8, 0x74u8, 0x61u8]
}

/// The 44-byte header of a mono 16-bit PCM WAV file holding `data_len`
/// bytes of samples at `sample_rate`: the RIFF size `36 + data_len`, a
/// 16-byte `fmt ` chunk (PCM, 1 channel, byte rate `2 * sample_rate`, block
/// align 2, 16 bits per sample) and the `data` chunk header.
pub open spec fn wav_header(data_len: u32, sample_rate: u32) -> Seq<u8> {
    riff_tag() + le32((36 + data_len) as u32) + wave_tag() + fmt_tag() + le32(16) + le16(1) + le16(1)
        + le32(sample_rate) + le32((2 * sample_rate) as u32) + le16(2) + le16(16) + data_tag()
        + le32(data_len)
}

/// Little-endian bytes of consecutive signed 16-bit samples.
pub open spec fn pcm16_bytes(samples: Seq<i16>) -> Seq<u8> {
    Seq::new(
        2 * samples.len(),
        |k: int|
            if k % 2 == 0 {
                ((samples[k / 2] as u16) & 0xff) as u8
            } else {
                (((samples[k / 2] as u16) >> 8u16) & 0xff) as u8
            },
    )
}

/// The sample-data length recorded in the header for `n` samples: the sample
/// count taken as a 32-bit value, times two bytes.
pub open spec fn pcm_data_len(n: nat) -> u32 {
    (2 * (n as u32)) as u32
}

/// The complete bytes of a mono 16-bit PCM WAV file of `samples`.
pub open spec fn wav_file(samples: Seq<i16>, sample_rate: u32) -> Seq<u8> {
    wav_header(pcm_data_len(samples.len()), sample_rate) + pcm16_bytes(samples)
}

fn push_le16(out: &mut Vec<u8>, x: u16)
    ensures
        final(out)@ == old(out)@ + le16(x),
{
    out.push((x & 0xff) as u8);
    out.push(((x >> 8) & 0xff) as u8);
}

fn push_le32(out: &mut Vec<u8>, x: u32)
    ensures
        final(out)@ == old(out)@ + le32(x),
{
    out.push((x & 0xff) as u8);
    out.push(((x >> 8) & 0xff) as u8);
    out.push(((x >> 16) & 0xff) as u8);
    out.push(((x >> 24) & 0xff) as u8);
}

fn push_tag(out: &mut Vec<u8>, a: u8, b: u8, c: u8, d: u8)
    ensures
        final(out)@ == old(out)@ + seq![a, b, c, d],
{
    out.push(a);
    out.push(b);
    out.push(c);
    out.push(d);
}

/// Encode mono 16-bit PCM `samples` at `sample_rate` as the bytes of a WAV
/// file: the 44-byte header followed by each sample in little-endian order.
/// The header's size fields are computed in 32 bits, so the sample count
/// (taken as a 32-bit value) and the sample rate must leave them in range.
pub fn encode_wav_pcm16(samples: &[i16], sample_rate: u32) -> (r: Vec<u8>)
    requires
        2 * (samples@.len() as u32) + 36 <= u32::MAX,
        2 * sample_rate <= u32::MAX,
    ensures
        r@ == wav_file(samples@, sample_rate),
{
    let n32 = samples.len() as u32;
    let data_len: u32 = n32 * 2;
    let mut out: Vec<u8> = Vec::new();
    push_tag(&mut out, 0x52, 0x49, 0x46, 0x46);
    push_le32(&mut out, 36 + data_len);
    push_tag(&mut out, 0x57, 0x41, 0x56, 0x45);
    push_tag(&mut out, 0x66, 0x6d, 0x74, 0x20);
    push_le32(&mut out, 16);
    push_le16(&mut out, 1);
    push_le16(&mut out, 1);
    push_le32(&mut out, sample_rate);
    push_le32(&mut out, sample_rate * 2);
    push_le16(&mut out, 2);
    push_le16(&mut out, 16);
    push_tag(&mut out, 0x64, 0x61, 0x74, 0x61);
    push_le32(&mut out, data_len);
    let ghost header = out@;
    assert(header =~= wav_header(pcm_data_len(samples@.len()), sample_rate));
    let mut i: usize = 0;
    while i < samples.len()
        invariant
            i <= samples@.len(),
            header.len() == 44,
            out@ == header + pcm16_bytes(samples@.take(i as int)),
        decreases samples@.len() - i,
    {
        let u = samples[i] as u16;
        out.push((u & 0xff) as u8);
        out.push(((u >> 8) & 0xff) as u8);
        i += 1;
        assert(pcm16_bytes(samples@.take(i as int)) =~= pcm16_bytes(samples@.take(i - 1)) + seq![
            (u & 0xff) as u8,
            ((u >> 8u16) & 0xff) as u8,
        ]);
    }
    assert(samples@.take(samples@.len() as int) =~= samples@);
    out
}

/// The 16-bit little-endian value stored at `b[i]`, `b[i + 1]`.
pub open spec fn le16_at(b: Seq<u8>, i: int) -> u16 {
    (b[i] as u16) | ((b[i + 1] as u16) << 8u16)
}

/// The 32-bit little-endian value stored at `b[i]` .. `b[i + 3]`.
pub open spec fn le32_at(b: Seq<u8>, i: int) -> u32 {
    (b[i] as u32) | ((b[i + 1] as u32) << 8u32) | ((b[i + 2] as u32) << 16u32) | ((b[i + 3]
        as u32) << 24u32)
}

/// Whether the four bytes at `b[pos]` are `tag`.
pub open spec fn has_tag(b: Seq<u8>, pos: int, tag: Seq<u8>) -> bool {
    &&& b[pos] == tag[0]
    &&& b[pos + 1] == tag[1]
    &&& b[pos + 2] == tag[2]
    &&& b[pos + 3] == tag[3]
}

/// Why a byte buffer could not be read as a 16-bit PCM WAV file.
#[derive(Debug, Clone, Copy, PartialEq, Eq, Structural)]
pub enum WavError {
    /// The buffer does not start with a RIFF/WAVE header.
    NotWav,
    /// A `fmt ` chunk is too short to hold the fields it must carry.
    TruncatedFormat,
    /// The `fmt ` chunk names a format other than PCM (1) or extensible (0xFFFE).
    UnsupportedFormat,
    /// The samples are not 16 bits wide.
    UnsupportedBitDepth,
    /// No `data` chunk was found.
    MissingData,
    /// The `fmt ` chunk declares zero channels.
    NoChannels,
}

/// What the chunk walk has gathered so far: the sample rate and channel
/// count of the last `fmt ` chunk (0 and 1 before any), and the byte range
/// of the last `data` chunk's body.
pub struct WavScan {
    pub sample_rate: u32,
    pub channels: u16,
    pub data: Option<(int, int)>,
}

/// Read a `fmt ` chunk whose body is `b[body_start..body_end]`: its format
/// tag must be PCM or extensible, it must hold the 16 bytes up to the bit
/// depth, and the bit depth must be 16.
pub open spec fn scan_fmt(b: Seq<u8>, body_start: int, body_end: int, st: WavScan) -> Result<
    WavScan,
    WavError,
> {
    if body_end - body_start < 2 {
        Err(WavError::TruncatedFormat)
    } else if le16_at(b, body_start) != 1 && le16_at(b, body_start) != 0xFFFE {
        Err(WavError::UnsupportedFormat)
    } else if body_end - body_start < 16 {
        Err(WavError::TruncatedFormat)
    } else if le16_at(b, body_start + 14) != 16 {
        Err(WavError::UnsupportedBitDepth)
    } else {
        Ok(
            WavScan {
                sample_rate: le32_at(b, body_start + 4),
                channels: le16_at(b, body_start + 2),
                data: st.data,
            },
        )
    }
}

/// Walk the chunks of `b` from offset `pos`: each chunk is a 4-byte id, a
/// 32-bit little-endian body length and the body (cut short at the end of
/// the buffer), padded to an even length. `fmt ` and `data` chunks update the
/// scan; other chunks are skipped. The walk stops when fewer than 8 bytes
/// remain for a chunk header.
pub open spec fn scan_chunks(b: Seq<u8>, pos: int, st: WavScan) -> Result<WavScan, WavError>
    decreases b.len() - pos,
{
    if pos < 0 || pos + 8 > b.len() {
        Ok(st)
    } else {
        let chunk_len = le32_at(b, pos + 4) as int;
        let body_start = pos + 8;
        let body_end = if body_start + chunk_len <= b.len() {
            body_start + chunk_len
        } else {
            b.len() as int
        };
        let next = body_start + chunk_len + chunk_len % 2;
        let scanned = if has_tag(b, pos, fmt_tag()) {
            scan_fmt(b, body_start, body_end, st)
        } else if has_tag(b, pos, data_tag()) {
            Ok(WavScan { sample_rate: st.sample_rate, channels: st.channels, data: Some((body_start, body_end)) })
        } else {
            Ok(st)
        };
        match scanned {
            Err(e) => Err(e),
            Ok(st2) => if next > b.len() {
                Ok(st2)
            } else {
                scan_chunks(b, next, st2)
            },
        }
    }
}

/// The scan state before any chunk has been read.
pub open spec fn initial_scan() -> WavScan {
    WavScan { sample_rate: 0, channels: 1, data: None }
}

/// Whether `b` starts with "RIFF", a 4-byte size and "WAVE".
pub open spec fn has_wav_preamble(b: Seq<u8>) -> bool {
    b.len() >= 12 && has_tag(b, 0, riff_tag()) && has_tag(b, 8, wave_tag())
}

/// The samples of a `data` body `b[start..end]` with `channels` interleaved
/// channels: every complete frame, each sample a signed 16-bit little-endian
/// value.
pub open spec fn pcm16_samples(b: Seq<u8>, start: int, end: int, channels: u16) -> Seq<i16> {
    let frames = (end - start) / (2 * channels as int);
    Seq::new((frames * channels) as nat, |i: int| le16_at(b, start + 2 * i) as i16)
}

/// The reading of `b` as a 16-bit PCM WAV file: `(sample_rate, channels,
/// interleaved samples)`, or why it is not one.
pub open spec fn parse_wav_spec(b: Seq<u8>) -> Result<(u32, u16, Seq<i16>), WavError> {
    if !has_wav_preamble(b) {
        Err(WavError::NotWav)
    } else {
        match scan_chunks(b, 12, initial_scan()) {
            Err(e) => Err(e),
            Ok(st) => match st.data {
                None => Err(WavError::MissingData),
                Some(range) => if st.channels == 0 {
                    Err(WavError::NoChannels)
                } else {
                    Ok((st.sample_rate, st.channels, pcm16_samples(b, range.0, range.1, st.channels)))
                },
            },
        }
    }
}

/// A decoded 16-bit PCM WAV file.
pub struct WavPcm16 {
    pub sample_rate: u32,
    pub channels: u16,
    /// Interleaved samples of every complete frame.
    pub samples: Vec<i16>,
}

/// The scan state held by the reader's local variables.
pub open spec fn scan_state(sample_rate: u32, channels: u16, data: Option<(usize, usize)>) -> WavScan {
    WavScan {
        sample_rate,
        channels,
        data: match data {
            Some(d) => Some((d.0 as int, d.1 as int)),
            None => None,
        },
    }
}

fn read_le16(b: &[u8], i: usize) -> (r: u16)
    requires
        i + 2 <= b@.len(),
    ensures
        r == le16_at(b@, i as int),
{
    (b[i] as u16) | ((b[i + 1] as u16) << 8)
}

fn read_le32(b: &[u8], i: usize) -> (r: u32)
    requires
        i + 4 <= b@.len(),
    ensures
        r == le32_at(b@, i as int),
{
    (b[i] as u32) | ((b[i + 1] as u32) << 8) | ((b[i + 2] as u32) << 16) | ((b[i + 3] as u32)
        << 24)
}

fn tag_at(b: &[u8], pos: usize, t0: u8, t1: u8, t2: u8, t3: u8) -> (r: bool)
    requires
        pos + 4 <= b@.len(),
    ensures
        r == has_tag(b@, pos as int, seq![t0, t1, t2, t3]),
{
    b[pos] == t0 && b[pos + 1] == t1 && b[pos + 2] == t2 && b[pos + 3] == t3
}

/// Read a 16-bit PCM WAV file: check the RIFF/WAVE preamble, walk the chunks
/// for the format and the sample data, and decode every complete frame of
/// the data chunk. Multi-channel samples stay interleaved.
pub fn parse_wav_pcm16(bytes: &[u8]) -> (r: Result<WavPcm16, WavError>)
    ensures
        match (r, parse_wav_spec(bytes@)) {
            (Ok(w), Ok(p)) => w.sample_rate == p.0 && w.channels == p.1 && w.samples@ == p.2,
            (Err(e), Err(e2)) => e == e2,
            _ => false,
        },
{
    let len = bytes.len();
    if len < 12 || !tag_at(bytes, 0, 0x52, 0x49, 0x46, 0x46) || !tag_at(
        bytes,
        8,
        0x57,
        0x41,
        0x56,
        0x45,
    ) {
        return Err(WavError::NotWav);
    }
    let ghost b = bytes@;
    let mut pos: usize = 12;
    let mut sample_rate: u32 = 0;
    let mut channels: u16 = 1;
    let mut data: Option<(usize, usize)> = None;
    let ghost total = scan_chunks(b, 12, initial_scan());
    assert(fmt_tag() == seq![0x66u8, 0x6du8, 0x74u8, 0x20u8]);
    assert(data_tag() == seq![0x64u8, 0x61u8, 0x74u8, 0x61u8]);
    loop
        invariant_except_break
            scan_chunks(b, pos as int, scan_state(sample_rate, channels, data)) == total,
        invariant
            b == bytes@,
            len == b.len(),
            has_wav_preamble(b),
            12 <= pos <= len,
            data matches Some(d) ==> d.0 <= d.1 <= len,
            fmt_tag() == seq![0x66u8, 0x6du8, 0x74u8, 0x20u8],
            data_tag() == seq![0x64u8, 0x61u8, 0x74u8, 0x61u8],
            total == scan_chunks(b, 12, initial_scan()),
        ensures
            total == Ok::<WavScan, WavError>(scan_state(sample_rate, channels, data)),
        decreases len - pos,
    {
        let ghost before = scan_state(sample_rate, channels, data);
        if len - pos < 8 {
            break;
        }
        let chunk_len: u32 = read_le32(bytes, pos + 4);
        let body_start: usize = pos + 8;
        let rest: usize = len - body_start;
        let body_end: usize = if chunk_len as u64 <= rest as u64 {
            body_start + chunk_len as usize
        } else {
            len
        };
        let ghost scanned: Result<WavScan, WavError>;
        if tag_at(bytes, pos, 0x66, 0x6d, 0x74, 0x20) {
            proof {
                scanned = scan_fmt(b, body_start as int, body_end as int, before);
            }
            let body = body_end - body_start;
            if body < 2 {
                return Err(WavError::TruncatedFormat);
            }
            let format = read_le16(bytes, body_start);
            if format != 1 && format != 0xFFFE {
                return Err(WavError::UnsupportedFormat);
            }
            if body < 16 {
                return Err(WavError::TruncatedFormat);
            }
            if read_le16(bytes, body_start + 14) != 16 {
                return Err(WavError::UnsupportedBitDepth);
            }
            channels = read_le16(bytes, body_start + 2);
            sample_rate = read_le32(bytes, body_start + 4);
        } else if tag_at(bytes, pos, 0x64, 0x61, 0x74, 0x61) {
            data = Some((body_start, body_end));
            proof {
                scanned = Ok(scan_state(sample_rate, channels, data));
            }
        } else {
            proof {
                scanned = Ok(before);
            }
        }
        assert(scanned == Ok::<WavScan, WavError>(scan_state(sample_rate, channels, data)));
        let pad: u64 = (chunk_len % 2) as u64;
        if chunk_len as u64 + pad > rest as u64 {
            break;
        }
        pos = body_start + chunk_len as usize + pad as usize;
    }
    let (start, end) = match data {
        None => {
            return Err(WavError::MissingData);
        },
        Some(d) => d,
    };
    if channels == 0 {
        return Err(WavError::NoChannels);
    }
    let ch: usize = channels as usize;
    let frames: usize = (end - start) / (2 * ch);
    assert(frames * ch <= (end - start) / 2) by (nonlinear_arith)
        requires
            frames == (end - start) / (2 * ch),
            ch > 0,
            start <= end,
    ;
    let count: usize = frames * ch;
    let mut samples: Vec<i16> = Vec::new();
    let mut i: usize = 0;
    while i < count
        invariant
            b == bytes@,
            i <= count,
            start <= end <= b.len(),
            2 * count <= end - start,
            samples@ =~= Seq::new(i as nat, |k: int| le16_at(b, start + 2 * k) as i16),
        decreases count - i,
    {
        let v = #[verifier::truncate] (read_le16(bytes, start + 2 * i) as i16);
        samples.push(v);
        i += 1;
    }
    Ok(WavPcm16 { sample_rate, channels, samples })
}

proof fn lemma_le16_roundtrip(x: u16)
    ensures
        le16_at(le16(x), 0) == x,
{
    let b = le16(x);
    assert(b[0] == (x & 0xff) as u8 && b[1] == ((x >> 8u16) & 0xff) as u8);
    assert((((x & 0xff) as u8) as u16) | (((((x >> 8u16) & 0xff) as u8) as u16) << 8u16) == x)
        by (bit_vector);
}

proof fn lemma_le32_roundtrip(x: u32)
    ensures
        le32_at(le32(x), 0) == x,
{
    let b = le32(x);
    assert(b[0] == (x & 0xff) as u8 && b[1] == ((x >> 8u32) & 0xff) as u8 && b[2] == ((x >> 16u32)
        & 0xff) as u8 && b[3] == ((x >> 24u32) & 0xff) as u8);
    assert((((x & 0xff) as u8) as u32) | (((((x >> 8u32) & 0xff) as u8) as u32) << 8u32) | (((((x
        >> 16u32) & 0xff) as u8) as u32) << 16u32) | (((((x >> 24u32) & 0xff) as u8) as u32)
        << 24u32) == x) by (bit_vector);
}

proof fn lemma_i16_roundtrip(v: i16)
    ensures
        (((((v as u16) & 0xff) as u8) as u16) | ((((((v as u16) >> 8u16) & 0xff) as u8) as u16)
            << 8u16)) as i16 == v,
{
    assert((((((v as u16) & 0xff) as u8) as u16) | ((((((v as u16) >> 8u16) & 0xff) as u8)
        as u16) << 8u16)) as i16 == v) by (bit_vector);
}

/// Reading back a written file: parsing the bytes of a mono 16-bit PCM WAV
/// file of `samples` at `sample_rate` yields that sample rate, one channel and
/// exactly those samples, whenever the header's 32-bit size fields hold the
/// sample data's true length.
pub proof fn lemma_parse_encoded_wav(samples: Seq<i16>, sample_rate: u32)
    requires
        2 * samples.len() + 36 <= u32::MAX,
    ensures
        parse_wav_spec(wav_file(samples, sample_rate)) == Ok::<(u32, u16, Seq<i16>), WavError>(
            (sample_rate, 1u16, samples),
        ),
{
    let n: int = samples.len() as int;
    let dl: u32 = pcm_data_len(samples.len());
    assert(dl == 2 * n);
    let h = wav_header(dl, sample_rate);
    let f = wav_file(samples, sample_rate);
    let p = pcm16_bytes(samples);
    assert(h.len() == 44);
    assert(f.len() == 44 + 2 * n);
    // The header, field by field.
    assert(f.subrange(0, 44) =~= h);
    assert(h.subrange(16, 20) =~= le32(16));
    assert(h.subrange(20, 22) =~= le16(1));
    assert(h.subrange(22, 24) =~= le16(1));
    assert(h.subrange(24, 28) =~= le32(sample_rate));
    assert(h.subrange(34, 36) =~= le16(16));
    assert(h.subrange(40, 44) =~= le32(dl));
    lemma_le32_roundtrip(16);
    lemma_le16_roundtrip(1);
    lemma_le32_roundtrip(sample_rate);
    lemma_le16_roundtrip(16);
    lemma_le32_roundtrip(dl);
    assert(le32_at(f, 16) == le32_at(le32(16), 0));
    assert(le16_at(f, 20) == le16_at(le16(1), 0));
    assert(le16_at(f, 22) == le16_at(le16(1), 0));
    assert(le32_at(f, 24) == le32_at(le32(sample_rate), 0));
    assert(le16_at(f, 34) == le16_at(le16(16), 0));
    assert(le32_at(f, 40) == le32_at(le32(dl), 0));
    assert(has_wav_preamble(f));
    assert(has_tag(f, 12, fmt_tag()));
    assert(!has_tag(f, 36, fmt_tag()));
    assert(has_tag(f, 36, data_tag()));
    // The walk: the `fmt ` chunk, then the `data` chunk, then the end.
    let st1 = WavScan { sample_rate, channels: 1, data: None };
    assert(scan_fmt(f, 20, 36, initial_scan()) == Ok::<WavScan, WavError>(st1));
    let st2 = WavScan { sample_rate, channels: 1, data: Some((44int, 44 + 2 * n)) };
    assert(scan_chunks(f, 44 + 2 * n, st2) == Ok::<WavScan, WavError>(st2));
    assert(scan_chunks(f, 36, st1) == Ok::<WavScan, WavError>(st2));
    assert(scan_chunks(f, 12, initial_scan()) == Ok::<WavScan, WavError>(st2));
    // The samples.
    let decoded = pcm16_samples(f, 44, 44 + 2 * n, 1u16);
    assert(decoded.len() == n);
    assert forall|i: int| 0 <= i < n implies decoded[i] == samples[i] by {
        assert(f[44 + 2 * i] == p[2 * i]);
        assert(f[44 + 2 * i + 1] == p[2 * i + 1]);
        lemma_i16_roundtrip(samples[i]);
    }
    assert(decoded =~= samples);
}

/// A written file is self-consistent: it holds the 44-byte header plus two
/// bytes per sample, its RIFF size field is the file length minus 8 and its
/// data size field is the file length minus 44, whenever those lengths fit
/// the 32-bit fields.
pub proof fn lemma_wav_sizes(samples: Seq<i16>, sample_rate: u32)
    requires
        2 * samples.len() + 36 <= u32::MAX,
    ensures
        wav_file(samples, sample_rate).len() == 44 + 2 * samples.len(),
        le32_at(wav_file(samples, sample_rate), 4) == wav_file(samples, sample_rate).len() - 8,
        le32_at(wav_file(samples, sample_rate), 40) == wav_file(samples, sample_rate).len() - 44,
{
    let dl: u32 = pcm_data_len(samples.len());
    let h = wav_header(dl, sample_rate);
    let f = wav_file(samples, sample_rate);
    assert(dl == 2 * samples.len());
    assert(f.subrange(0, 44) =~= h);
    assert(h.subrange(4, 8) =~= le32((36 + dl) as u32));
    assert(h.subrange(40, 44) =~= le32(dl));
    lemma_le32_roundtrip((36 + dl) as u32);
    lemma_le32_roundtrip(dl);
    assert(le32_at(f, 4) == le32_at(le32((36 + dl) as u32), 0));
    assert(le32_at(f, 40) == le32_at(le32(dl), 0));
}

/// The four bytes at `f[p]` hold `x` least significant byte first.
pub open spec fn le32_bytes_are(f: Seq<u8>, p: int, x: int) -> bool {
    &&& f[p] as int == x % 256
    &&& f[p + 1] as int == (x / 256) % 256
    &&& f[p + 2] as int == (x / 65536) % 256
    &&& f[p + 3] as int == (x / 16777216) % 256
}

/// The two bytes at `f[p]` hold `x` least significant byte first.
pub open spec fn le16_bytes_are(f: Seq<u8>, p: int, x: int) -> bool {
    &&& f[p] as int == x % 256
    &&& f[p + 1] as int == (x / 256) % 256
}

/// The four bytes at `f[p]` are the ASCII characters `a`, `b`, `c`, `d`.
pub open spec fn ascii_at(f: Seq<u8>, p: int, a: char, b: char, c: char, d: char) -> bool {
    &&& f[p] as int == a as int
    &&& f[p + 1] as int == b as int
    &&& f[p + 2] as int == c as int
    &&& f[p + 3] as int == d as int
}

proof fn lemma_le32_arith(x: u32)
    ensures
        le32(x)[0] as int == x % 256,
        le32(x)[1] as int == (x / 256) % 256,
        le32(x)[2] as int == (x / 65536) % 256,
        le32(x)[3] as int == (x / 16777216) % 256,
{
    assert(((x & 0xff) as u8) as u32 == x % 256) by (bit_vector);
    assert((((x >> 8u32) & 0xff) as u8) as u32 == (x / 256) % 256) by (bit_vector);
    assert((((x >> 16u32) & 0xff) as u8) as u32 == (x / 65536) % 256) by (bit_vector);
    assert((((x >> 24u32) & 0xff) as u8) as u32 == (x / 16777216) % 256) by (bit_vector);
}

proof fn lemma_le16_arith(x: u16)
    ensures
        le16(x)[0] as int == x % 256,
        le16(x)[1] as int == (x / 256) % 256,
{
    assert(((x & 0xff) as u8) as u16 == x % 256) by (bit_vector);
    assert((((x >> 8u16) & 0xff) as u8) as u16 == (x / 256) % 256) by (bit_vector);
}

proof fn lemma_i16_bytes(v: i16)
    ensures
        (((v as u16) & 0xff) as u8) as int == (v as int % 65536) % 256,
        ((((v as u16) >> 8u16) & 0xff) as u8) as int == ((v as int % 65536) / 256) % 256,
{
    let u = v as u16;
    assert(((u & 0xff) as u8) as u16 == u % 256) by (bit_vector);
    assert((((u >> 8u16) & 0xff) as u8) as u16 == (u / 256) % 256) by (bit_vector);
    if v >= 0 {
        assert(v as u16 == v as int);
    } else {
        assert(v < 0 ==> (v as u16) as i32 == (v as i32) + 65536) by (bit_vector);
    }
    assert(u as int == v as int % 65536);
}

/// The layout of a written WAV file, byte by byte: "RIFF", the RIFF size
/// `36 + 2n`, "WAVE", "fmt ", the format chunk length 16, PCM format 1,
/// 1 channel, the sample rate, the byte rate `2 * sample_rate`, block align 2,
/// 16 bits per sample, "data", the data length `2n`, then every sample as two
/// bytes of its 16-bit two's complement value, least significant first.
pub proof fn lemma_wav_file_layout(samples: Seq<i16>, sample_rate: u32)
    requires
        2 * samples.len() + 36 <= u32::MAX,
        2 * sample_rate <= u32::MAX,
    ensures
        ({
            let f = wav_file(samples, sample_rate);
            let n = samples.len() as int;
            &&& f.len() == 44 + 2 * n
            &&& ascii_at(f, 0, 'R', 'I', 'F', 'F')
            &&& le32_bytes_are(f, 4, 36 + 2 * n)
            &&& ascii_at(f, 8, 'W', 'A', 'V', 'E')
            &&& ascii_at(f, 12, 'f', 'm', 't', ' ')
            &&& le32_bytes_are(f, 16, 16)
            &&& le16_bytes_are(f, 20, 1)
            &&& le16_bytes_are(f, 22, 1)
            &&& le32_bytes_are(f, 24, sample_rate as int)
            &&& le32_bytes_are(f, 28, 2 * sample_rate)
            &&& le16_bytes_are(f, 32, 2)
            &&& le16_bytes_are(f, 34, 16)
            &&& ascii_at(f, 36, 'd', 'a', 't', 'a')
            &&& le32_bytes_are(f, 40, 2 * n)
            &&& forall|i: int|
                0 <= i < n ==> le16_bytes_are(f, 44 + 2 * i, #[trigger] samples[i] as int % 65536)
        }),
{
    let n: int = samples.len() as int;
    let dl: u32 = pcm_data_len(samples.len());
    assert(dl == 2 * n);
    let h = wav_header(dl, sample_rate);
    let f = wav_file(samples, sample_rate);
    let p = pcm16_bytes(samples);
    assert(h.len() == 44);
    assert(f.subrange(0, 44) =~= h);
    assert(h.subrange(4, 8) =~= le32((36 + dl) as u32));
    assert(h.subrange(16, 20) =~= le32(16));
    assert(h.subrange(20, 22) =~= le16(1));
    assert(h.subrange(22, 24) =~= le16(1));
    assert(h.subrange(24, 28) =~= le32(sample_rate));
    assert(h.subrange(28, 32) =~= le32((2 * sample_rate) as u32));
    assert(h.subrange(32, 34) =~= le16(2));
    assert(h.subrange(34, 36) =~= le16(16));
    assert(h.subrange(40, 44) =~= le32(dl));
    lemma_le32_arith((36 + dl) as u32);
    lemma_le32_arith(16);
    lemma_le16_arith(1);
    lemma_le32_arith(sample_rate);
    lemma_le32_arith((2 * sample_rate) as u32);
    lemma_le16_arith(2);
    lemma_le16_arith(16);
    lemma_le32_arith(dl);
    assert forall|i: int| 0 <= i < n implies le16_bytes_are(
        f,
        44 + 2 * i,
        #[trigger] samples[i] as int % 65536,
    ) by {
        assert(f[44 + 2 * i] == p[2 * i]);
        assert(f[44 + 2 * i + 1] == p[2 * i + 1]);
        assert((2 * i) / 2 == i && (2 * i + 1) / 2 == i && (2 * i) % 2 == 0 && (2 * i + 1) % 2
            == 1);
        lemma_i16_bytes(samples[i]);
    }
}

proof fn lemma_le32_decode(f: Seq<u8>, p: int, x: u32)
    requires
        0 <= p,
        p + 4 <= f.len(),
        le32_bytes_are(f, p, x as int),
    ensures
        le32_at(f, p) == x,
{
    let (b0, b1, b2, b3) = (f[p], f[p + 1], f[p + 2], f[p + 3]);
    assert((b0 as u32) | ((b1 as u32) << 8u32) | ((b2 as u32) << 16u32) | ((b3 as u32) << 24u32)
        == x) by (bit_vector)
        requires
            b0 as u32 == x % 256,
            b1 as u32 == (x / 256) % 256,
            b2 as u32 == (x / 65536) % 256,
            b3 as u32 == (x / 16777216) % 256,
    ;
}

proof fn lemma_le16_decode(f: Seq<u8>, p: int, x: u16)
    requires
        0 <= p,
        p + 2 <= f.len(),
        le16_bytes_are(f, p, x as int),
    ensures
        le16_at(f, p) == x,
{
    let (b0, b1) = (f[p], f[p + 1]);
    assert((b0 as u16) | ((b1 as u16) << 8u16) == x) by (bit_vector)
        requires
            b0 as u16 == x % 256,
            b1 as u16 == (x / 256) % 256,
    ;
}

proof fn lemma_i16_decode(f: Seq<u8>, p: int, v: i16)
    requires
        0 <= p,
        p + 2 <= f.len(),
        le16_bytes_are(f, p, v as int % 65536),
    ensures
        le16_at(f, p) as i16 == v,
{
    let u = v as u16;
    if v >= 0 {
        assert(v as u16 == v as int);
    } else {
        assert(v < 0 ==> (v as u16) as i32 == (v as i32) + 65536) by (bit_vector);
    }
    assert(u as int == v as int % 65536);
    lemma_le16_decode(f, p, u);
    assert((u as i16) == v) by (bit_vector)
        requires
            u == v as u16,
    ;
}

/// The samples come from the data chunk's declared body only: a mono 16-bit
/// PCM WAV file laid out as written (whatever its RIFF size field and byte
/// rate say) and followed by any further chunk other than `fmt ` or `data`
/// — such as trailing metadata — reads as exactly its sample rate, one
/// channel and its samples; the trailing chunk is never decoded as audio.
pub proof fn lemma_trailing_chunk_ignored(
    samples: Seq<i16>,
    sample_rate: u32,
    f: Seq<u8>,
    chunk_len: u32,
)
    requires
        2 * samples.len() + 36 <= u32::MAX,
        f.len() == 52 + 2 * samples.len() + chunk_len + chunk_len % 2,
        ascii_at(f, 0, 'R', 'I', 'F', 'F'),
        ascii_at(f, 8, 'W', 'A', 'V', 'E'),
        ascii_at(f, 12, 'f', 'm', 't', ' '),
        le32_bytes_are(f, 16, 16),
        le16_bytes_are(f, 20, 1),
        le16_bytes_are(f, 22, 1),
        le32_bytes_are(f, 24, sample_rate as int),
        le16_bytes_are(f, 34, 16),
        ascii_at(f, 36, 'd', 'a', 't', 'a'),
        le32_bytes_are(f, 40, 2 * samples.len() as int),
        forall|i: int|
            0 <= i < samples.len() ==> le16_bytes_are(
                f,
                44 + 2 * i,
                #[trigger] samples[i] as int % 65536,
            ),
        !ascii_at(f, 44 + 2 * samples.len() as int, 'f', 'm', 't', ' '),
        !ascii_at(f, 44 + 2 * samples.len() as int, 'd', 'a', 't', 'a'),
        le32_bytes_are(f, 48 + 2 * samples.len() as int, chunk_len as int),
    ensures
        parse_wav_spec(f) == Ok::<(u32, u16, Seq<i16>), WavError>((sample_rate, 1u16, samples)),
{
    let n: int = samples.len() as int;
    let end: int = 44 + 2 * n;
    lemma_le32_decode(f, 16, 16);
    lemma_le16_decode(f, 20, 1);
    lemma_le16_decode(f, 22, 1);
    lemma_le32_decode(f, 24, sample_rate);
    lemma_le16_decode(f, 34, 16);
    lemma_le32_decode(f, 40, (2 * n) as u32);
    lemma_le32_decode(f, end + 4, chunk_len);
    assert(has_wav_preamble(f));
    assert(has_tag(f, 12, fmt_tag()));
    assert(!has_tag(f, 36, fmt_tag()));
    assert(has_tag(f, 36, data_tag()));
    assert(!has_tag(f, end, fmt_tag()));
    assert(!has_tag(f, end, data_tag()));
    let st1 = WavScan { sample_rate, channels: 1, data: None };
    assert(scan_fmt(f, 20, 36, initial_scan()) == Ok::<WavScan, WavError>(st1));
    let st2 = WavScan { sample_rate, channels: 1, data: Some((44int, end)) };
    assert(scan_chunks(f, f.len() as int, st2) == Ok::<WavScan, WavError>(st2));
    assert(scan_chunks(f, end, st2) == Ok::<WavScan, WavError>(st2));
    assert(scan_chunks(f, 36, st1) == Ok::<WavScan, WavError>(st2));
    assert(scan_chunks(f, 12, initial_scan()) == Ok::<WavScan, WavError>(st2));
    let decoded = pcm16_samples(f, 44, end, 1u16);
    assert(decoded.len() == n);
    assert forall|i: int| 0 <= i < n implies decoded[i] == samples[i] by {
        lemma_i16_decode(f, 44 + 2 * i, samples[i]);
    }
    assert(decoded =~= samples);
}

} // verus!
