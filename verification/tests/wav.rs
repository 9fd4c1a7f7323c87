use timegrapherq::wav::{encode_wav_pcm16, parse_wav_pcm16, WavError};

#[test]
fn wav_header_and_size() {
    let samples: Vec<i16> = vec![0, 16_383, -16_383, 32_767];
    let bytes = encode_wav_pcm16(&samples, 44_100);
    assert_eq!(&bytes[0..4], b"RIFF");
    assert_eq!(&bytes[8..12], b"WAVE");
    assert_eq!(bytes.len(), 44 + samples.len() * 2);
}

#[test]
fn wav_header_fields() {
    let samples: Vec<i16> = vec![1, -2, 3];
    let bytes = encode_wav_pcm16(&samples, 48_000);
    let le32 = |i: usize| u32::from_le_bytes([bytes[i], bytes[i + 1], bytes[i + 2], bytes[i + 3]]);
    let le16 = |i: usize| u16::from_le_bytes([bytes[i], bytes[i + 1]]);
    assert_eq!(le32(4) as usize, bytes.len() - 8);
    assert_eq!(&bytes[12..16], b"fmt ");
    assert_eq!(le32(16), 16);
    assert_eq!(le16(20), 1);
    assert_eq!(le16(22), 1);
    assert_eq!(le32(24), 48_000);
    assert_eq!(le32(28), 96_000);
    assert_eq!(le16(32), 2);
    assert_eq!(le16(34), 16);
    assert_eq!(&bytes[36..40], b"data");
    assert_eq!(le32(40), 6);
    assert_eq!(&bytes[44..], &[1, 0, 0xFE, 0xFF, 3, 0]);
}

#[test]
fn written_wav_reads_back() {
    let samples: Vec<i16> = vec![0, 1, -1, 32_767, -32_768, 1234];
    let bytes = encode_wav_pcm16(&samples, 22_050);
    let wav = parse_wav_pcm16(&bytes).expect("parse");
    assert_eq!(wav.sample_rate, 22_050);
    assert_eq!(wav.channels, 1);
    assert_eq!(wav.samples, samples);

    let empty = parse_wav_pcm16(&encode_wav_pcm16(&[], 8_000)).expect("parse empty");
    assert!(empty.samples.is_empty());
}

fn chunk(id: &[u8; 4], body: &[u8]) -> Vec<u8> {
    let mut out = id.to_vec();
    out.extend_from_slice(&(body.len() as u32).to_le_bytes());
    out.extend_from_slice(body);
    if body.len() % 2 == 1 {
        out.push(0);
    }
    out
}

fn fmt_body(format: u16, channels: u16, rate: u32, bits: u16) -> Vec<u8> {
    let mut b = Vec::new();
    b.extend_from_slice(&format.to_le_bytes());
    b.extend_from_slice(&channels.to_le_bytes());
    b.extend_from_slice(&rate.to_le_bytes());
    b.extend_from_slice(&(rate * 2 * u32::from(channels)).to_le_bytes());
    b.extend_from_slice(&(2 * channels).to_le_bytes());
    b.extend_from_slice(&bits.to_le_bytes());
    b
}

fn riff(chunks: &[Vec<u8>]) -> Vec<u8> {
    let body: Vec<u8> = chunks.concat();
    let mut out = b"RIFF".to_vec();
    out.extend_from_slice(&(4 + body.len() as u32).to_le_bytes());
    out.extend_from_slice(b"WAVE");
    out.extend_from_slice(&body);
    out
}

#[test]
fn reads_stereo_and_skips_unknown_chunks() {
    let data: Vec<u8> = [10i16, -10, 20, -20, 30]
        .iter()
        .flat_map(|v| v.to_le_bytes())
        .collect();
    let bytes = riff(&[
        chunk(b"LIST", b"abc"),
        chunk(b"fmt ", &fmt_body(0xFFFE, 2, 44_100, 16)),
        chunk(b"data", &data),
    ]);
    let wav = parse_wav_pcm16(&bytes).expect("parse");
    assert_eq!(wav.channels, 2);
    assert_eq!(wav.sample_rate, 44_100);
    // Five samples make two complete stereo frames.
    assert_eq!(wav.samples, vec![10, -10, 20, -20]);
}

#[test]
fn rejects_malformed_wav() {
    assert_eq!(parse_wav_pcm16(b"RIFF").err(), Some(WavError::NotWav));
    assert_eq!(parse_wav_pcm16(b"RIFX\0\0\0\0WAVE").err(), Some(WavError::NotWav));
    let data = chunk(b"data", &[0, 0]);
    assert_eq!(
        parse_wav_pcm16(&riff(&[chunk(b"fmt ", &fmt_body(3, 1, 8_000, 16)), data.clone()])).err(),
        Some(WavError::UnsupportedFormat)
    );
    assert_eq!(
        parse_wav_pcm16(&riff(&[chunk(b"fmt ", &fmt_body(1, 1, 8_000, 8)), data.clone()])).err(),
        Some(WavError::UnsupportedBitDepth)
    );
    assert_eq!(
        parse_wav_pcm16(&riff(&[chunk(b"fmt ", &[1, 0, 1, 0]), data.clone()])).err(),
        Some(WavError::TruncatedFormat)
    );
    assert_eq!(
        parse_wav_pcm16(&riff(&[chunk(b"fmt ", &fmt_body(1, 0, 8_000, 16)), data.clone()])).err(),
        Some(WavError::NoChannels)
    );
    assert_eq!(
        parse_wav_pcm16(&riff(&[chunk(b"fmt ", &fmt_body(1, 1, 8_000, 16))])).err(),
        Some(WavError::MissingData)
    );
}

#[test]
fn data_without_format_defaults_to_mono_at_rate_zero() {
    let wav = parse_wav_pcm16(&riff(&[chunk(b"data", &[5, 0, 6, 0])])).expect("parse");
    assert_eq!(wav.sample_rate, 0);
    assert_eq!(wav.channels, 1);
    assert_eq!(wav.samples, vec![5, 6]);
}
