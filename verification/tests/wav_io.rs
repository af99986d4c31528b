//! Tests for the WAV framing, read back independently through hound.

use std::io::Cursor;

use kittenx::wav::{wav_file_f32, wav_file_i16};

#[test]
fn wav_f32_header_fields() {
    let samples: Vec<u32> = vec![0x3F800000, 0x00000000];
    let bytes = wav_file_f32(&samples, 24000);
    assert_eq!(bytes.len(), 44 + 8);
    assert_eq!(&bytes[0..4], b"RIFF");
    assert_eq!(&bytes[8..12], b"WAVE");
    assert_eq!(&bytes[12..16], b"fmt ");
    assert_eq!(&bytes[36..40], b"data");
    // Format tag 3 (IEEE float), mono, 32 bits.
    assert_eq!(bytes[20], 3);
    assert_eq!(bytes[22], 1);
    assert_eq!(bytes[34], 32);
}

#[test]
fn wav_f32_roundtrip_through_hound() {
    // Unit-range samples survive the file bit for bit.
    let values: Vec<f32> = vec![0.0, 1.0, -1.0, 0.25, -0.5, 0.3333333];
    let bits: Vec<u32> = values.iter().map(|x| x.to_bits()).collect();
    let bytes = wav_file_f32(&bits, 24000);
    let mut reader = hound::WavReader::new(Cursor::new(bytes)).unwrap();
    let spec = reader.spec();
    assert_eq!(spec.channels, 1);
    assert_eq!(spec.sample_rate, 24000);
    assert_eq!(spec.bits_per_sample, 32);
    assert_eq!(spec.sample_format, hound::SampleFormat::Float);
    let decoded: Vec<f32> = reader.samples::<f32>().map(|s| s.unwrap()).collect();
    assert_eq!(decoded.len(), values.len());
    for (orig, back) in values.iter().zip(decoded.iter()) {
        assert_eq!(orig.to_bits(), back.to_bits());
    }
}

#[test]
fn wav_i16_roundtrip_through_hound() {
    let values: Vec<f32> = vec![0.0, 1.0, -1.0, 0.25, -0.5, 2.0, -3.0];
    // The application maps a unit-range sample to 16-bit PCM by clamping
    // and scaling; the same mapping is applied here.
    let ints: Vec<i16> = values
        .iter()
        .map(|x| (x.clamp(-1.0, 1.0) * 32767.0).round() as i16)
        .collect();
    let bytes = wav_file_i16(&ints, 24000);
    let mut reader = hound::WavReader::new(Cursor::new(bytes)).unwrap();
    let spec = reader.spec();
    assert_eq!(spec.channels, 1);
    assert_eq!(spec.sample_rate, 24000);
    assert_eq!(spec.bits_per_sample, 16);
    assert_eq!(spec.sample_format, hound::SampleFormat::Int);
    let decoded: Vec<i16> = reader.samples::<i16>().map(|s| s.unwrap()).collect();
    assert_eq!(decoded, ints);
    // The per-sample quantisation error stays within one step.
    for (orig, back) in values.iter().zip(decoded.iter()) {
        let clamped = orig.clamp(-1.0, 1.0);
        let recon = (*back as f32) / 32767.0;
        assert!((clamped - recon).abs() <= 1.0 / 32767.0 + f32::EPSILON);
    }
}

#[test]
fn wav_empty_signal_is_a_valid_file() {
    let bytes = wav_file_f32(&Vec::new(), 24000);
    assert_eq!(bytes.len(), 44);
    let reader = hound::WavReader::new(Cursor::new(bytes)).unwrap();
    assert_eq!(reader.len(), 0);
}
