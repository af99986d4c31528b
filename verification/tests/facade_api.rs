//! Tests for request validation, the voice bank, input assembly, the
//! provider fallback and the error messages.

use kittenx::encode::{encode_phonemes, flatten_token_batch, pad_token_sequence, speed_bits_positive};
use kittenx::cleaner::TextCleaner;
use kittenx::errors::TtsError;
use kittenx::facade::{is_known_voice, validate_request};
use kittenx::provider::{resolve_provider, AccelerationProvider};
use kittenx::sample_rate;
use kittenx::voices::VoiceBank;

#[test]
fn sample_rate_is_fixed() {
    assert_eq!(sample_rate(), 24000);
}

#[test]
fn validate_accepts_good_request() {
    let r = validate_request("expr-voice-5-m", 1.0f32.to_bits(), "Hello, world.");
    assert!(r.is_ok());
}

#[test]
fn validate_rejects_empty_text() {
    let r = validate_request("expr-voice-5-m", 1.0f32.to_bits(), "");
    match r {
        Err(TtsError::InvalidArgument { message }) => {
            assert_eq!(message, "text must not be empty");
        }
        other => panic!("expected InvalidArgument, got {:?}", other),
    }
}

#[test]
fn validate_rejects_unknown_voice() {
    let r = validate_request("nonexistent", 1.0f32.to_bits(), "hi");
    match r {
        Err(TtsError::UnknownVoice { name }) => assert_eq!(name, "nonexistent"),
        other => panic!("expected UnknownVoice, got {:?}", other),
    }
}

#[test]
fn validate_rejects_bad_speed() {
    for bad in [0.0f32, -1.0, f32::NAN, -0.0] {
        let r = validate_request("expr-voice-5-m", bad.to_bits(), "hi");
        assert!(matches!(r, Err(TtsError::InvalidArgument { .. })), "speed {bad}");
    }
}

#[test]
fn speed_positivity_follows_float_compare() {
    for x in [1.0f32, 0.5, 2.0, f32::INFINITY, f32::MIN_POSITIVE, 1.0e-40] {
        assert_eq!(speed_bits_positive(x.to_bits()), x > 0.0, "{x}");
    }
    for x in [0.0f32, -0.0, -1.0, f32::NAN, f32::NEG_INFINITY] {
        assert_eq!(speed_bits_positive(x.to_bits()), x > 0.0, "{x}");
    }
}

#[test]
fn known_voices_are_the_canonical_eight() {
    let names = [
        "expr-voice-2-m", "expr-voice-2-f", "expr-voice-3-m", "expr-voice-3-f",
        "expr-voice-4-m", "expr-voice-4-f", "expr-voice-5-m", "expr-voice-5-f",
    ];
    for name in names {
        assert!(is_known_voice(name), "{name}");
    }
    assert!(!is_known_voice("expr-voice-6-m"));
    assert!(!is_known_voice(""));
}

#[test]
fn voice_bank_serves_all_eight() {
    // Only two voices present in the archive; the bank still answers all
    // eight, the absentees with zero vectors.
    let mut entries: Vec<Option<Vec<u32>>> = vec![None; 8];
    entries[0] = Some(vec![0x3F800000u32; 256]);
    entries[6] = Some(vec![0x3E800000u32; 256]);
    let bank = VoiceBank::load(entries);
    let voices = bank.available_voices();
    assert_eq!(voices.len(), 8);
    for name in &voices {
        let v = bank.get(name).unwrap();
        assert_eq!(v.len(), 256);
    }
    assert_eq!(bank.get("expr-voice-2-m").unwrap()[0], 0x3F800000);
    assert_eq!(bank.get("expr-voice-5-m").unwrap()[0], 0x3E800000);
    assert_eq!(bank.get("expr-voice-3-f").unwrap()[0], 0);
}

#[test]
fn voice_bank_rejects_unknown_name() {
    let bank = VoiceBank::load(vec![None; 8]);
    match bank.get("nonexistent") {
        Err(TtsError::UnknownVoice { name }) => assert_eq!(name, "nonexistent"),
        other => panic!("expected UnknownVoice, got {:?}", other),
    }
}

#[test]
fn voice_bank_replaces_ill_sized_entry() {
    let mut entries: Vec<Option<Vec<u32>>> = vec![None; 8];
    entries[1] = Some(vec![0x3F800000u32; 100]);
    let bank = VoiceBank::load(entries);
    let v = bank.get("expr-voice-2-f").unwrap();
    assert_eq!(v.len(), 256);
    assert!(v.iter().all(|&w| w == 0));
}

#[test]
fn pad_tokens_delimits_with_zero() {
    assert_eq!(pad_token_sequence(vec![5, 6]), vec![0, 5, 6, 0]);
    assert_eq!(pad_token_sequence(Vec::new()), vec![0, 0]);
}

#[test]
fn encoded_phonemes_start_and_end_with_pad() {
    let cleaner = TextCleaner::new();
    let ids = encode_phonemes(&cleaner, "ab c");
    assert_eq!(ids, vec![0, 43, 44, 16, 45, 0]);
    assert_eq!(*ids.first().unwrap(), 0);
    assert_eq!(*ids.last().unwrap(), 0);
    assert!(ids.len() >= 2);
}

#[test]
fn flatten_batch_row_major() {
    let batch = vec![vec![1i64, 2], vec![3, 4], vec![5, 6]];
    let (b, t, flat) = flatten_token_batch(&batch).unwrap();
    assert_eq!((b, t), (3, 2));
    assert_eq!(flat, vec![1, 2, 3, 4, 5, 6]);
}

#[test]
fn flatten_batch_rejects_ragged_and_empty() {
    assert!(matches!(
        flatten_token_batch(&vec![vec![1i64], vec![2, 3]]),
        Err(TtsError::Inference { .. })
    ));
    assert!(matches!(
        flatten_token_batch(&Vec::new()),
        Err(TtsError::Inference { .. })
    ));
}

#[test]
fn provider_fallback_to_cpu() {
    // A provider the build does not carry falls back to the CPU with a
    // warning; the CPU itself never warns.
    let (p, warn) = resolve_provider(AccelerationProvider::Cuda, false, false);
    assert_eq!(p, AccelerationProvider::Cpu);
    assert!(warn);
    let (p, warn) = resolve_provider(AccelerationProvider::Cuda, true, false);
    assert_eq!(p, AccelerationProvider::Cuda);
    assert!(!warn);
    let (p, warn) = resolve_provider(AccelerationProvider::TensorRT, false, false);
    assert_eq!(p, AccelerationProvider::Cpu);
    assert!(warn);
    let (p, warn) = resolve_provider(AccelerationProvider::Cpu, false, false);
    assert_eq!(p, AccelerationProvider::Cpu);
    assert!(!warn);
}

#[test]
fn error_messages_name_kind_and_value() {
    let e = TtsError::UnknownVoice { name: "nonexistent".to_string() };
    assert_eq!(e.message(), "unknown voice: nonexistent");
    let e = TtsError::AssetUnavailable { path: "models/config.json".to_string() };
    assert_eq!(e.message(), "asset unavailable: models/config.json");
    let e = TtsError::InvalidArgument { message: "speed must be positive".to_string() };
    assert_eq!(e.message(), "invalid argument: speed must be positive");
}
