//! Tests for the trimmer and the fades, on integer PCM at the unit scale.

use kittenx::trim::{
    apply_fade_in_out, apply_fade_in_out_samples, fixed_trim, trim_silence, AUDIO_SCALE,
};

fn sine_1s_440hz() -> Vec<i32> {
    let mut v = Vec::new();
    for t in 0..24000usize {
        let x = (2.0 * std::f64::consts::PI * 440.0 * (t as f64) / 24000.0).sin();
        v.push((x * (AUDIO_SCALE as f64 - 1.0)) as i32);
    }
    v
}

#[test]
fn trim_silent_signal_unchanged() {
    // An all-zero waveform has a zero reference level: nothing is trimmed.
    let audio = vec![0i32; 48000];
    let out = trim_silence(&audio, 24000, 40, 25, 10, 60, 30);
    assert_eq!(out.len(), 48000);
    assert_eq!(out, audio);
}

#[test]
fn trim_never_grows() {
    let mut audio = vec![0i32; 24000];
    audio.extend(sine_1s_440hz());
    audio.extend(vec![0i32; 24000]);
    let out = trim_silence(&audio, 24000, 40, 25, 10, 60, 30);
    assert!(out.len() <= audio.len());
}

#[test]
fn trim_clickless_edges() {
    // One second of silence, one of tone, one of silence: the trim keeps
    // the tone plus padding, and the fades pin both edges to zero.
    let mut audio = vec![0i32; 24000];
    audio.extend(sine_1s_440hz());
    audio.extend(vec![0i32; 24000]);
    let out = trim_silence(&audio, 24000, 40, 25, 10, 60, 30);
    assert!(out.len() >= 24000, "kept {} samples", out.len());
    assert!(out.len() <= 48000 + 720, "kept {} samples", out.len());
    assert_eq!(out[0], 0);
    assert_eq!(out[out.len() - 1], 0);
}

#[test]
fn trim_short_signal_not_gutted() {
    // A tone with no leading or trailing silence to speak of comes back
    // whole except for padding arithmetic; it is never emptied.
    let audio = sine_1s_440hz();
    let out = trim_silence(&audio, 24000, 40, 25, 10, 60, 30);
    assert!(out.len() >= 23000, "kept {} samples", out.len());
}

#[test]
fn fade_in_out_shapes_edges() {
    let mut audio = vec![1000i32; 4];
    apply_fade_in_out_samples(&mut audio, 2, 2);
    assert_eq!(audio, vec![0, 500, 500, 0]);
}

#[test]
fn fade_zero_lengths_do_nothing() {
    let mut audio = vec![700i32, -700, 700];
    apply_fade_in_out_samples(&mut audio, 0, 0);
    assert_eq!(audio, vec![700, -700, 700]);
}

#[test]
fn fade_truncates_toward_zero() {
    let mut audio = vec![-999i32; 3];
    apply_fade_in_out_samples(&mut audio, 3, 0);
    // Gains 0/3, 1/3, 2/3 truncated toward zero.
    assert_eq!(audio, vec![0, -333, -666]);
}

#[test]
fn fade_in_ms_converts_to_samples() {
    // Five milliseconds at 24 kHz is 120 samples: the 120th sample keeps
    // its value, the first is zeroed.
    let mut audio = vec![1200i32; 200];
    apply_fade_in_out(&mut audio, 24000, 5, 0);
    assert_eq!(audio[0], 0);
    assert_eq!(audio[60], 600);
    assert_eq!(audio[120], 1200);
}

#[test]
fn fixed_trim_strips_lead_and_tail() {
    let audio: Vec<u32> = (0..20000u32).collect();
    let out = fixed_trim(&audio, 5000, 10000);
    assert_eq!(out.len(), 5000);
    assert_eq!(out[0], 5000);
    assert_eq!(out[4999], 9999);
}

#[test]
fn fixed_trim_short_signal_unchanged() {
    let audio: Vec<u32> = (0..12000u32).collect();
    let out = fixed_trim(&audio, 5000, 10000);
    assert_eq!(out, audio);
}
