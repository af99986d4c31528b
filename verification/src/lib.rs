//! Offline text-to-speech runtime for the kitten-tts-nano acoustic model.
//!
//! The library covers the verified heart of the synthesis pipeline: the
//! fixed symbol table whose indices the model's embedding layer expects,
//! the phoneme cleaner, the language-code mapping, the phonemizer
//! retokenizer, the voice bank, tensor-input preparation, the silence
//! trimmer, and the WAV framing.  Network fetches, file handling and the
//! neural inference call itself live outside, in the accompanying
//! application crate, and hand this library plain values.

use vstd::prelude::*;

pub mod chars;
pub mod cleaner;
pub mod encode;
pub mod errors;
pub mod facade;
pub mod lang;
pub mod phonemize;
pub mod provider;
pub mod symbols;
pub mod tokenize;
pub mod trim;
pub mod voices;
pub mod wav;

verus! {

/// The fixed output rate of the acoustic model, in hertz.
pub const SAMPLE_RATE: u32 = 24000;

/// Number of samples produced per second of audio.
pub fn sample_rate() -> (r: u32)
    ensures
        r == SAMPLE_RATE,
{
    SAMPLE_RATE
}

} // verus!
