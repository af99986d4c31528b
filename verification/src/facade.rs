//! Request validation at the public boundary.
//!
//! Before any synthesis work, a request must name one of the canonical
//! voices, carry a positive speed, and have text to speak.  The speed is
//! a 32-bit floating-point word, validated here on its bit pattern; the
//! checks happen in this order, and each failure names the offending
//! value.

use vstd::prelude::*;

use crate::encode::{f32_bits_positive, speed_bits_positive};
use crate::errors::TtsError;
use crate::voices::{canonical_voice_names, canonical_voices, is_canonical_voice};

verus! {

/// Whether `name` is one of the canonical voices.
pub fn is_known_voice(name: &str) -> (r: bool)
    ensures
        r == is_canonical_voice(name@),
{
    let names = canonical_voices();
    let owned = name.to_owned();
    let n: usize = names.len();
    let mut i: usize = 0;
    while i < n
        invariant
            owned@ == name@,
            names.deep_view() == canonical_voice_names(),
            n == names@.len(),
            n == canonical_voice_names().len(),
            i <= n,
            forall|k: int| 0 <= k < i ==> canonical_voice_names()[k] != name@,
        decreases n - i,
    {
        if owned == names[i] {
            proof {
                assert(names.deep_view()[i as int] == names@[i as int]@);
                assert(canonical_voice_names()[i as int] == name@);
            }
            return true;
        }
        proof {
            assert(names.deep_view()[i as int] == names@[i as int]@);
        }
        i = i + 1;
    }
    false
}

/// Validates a synthesis request: the voice must be canonical, the speed
/// word positive, the text non-empty — checked in that order, so an
/// unknown voice outranks a bad speed, which outranks empty text.
pub fn validate_request(voice: &str, speed_bits: u32, text: &str) -> (r: Result<(), TtsError>)
    ensures
        r is Ok <==> is_canonical_voice(voice@) && f32_bits_positive(speed_bits)
            && text@.len() > 0,
        r matches Err(e) ==> if !is_canonical_voice(voice@) {
            e matches TtsError::UnknownVoice { name } && name@ == voice@
        } else if !f32_bits_positive(speed_bits) {
            e matches TtsError::InvalidArgument { message }
                && message@ == "speed must be positive"@
        } else {
            text@.len() == 0
                && (e matches TtsError::InvalidArgument { message }
                    && message@ == "text must not be empty"@)
        },
{
    if !is_known_voice(voice) {
        return Err(TtsError::UnknownVoice { name: voice.to_owned() });
    }
    if !speed_bits_positive(speed_bits) {
        return Err(TtsError::InvalidArgument { message: "speed must be positive".to_owned() });
    }
    if text.is_empty() {
        return Err(TtsError::InvalidArgument { message: "text must not be empty".to_owned() });
    }
    Ok(())
}

} // verus!
