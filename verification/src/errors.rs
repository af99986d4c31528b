//! The error taxonomy of the runtime.
//!
//! One tagged union covers every failure the public API can surface, each
//! kind carrying the offending value — a path, a voice name, or a short
//! message.  Only the phonemizer failure is recovered from locally (by
//! the fallback in [`crate::phonemize`]); every other kind bubbles to the
//! caller.

use vstd::prelude::*;

use vstd::string::StringExecFns;

verus! {

/// Everything that can go wrong, with the value that went wrong.
#[derive(Debug, Clone, PartialEq, Eq)]
pub enum TtsError {
    /// A model asset is missing and could not be fetched.
    AssetUnavailable { path: String },
    /// A model asset is present but cannot be parsed.
    AssetCorrupt { path: String },
    /// The requested voice is not one of the canonical names.
    UnknownVoice { name: String },
    /// An argument the facade rejects: empty text or non-positive speed.
    InvalidArgument { message: String },
    /// The grapheme-to-phoneme backend failed.
    Phonemizer { message: String },
    /// Tensor construction or the graph run failed.
    Inference { message: String },
    /// Writing the output file failed.
    Io { message: String },
}

/// The diagnostic line for each error kind: the kind's name, a colon, and
/// the offending value.
pub open spec fn message_spec(e: TtsError) -> Seq<char> {
    match e {
        TtsError::AssetUnavailable { path } => "asset unavailable: "@ + path@,
        TtsError::AssetCorrupt { path } => "asset corrupt: "@ + path@,
        TtsError::UnknownVoice { name } => "unknown voice: "@ + name@,
        TtsError::InvalidArgument { message } => "invalid argument: "@ + message@,
        TtsError::Phonemizer { message } => "phonemizer error: "@ + message@,
        TtsError::Inference { message } => "inference error: "@ + message@,
        TtsError::Io { message } => "io error: "@ + message@,
    }
}

impl TtsError {
    /// Renders the single-line diagnostic for this error.
    pub fn message(&self) -> (r: String)
        ensures
            r@ == message_spec(*self),
    {
        let mut out = String::new();
        match self {
            TtsError::AssetUnavailable { path } => {
                out.append("asset unavailable: ");
                out.append(path.as_str());
            }
            TtsError::AssetCorrupt { path } => {
                out.append("asset corrupt: ");
                out.append(path.as_str());
            }
            TtsError::UnknownVoice { name } => {
                out.append("unknown voice: ");
                out.append(name.as_str());
            }
            TtsError::InvalidArgument { message } => {
                out.append("invalid argument: ");
                out.append(message.as_str());
            }
            TtsError::Phonemizer { message } => {
                out.append("phonemizer error: ");
                out.append(message.as_str());
            }
            TtsError::Inference { message } => {
                out.append("inference error: ");
                out.append(message.as_str());
            }
            TtsError::Io { message } => {
                out.append("io error: ");
                out.append(message.as_str());
            }
        }
        out
    }
}

} // verus!
