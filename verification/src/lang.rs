//! Language detection and the mapping to phonemizer language codes.
//!
//! Detection itself is a statistical classification done by an outside
//! crate; it is deterministic for a given text, so its verdict is a named,
//! trusted function of the text.  The small fixed table that turns a
//! verdict into one of the phonemizer's language codes is verified here,
//! with English as the code for everything the table does not know.

use vstd::prelude::*;

verus! {

/// The detection verdicts the pipeline distinguishes.  Every other
/// language a detector might report is folded into `Other`.
#[derive(Clone, Copy, Debug, PartialEq, Eq, Structural)]
pub enum DetectedLang {
    Eng,
    Spa,
    Fra,
    Deu,
    Ita,
    Por,
    Rus,
    Jpn,
    Kor,
    Cmn,
    Other,
}

/// The verdict whatlang's detection reaches on a text; `None` when it is
/// inconclusive.  The classification depends on the text alone.
pub uninterp spec fn detected_lang_of(s: Seq<char>) -> Option<DetectedLang>;

/// Relies on whatlang::detect: a trigram-based language classification
/// that is a function of the text alone and returns nothing when it
/// cannot reach a verdict.
#[verifier::external_body]
fn whatlang_detect(text: &str) -> (r: Option<DetectedLang>)
    ensures
        r == detected_lang_of(text@),
{
    whatlang::detect(text).map(|info| match info.lang() {
        whatlang::Lang::Eng => DetectedLang::Eng,
        whatlang::Lang::Spa => DetectedLang::Spa,
        whatlang::Lang::Fra => DetectedLang::Fra,
        whatlang::Lang::Deu => DetectedLang::Deu,
        whatlang::Lang::Ita => DetectedLang::Ita,
        whatlang::Lang::Por => DetectedLang::Por,
        whatlang::Lang::Rus => DetectedLang::Rus,
        whatlang::Lang::Jpn => DetectedLang::Jpn,
        whatlang::Lang::Kor => DetectedLang::Kor,
        whatlang::Lang::Cmn => DetectedLang::Cmn,
        _ => DetectedLang::Other,
    })
}

/// The phonemizer code each verdict maps to; unknown verdicts speak
/// English.
pub open spec fn lang_code_spec(d: DetectedLang) -> Seq<char> {
    match d {
        DetectedLang::Eng => "en-us"@,
        DetectedLang::Spa => "es"@,
        DetectedLang::Fra => "fr"@,
        DetectedLang::Deu => "de"@,
        DetectedLang::Ita => "it"@,
        DetectedLang::Por => "pt"@,
        DetectedLang::Rus => "ru"@,
        DetectedLang::Jpn => "ja"@,
        DetectedLang::Kor => "ko"@,
        DetectedLang::Cmn => "zh"@,
        DetectedLang::Other => "en-us"@,
    }
}

/// Maps a detection verdict to its phonemizer code.
pub fn lang_code(d: DetectedLang) -> (r: &'static str)
    ensures
        r@ == lang_code_spec(d),
{
    match d {
        DetectedLang::Eng => "en-us",
        DetectedLang::Spa => "es",
        DetectedLang::Fra => "fr",
        DetectedLang::Deu => "de",
        DetectedLang::Ita => "it",
        DetectedLang::Por => "pt",
        DetectedLang::Rus => "ru",
        DetectedLang::Jpn => "ja",
        DetectedLang::Kor => "ko",
        DetectedLang::Cmn => "zh",
        DetectedLang::Other => "en-us",
    }
}

/// Detects the language of `text` and returns the phonemizer code for it,
/// or nothing when detection is inconclusive.
pub fn detect_language(text: &str) -> (r: Option<String>)
    ensures
        r is Some <==> detected_lang_of(text@) is Some,
        r matches Some(code) ==> detected_lang_of(text@) matches Some(d)
            && code@ == lang_code_spec(d),
{
    match whatlang_detect(text) {
        Some(d) => Some(lang_code(d).to_owned()),
        None => None,
    }
}

} // verus!
