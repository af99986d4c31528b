//! The voice bank: named style vectors for the eight canonical voices.
//!
//! A style vector is 256 samples of the model's speaker embedding.  Its
//! entries are 32-bit floating-point words that this crate never reads,
//! only stores and hands to the inference engine, so the bank keeps each
//! entry as its raw bit pattern; the application crate converts at the
//! engine's doorstep.  Voices missing from the archive get an all-zero
//! vector (the all-zero bit pattern is floating-point zero), and a lookup
//! under any name outside the canonical eight is rejected.

use vstd::prelude::*;

use crate::errors::TtsError;

verus! {

/// Width of a style vector, fixed by the model.
pub const STYLE_DIM: usize = 256;

/// The canonical voice names, in their fixed order.
pub open spec fn canonical_voice_names() -> Seq<Seq<char>> {
    seq![
        "expr-voice-2-m"@,
        "expr-voice-2-f"@,
        "expr-voice-3-m"@,
        "expr-voice-3-f"@,
        "expr-voice-4-m"@,
        "expr-voice-4-f"@,
        "expr-voice-5-m"@,
        "expr-voice-5-f"@,
    ]
}

/// A name is a voice name when it is one of the canonical eight.
pub open spec fn is_canonical_voice(name: Seq<char>) -> bool {
    canonical_voice_names().contains(name)
}

/// The canonical voice names as owned strings, in order.
pub fn canonical_voices() -> (r: Vec<String>)
    ensures
        r.deep_view() == canonical_voice_names(),
{
    let mut r: Vec<String> = Vec::new();
    r.push("expr-voice-2-m".to_owned());
    r.push("expr-voice-2-f".to_owned());
    r.push("expr-voice-3-m".to_owned());
    r.push("expr-voice-3-f".to_owned());
    r.push("expr-voice-4-m".to_owned());
    r.push("expr-voice-4-f".to_owned());
    r.push("expr-voice-5-m".to_owned());
    r.push("expr-voice-5-f".to_owned());
    proof {
        assert(r.deep_view() =~= canonical_voice_names());
    }
    r
}

/// The bank: one style vector per canonical voice, in canonical order.
pub struct VoiceBank {
    names: Vec<String>,
    vectors: Vec<Vec<u32>>,
}

impl VoiceBank {
    /// The bank holds exactly the canonical names, each with a vector of
    /// the model's style width.
    pub closed spec fn wf(&self) -> bool {
        &&& self.names.deep_view() == canonical_voice_names()
        &&& self.vectors@.len() == canonical_voice_names().len()
        &&& forall|i: int| 0 <= i < self.vectors@.len()
            ==> (#[trigger] self.vectors@[i])@.len() == STYLE_DIM
    }

    /// The style vector stored for the voice at canonical index `i`.
    pub closed spec fn vector_spec(&self, i: int) -> Seq<u32> {
        self.vectors@[i]@
    }

    /// Builds the bank from the archive's answer for each canonical
    /// voice, in canonical order.  An answer is kept when it has the
    /// model's style width; a missing or ill-sized answer becomes the
    /// all-zero vector.
    pub fn load(entries: Vec<Option<Vec<u32>>>) -> (r: VoiceBank)
        requires
            entries@.len() == canonical_voice_names().len(),
        ensures
            r.wf(),
            forall|i: int| 0 <= i < canonical_voice_names().len()
                ==> r.vector_spec(i) == (match #[trigger] entries@[i] {
                    Some(v) => if v@.len() == STYLE_DIM {
                        v@
                    } else {
                        Seq::new(STYLE_DIM as nat, |j: int| 0u32)
                    },
                    None => Seq::new(STYLE_DIM as nat, |j: int| 0u32),
                }),
    {
        broadcast use vstd::std_specs::vec::axiom_spec_into_iter;

        let names = canonical_voices();
        let mut vectors: Vec<Vec<u32>> = Vec::new();
        for entry in it: entries
            invariant
                it.seq().len() == canonical_voice_names().len(),
                vectors@.len() == it.index(),
                forall|k: int| 0 <= k < vectors@.len()
                    ==> (#[trigger] vectors@[k])@.len() == STYLE_DIM,
                forall|k: int| 0 <= k < vectors@.len()
                    ==> (#[trigger] vectors@[k])@ == (match it.seq()[k] {
                        Some(v) => if v@.len() == STYLE_DIM {
                            v@
                        } else {
                            Seq::new(STYLE_DIM as nat, |j: int| 0u32)
                        },
                        None => Seq::new(STYLE_DIM as nat, |j: int| 0u32),
                    }),
        {
            match entry {
                Some(v) => {
                    if v.len() == STYLE_DIM {
                        vectors.push(v);
                    } else {
                        vectors.push(zero_vector());
                    }
                }
                None => {
                    vectors.push(zero_vector());
                }
            }
        }
        VoiceBank { names, vectors }
    }

    /// The canonical voice names, in order.
    pub fn available_voices(&self) -> (r: Vec<String>)
        ensures
            r.deep_view() == canonical_voice_names(),
    {
        canonical_voices()
    }

    /// Hands out the style vector of a canonical voice; any other name is
    /// an unknown voice.
    pub fn get(&self, name: &str) -> (r: Result<&Vec<u32>, TtsError>)
        requires
            self.wf(),
        ensures
            match r {
                Ok(v) => is_canonical_voice(name@) && v@.len() == STYLE_DIM
                    && (exists|i: int| 0 <= i < canonical_voice_names().len()
                        && canonical_voice_names()[i] == name@
                        && v@ == self.vector_spec(i)),
                Err(e) => !is_canonical_voice(name@)
                    && (e matches TtsError::UnknownVoice { name: n } && n@ == name@),
            },
    {
        let owned = name.to_owned();
        let n: usize = self.names.len();
        let mut i: usize = 0;
        while i < n
            invariant
                self.wf(),
                owned@ == name@,
                n == self.names@.len(),
                n == canonical_voice_names().len(),
                i <= n,
                forall|k: int| 0 <= k < i ==> canonical_voice_names()[k] != name@,
            decreases n - i,
        {
            if owned == self.names[i] {
                proof {
                    assert(self.names.deep_view()[i as int] == self.names@[i as int]@);
                    assert(canonical_voice_names()[i as int] == name@);
                    assert(is_canonical_voice(name@));
                    assert(self.vector_spec(i as int) == self.vectors@[i as int]@);
                }
                return Ok(&self.vectors[i]);
            }
            proof {
                assert(self.names.deep_view()[i as int] == self.names@[i as int]@);
            }
            i = i + 1;
        }
        Err(TtsError::UnknownVoice { name: owned })
    }
}

/// An all-zero style vector: the placeholder for a missing voice.
pub fn zero_vector() -> (r: Vec<u32>)
    ensures
        r@ == Seq::new(STYLE_DIM as nat, |j: int| 0u32),
{
    let mut r: Vec<u32> = Vec::new();
    let mut i: usize = 0;
    while i < STYLE_DIM
        invariant
            i <= STYLE_DIM,
            r@.len() == i,
            forall|j: int| 0 <= j < i ==> r@[j] == 0u32,
        decreases STYLE_DIM - i,
    {
        r.push(0u32);
        i = i + 1;
    }
    proof {
        assert(r@ =~= Seq::new(STYLE_DIM as nat, |j: int| 0u32));
    }
    r
}

/// In a well-formed bank every canonical voice, by index, holds a vector
/// of the model's style width; with `VoiceBank::load`'s postcondition
/// this says a loaded bank answers all eight names, zeros standing in for
/// whatever the archive missed.
pub proof fn lemma_voice_bank_complete(bank: VoiceBank, i: int)
    requires
        bank.wf(),
        0 <= i < canonical_voice_names().len(),
    ensures
        bank.vector_spec(i).len() == STYLE_DIM,
{
}

} // verus!
