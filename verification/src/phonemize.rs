//! The phonemizer adapter's verified half.
//!
//! The outside grapheme-to-phoneme engine hands back one phoneme string
//! per sentence.  This module concatenates those, retokenizes the result
//! under the grammar in [`crate::tokenize`], and rejoins the tokens with
//! single spaces — the exact spacing the cleaner was trained against.
//! When the engine fails, the original text is retokenized the same way,
//! a lossy fallback whose tokens mostly miss the symbol table; that
//! behaviour is kept deliberately.

use vstd::prelude::*;

use crate::tokenize::{basic_english_tokenize, join_with_spaces, join_spaced, token_split};
use vstd::string::StringExecFns;

verus! {

/// Concatenation of a list of strings, with no separator.
pub open spec fn concat_seqs(ss: Seq<Seq<char>>) -> Seq<char>
    decreases ss.len(),
{
    if ss.len() == 0 {
        Seq::empty()
    } else {
        ss[0] + concat_seqs(ss.drop_first())
    }
}

/// Joins a list of strings into one, with no separator.
pub fn concat_strings(parts: &Vec<String>) -> (r: String)
    ensures
        r@ == concat_seqs(parts.deep_view()),
{
    let mut r = String::new();
    let n: usize = parts.len();
    let mut i: usize = 0;
    proof {
        assert(parts.deep_view().skip(0) =~= parts.deep_view());
    }
    while i < n
        invariant
            n == parts@.len(),
            i <= n,
            concat_seqs(parts.deep_view()) == r@ + concat_seqs(parts.deep_view().skip(i as int)),
        decreases n - i,
    {
        r.append(parts[i].as_str());
        proof {
            let deep = parts.deep_view();
            assert(deep.skip(i as int).drop_first() =~= deep.skip(i + 1));
            assert(deep.skip(i as int)[0] == parts@[i as int]@);
        }
        i = i + 1;
    }
    proof {
        assert(parts.deep_view().skip(n as int) =~= Seq::<Seq<char>>::empty());
    }
    r
}

/// Retokenizes a string: splits it under `\w+|[^\w\s]` and rejoins the
/// tokens with single spaces.
pub fn retokenize(text: &str) -> (r: String)
    ensures
        r@ == join_spaced(token_split(text@)),
{
    let toks = basic_english_tokenize(text);
    join_with_spaces(&toks)
}

/// Produces the phoneme string handed to the cleaner.  `g2p` carries the
/// per-sentence phoneme strings of a successful grapheme-to-phoneme run;
/// on failure (`None`) the original text is retokenized instead.
pub fn phonemize_output(g2p: Option<&Vec<String>>, text: &str) -> (r: String)
    ensures
        g2p matches Some(v)
            ==> r@ == join_spaced(token_split(concat_seqs(v.deep_view()))),
        g2p is None ==> r@ == join_spaced(token_split(text@)),
{
    match g2p {
        Some(v) => {
            let joined = concat_strings(v);
            retokenize(joined.as_str())
        }
        None => retokenize(text),
    }
}

} // verus!
