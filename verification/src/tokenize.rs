//! Tokenizers used around the phonemizer.
//!
//! The grapheme-to-phoneme output is retokenized with the grammar
//! `\w+|[^\w\s]`: maximal runs of word characters become tokens, every
//! other non-whitespace character is a token of its own, and whitespace
//! only separates.  The training pipeline applied the same split before
//! joining with single spaces, so the cleaner downstream expects exactly
//! this spacing; the grammar is specified and verified here, with only the
//! character classes themselves trusted (see [`crate::chars`]).

use vstd::prelude::*;

use crate::chars::{word_char, white_space, is_word_char, string_from_chars, to_char_vec};
use vstd::string::StringExecFns;

verus! {

/// Length of the maximal prefix of `s` made of word characters.
pub open spec fn word_run_len(s: Seq<char>) -> nat
    decreases s.len(),
{
    if s.len() == 0 || !word_char(s[0]) {
        0
    } else {
        (1 + word_run_len(s.drop_first())) as nat
    }
}

/// The maximal word prefix is exactly that: all word characters, ended by
/// the end of the string or a non-word character.
pub proof fn lemma_word_run_len(s: Seq<char>)
    ensures
        word_run_len(s) <= s.len(),
        forall|k: int| 0 <= k < word_run_len(s) ==> word_char(s[k]),
        word_run_len(s) < s.len() ==> !word_char(s[word_run_len(s) as int]),
    decreases s.len(),
{
    if s.len() == 0 || !word_char(s[0]) {
    } else {
        lemma_word_run_len(s.drop_first());
        assert(forall|k: int| 1 <= k < word_run_len(s)
            ==> word_char(s.drop_first()[k - 1]) && s.drop_first()[k - 1] == s[k]);
    }
}

/// Any bound with those two properties is the maximal word prefix length.
pub proof fn lemma_word_run_len_is(s: Seq<char>, m: int)
    requires
        0 <= m <= s.len(),
        forall|k: int| 0 <= k < m ==> word_char(s[k]),
        m < s.len() ==> !word_char(s[m]),
    ensures
        word_run_len(s) == m,
    decreases s.len(),
{
    if s.len() == 0 || !word_char(s[0]) {
    } else {
        assert(word_char(s[0]));
        assert(m >= 1);
        assert(forall|k: int| 0 <= k < m - 1
            ==> s.drop_first()[k] == s[k + 1] && word_char(s[k + 1]));
        lemma_word_run_len_is(s.drop_first(), m - 1);
    }
}

/// The token split of a string under the grammar `\w+|[^\w\s]`.
pub open spec fn token_split(s: Seq<char>) -> Seq<Seq<char>>
    decreases s.len() via token_split_decreases
{
    if s.len() == 0 {
        seq![]
    } else if word_char(s[0]) {
        seq![s.take(word_run_len(s) as int)] + token_split(s.skip(word_run_len(s) as int))
    } else if white_space(s[0]) {
        token_split(s.drop_first())
    } else {
        seq![seq![s[0]]] + token_split(s.drop_first())
    }
}

#[via_fn]
proof fn token_split_decreases(s: Seq<char>) {
    if s.len() > 0 && word_char(s[0]) {
        lemma_word_run_len(s);
        assert(word_run_len(s) == 1 + word_run_len(s.drop_first()));
        assert(1 <= word_run_len(s) <= s.len());
        assert(s.skip(word_run_len(s) as int).len() < s.len());
    }
}

/// Splits `text` into word runs and isolated punctuation, per the grammar.
pub fn basic_english_tokenize(text: &str) -> (r: Vec<String>)
    ensures
        r.deep_view() == token_split(text@),
{
    let chars = to_char_vec(text);
    let n: usize = chars.len();
    let mut out: Vec<String> = Vec::new();
    let mut i: usize = 0;
    proof {
        assert(out.deep_view() =~= Seq::<Seq<char>>::empty());
        assert(text@.skip(0) =~= text@);
    }
    while i < n
        invariant
            chars@ == text@,
            n == chars@.len(),
            i <= n,
            token_split(text@) == out.deep_view() + token_split(text@.skip(i as int)),
        decreases n - i,
    {
        let ghost pre = out.deep_view();
        let c = chars[i];
        if is_word_char(c) {
            let mut j: usize = i + 1;
            while j < n
                invariant
                    chars@ == text@,
                    n == chars@.len(),
                    i < j <= n,
                    forall|k: int| i <= k < j ==> word_char(chars@[k]),
                ensures
                    i < j <= n,
                    forall|k: int| i <= k < j ==> word_char(chars@[k]),
                    j == n || !word_char(chars@[j as int]),
                decreases n - j,
            {
                if !is_word_char(chars[j]) {
                    break;
                }
                j = j + 1;
            }
            let mut tokv: Vec<char> = Vec::new();
            let mut k: usize = i;
            while k < j
                invariant
                    chars@ == text@,
                    i <= k <= j <= n,
                    n == chars@.len(),
                    tokv@ == chars@.subrange(i as int, k as int),
                decreases j - k,
            {
                tokv.push(chars[k]);
                proof {
                    assert(tokv@ =~= chars@.subrange(i as int, k + 1));
                }
                k = k + 1;
            }
            let tok = string_from_chars(&tokv);
            out.push(tok);
            proof {
                let rest = text@.skip(i as int);
                assert(forall|t: int| 0 <= t < j - i ==> rest[t] == text@[i + t]);
                lemma_word_run_len_is(rest, j - i);
                assert(rest.take(j - i) =~= text@.subrange(i as int, j as int));
                assert(rest.skip(j - i) =~= text@.skip(j as int));
                assert(out.deep_view() =~= pre + seq![tok@]);
                assert(token_split(text@) =~= out.deep_view() + token_split(text@.skip(j as int)));
            }
            i = j;
        } else if c.is_whitespace() {
            proof {
                let rest = text@.skip(i as int);
                assert(rest.drop_first() =~= text@.skip(i + 1));
            }
            i = i + 1;
        } else {
            let mut tokv: Vec<char> = Vec::new();
            tokv.push(c);
            let tok = string_from_chars(&tokv);
            out.push(tok);
            proof {
                let rest = text@.skip(i as int);
                assert(rest.drop_first() =~= text@.skip(i + 1));
                assert(out.deep_view() =~= pre + seq![tok@]);
                assert(token_split(text@) =~= out.deep_view() + token_split(text@.skip(i + 1)));
            }
            i = i + 1;
        }
    }
    proof {
        assert(text@.skip(n as int) =~= Seq::<char>::empty());
        assert(token_split(text@) =~= out.deep_view());
    }
    out
}

/// The same split under its short name.
pub fn basic_tokenize(text: &str) -> (r: Vec<String>)
    ensures
        r.deep_view() == token_split(text@),
{
    basic_english_tokenize(text)
}

/// The character-level split: every character survives as its own token
/// except whitespace, of which only the ASCII space is kept.
pub open spec fn char_token_spec(s: Seq<char>) -> Seq<Seq<char>> {
    s.filter_map(|c: char| if !white_space(c) || c == ' ' {
        Some(seq![c])
    } else {
        None
    })
}

/// Splits `text` into one-character tokens, dropping all whitespace but
/// the ASCII space.
pub fn tokenize(text: &str) -> (r: Vec<String>)
    ensures
        r.deep_view() == char_token_spec(text@),
{
    broadcast use vstd::string::axiom_spec_iter;

    let mut out: Vec<String> = Vec::new();
    proof {
        assert(out.deep_view() =~= Seq::<Seq<char>>::empty());
    }
    for c in it: text.chars()
        invariant
            it.seq() == text@,
            out.deep_view() == char_token_spec(it.seq().take(it.index())),
    {
        let ghost i = it.index();
        let ghost pre = out.deep_view();
        proof {
            assert(c == it.seq()[i]);
            assert(it.seq().take(i + 1).drop_last() =~= it.seq().take(i));
            assert(it.seq().take(i + 1).last() == c);
        }
        if !c.is_whitespace() || c == ' ' {
            let mut tokv: Vec<char> = Vec::new();
            tokv.push(c);
            let tok = string_from_chars(&tokv);
            out.push(tok);
            proof {
                assert(out.deep_view() =~= pre + seq![seq![c]]);
            }
        }
        proof {
            assert(out.deep_view() =~= char_token_spec(it.seq().take(i + 1)));
        }
    }
    proof {
        assert(text@.take(text@.len() as int) =~= text@);
    }
    out
}

/// What joining a token list with single spaces means.
pub open spec fn join_spaced(toks: Seq<Seq<char>>) -> Seq<char>
    decreases toks.len(),
{
    if toks.len() == 0 {
        Seq::empty()
    } else {
        toks[0] + tail_join(toks.drop_first())
    }
}

/// The tail of a spaced join: a space before every remaining token.
pub open spec fn tail_join(toks: Seq<Seq<char>>) -> Seq<char>
    decreases toks.len(),
{
    if toks.len() == 0 {
        Seq::empty()
    } else {
        seq![' '] + toks[0] + tail_join(toks.drop_first())
    }
}

/// Joins tokens with a single ASCII space between them.
pub fn join_with_spaces(toks: &Vec<String>) -> (r: String)
    ensures
        r@ == join_spaced(toks.deep_view()),
{
    let mut r = String::new();
    let n: usize = toks.len();
    if n == 0 {
        return r;
    }
    proof {
        reveal_strlit(" ");
    }
    r.append(toks[0].as_str());
    let mut i: usize = 1;
    while i < n
        invariant
            n == toks@.len(),
            1 <= i <= n,
            join_spaced(toks.deep_view()) == r@ + tail_join(toks.deep_view().skip(i as int)),
        decreases n - i,
    {
        r.append(" ");
        r.append(toks[i].as_str());
        proof {
            reveal_strlit(" ");
            let deep = toks.deep_view();
            assert(deep.skip(i as int).drop_first() =~= deep.skip(i + 1));
            assert(deep.skip(i as int)[0] == toks@[i as int]@);
            assert(join_spaced(deep) =~= r@ + tail_join(deep.skip(i + 1)));
        }
        i = i + 1;
    }
    proof {
        let deep = toks.deep_view();
        assert(deep.skip(n as int) =~= Seq::<Seq<char>>::empty());
        assert(deep.skip(1) =~= deep.drop_first());
        assert(r@ =~= join_spaced(deep));
    }
    r
}

/// A string is in tokenized form when it is word runs separated by single
/// spaces: every character is a word character or a space, no space leads,
/// trails, or doubles.
pub open spec fn pretokenized(s: Seq<char>) -> bool {
    &&& forall|i: int| 0 <= i < s.len() ==> word_char(s[i]) || s[i] == ' '
    &&& s.len() > 0 ==> s[0] != ' '
    &&& s.len() > 0 ==> s[s.len() - 1] != ' '
    &&& forall|i: int| 0 <= i < s.len() - 1 ==> !(#[trigger] s[i] == ' ' && s[i + 1] == ' ')
}

/// Tokenizing a string that is already in tokenized form and joining the
/// tokens back with single spaces reproduces the string exactly.  The two
/// hypotheses on the character classes record that the ASCII space is
/// whitespace and not a word character, which the trusted classifiers
/// state of every call.
pub proof fn lemma_retokenize_idempotent(s: Seq<char>)
    requires
        pretokenized(s),
        !word_char(' '),
        white_space(' '),
    ensures
        join_spaced(token_split(s)) == s,
    decreases s.len(),
{
    if s.len() == 0 {
    } else {
        assert(word_char(s[0]));
        lemma_word_run_len(s);
        let run = word_run_len(s) as int;
        assert(run >= 1);
        if run == s.len() {
            assert(token_split(s.skip(run)) =~= Seq::<Seq<char>>::empty()) by {
                assert(s.skip(run) =~= Seq::<char>::empty());
            }
            assert(token_split(s) =~= seq![s.take(run)]);
            assert(join_spaced(token_split(s)) =~= s.take(run));
            assert(s.take(run) =~= s);
        } else {
            assert(!word_char(s[run]));
            assert(s[run] == ' ');
            assert(run + 1 < s.len()) by {
                assert(s[s.len() - 1] != ' ');
            }
            assert(s[run + 1] != ' ');
            assert(word_char(s[run + 1]));
            let rest = s.skip(run);
            assert(rest[0] == ' ');
            assert(!word_char(rest[0]) && white_space(rest[0]));
            assert(rest.drop_first() =~= s.skip(run + 1));
            let tail = s.skip(run + 1);
            assert(pretokenized(tail)) by {
                assert(forall|i: int| 0 <= i < tail.len()
                    ==> tail[i] == s[run + 1 + i]);
            }
            lemma_retokenize_idempotent(tail);
            assert(token_split(s) == seq![s.take(run)] + token_split(rest));
            assert(token_split(rest) == token_split(tail));
            assert(token_split(s) =~= seq![s.take(run)] + token_split(tail));
            assert(token_split(tail).len() > 0) by {
                assert(tail.len() > 0 && word_char(tail[0]));
            }
            let toks = token_split(tail);
            assert(join_spaced(seq![s.take(run)] + toks)
                =~= s.take(run) + tail_join(toks)) by {
                assert((seq![s.take(run)] + toks).drop_first() =~= toks);
            }
            assert(tail_join(toks) =~= seq![' '] + join_spaced(toks));
            assert(join_spaced(token_split(s)) =~= s.take(run) + seq![' '] + tail);
            assert(s.take(run) + seq![' '] + tail =~= s);
        }
    }
}

} // verus!
