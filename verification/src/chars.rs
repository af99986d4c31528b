//! Character-level helpers shared by the tokenizers.
//!
//! The retokenization grammar rests on two character classes: the Unicode
//! word characters (the regex class `\w`) and the Unicode whitespace
//! characters (the `White_Space` property).  Neither class is something this
//! crate should re-derive from Unicode tables, so each is a named, trusted
//! classification; everything built on top of them is verified.

use vstd::prelude::*;

verus! {

/// The Unicode word characters: the class that the regex crate's `\w`
/// matches (`\p{Alphabetic}`, `\p{M}`, `\d`, `\p{Pc}`, `Join_Control`).
pub uninterp spec fn word_char(c: char) -> bool;

/// The Unicode `White_Space` code points.
pub uninterp spec fn white_space(c: char) -> bool;

/// Relies on the regex crate: `\w` matches exactly the Unicode word
/// characters, a class that depends on the character alone.  Its
/// documentation also states that `\w` covers `[0-9A-Za-z_]`, and the space
/// character belongs to none of those categories.
#[verifier::external_body]
pub(crate) fn is_word_char(c: char) -> (r: bool)
    ensures
        r == word_char(c),
        'a' as u32 <= c as u32 <= 'z' as u32 ==> r,
        'A' as u32 <= c as u32 <= 'Z' as u32 ==> r,
        '0' as u32 <= c as u32 <= '9' as u32 ==> r,
        c == '_' ==> r,
        c == ' ' ==> !r,
{
    let mut buf = [0u8; 4];
    match regex::Regex::new("^\\w$") {
        Ok(re) => re.is_match(c.encode_utf8(&mut buf)),
        Err(_) => false,
    }
}

/// Relies on char::is_whitespace: true exactly on the `White_Space` code
/// points, which include the ASCII space, and which depend on the
/// character alone.
pub assume_specification[ char::is_whitespace ](c: char) -> (r: bool)
    ensures
        r == white_space(c),
        c == ' ' ==> r,
;

/// Relies on String's FromIterator impl: collecting characters yields a
/// string of exactly those characters in order.
#[verifier::external_body]
pub(crate) fn string_from_chars(v: &Vec<char>) -> (r: String)
    ensures
        r@ == v@,
{
    v.iter().collect()
}

/// Appends every character of `s`, in order, to `out`.
pub(crate) fn push_chars(out: &mut Vec<char>, s: &str)
    ensures
        final(out)@ == old(out)@ + s@,
{
    broadcast use vstd::string::axiom_spec_iter;

    let ghost base = out@;
    for c in it: s.chars()
        invariant
            it.seq() == s@,
            out@ == base + it.seq().take(it.index()),
    {
        out.push(c);
        proof {
            assert(out@ =~= base + it.seq().take(it.index() + 1));
        }
    }
    proof {
        assert(out@ =~= base + s@);
    }
}

/// Collects the characters of `s` into a vector.
pub(crate) fn to_char_vec(s: &str) -> (r: Vec<char>)
    ensures
        r@ == s@,
{
    let mut v: Vec<char> = Vec::new();
    push_chars(&mut v, s);
    v
}

} // verus!
