//! The fixed symbol inventory of the acoustic model.
//!
//! The model's embedding layer was trained against one exact ordered list of
//! code points: the pad symbol, a punctuation run, the ASCII letters, and an
//! IPA inventory.  The integer id of a symbol is its index in that list, so
//! the list may never be reordered or extended; it is pinned here both as a
//! specification-level sequence and as the executable table built from it.

use vstd::prelude::*;

use crate::chars::push_chars;

verus! {

/// The pad symbol; its id, 0, delimits every utterance.
pub open spec fn pad_char() -> char {
    '$'
}

/// The punctuation inventory, in table order.  The straight double quote
/// appears three times; a duplicate code point keeps its first index.
pub open spec fn punct_chars() -> Seq<char> {
    ";:,.!?¡¿—…\"«»\"\" "@
}

/// The ASCII letters, upper case then lower case.
pub open spec fn letter_chars() -> Seq<char> {
    "ABCDEFGHIJKLMNOPQRSTUVWXYZabcdefghijklmnopqrstuvwxyz"@
}

/// The IPA inventory bundled with the model, in table order.
pub open spec fn ipa_chars() -> Seq<char> {
    "ɑɐɒæɓʙβɔɕçɗɖðʤəɘɚɛɜɝɞɟʄɡɠɢʛɦɧħɥʜɨɪʝɭɬɫɮʟɱɯɰŋɳɲɴøɵɸθœɶʘɹɺɾɻʀʁɽʂʃʈʧʉʊʋⱱʌɣɤʍχʎʏʑʐʒʔʡʕʢǀǁǂǃˈˌːˑʼʴʰʱʲʷˠˤ˞↓↑→↗↘'̩'ᵻ"@
}

/// The whole symbol table: pad, punctuation, letters, IPA, in that order.
pub open spec fn symbol_seq() -> Seq<char> {
    seq![pad_char()] + punct_chars() + letter_chars() + ipa_chars()
}

/// The id of a symbol is the index of its first occurrence in the table;
/// a code point outside the table has no id.
pub open spec fn spec_id_of(c: char) -> Option<i64> {
    match symbol_seq().index_of_first(c) {
        Some(i) => Some(i as i64),
        None => None,
    }
}

/// The table is wired exactly as the model expects: the pad symbol sits at
/// id 0, the table's length is one (the pad) plus the punctuation run plus
/// the 52 ASCII letters plus the IPA inventory, and the ASCII space keeps
/// the id that its position inside the punctuation run dictates.
pub proof fn lemma_symbol_table_integrity()
    ensures
        spec_id_of(pad_char()) == Some(0i64),
        symbol_seq().len() == 1 + punct_chars().len() + 52 + ipa_chars().len(),
        symbol_seq().len() == 178,
        punct_chars().index_of_first(' ') == Some(15int),
        spec_id_of(' ') == Some(16i64),
{
    reveal_strlit(";:,.!?¡¿—…\"«»\"\" ");
    reveal_strlit("ABCDEFGHIJKLMNOPQRSTUVWXYZabcdefghijklmnopqrstuvwxyz");
    reveal_strlit("ɑɐɒæɓʙβɔɕçɗɖðʤəɘɚɛɜɝɞɟʄɡɠɢʛɦɧħɥʜɨɪʝɭɬɫɮʟɱɯɰŋɳɲɴøɵɸθœɶʘɹɺɾɻʀʁɽʂʃʈʧʉʊʋⱱʌɣɤʍχʎʏʑʐʒʔʡʕʢǀǁǂǃˈˌːˑʼʴʰʱʲʷˠˤ˞↓↑→↗↘'̩'ᵻ");
    assert(symbol_seq()[0] == '$');
    symbol_seq().index_of_first_ensures(pad_char());
    assert(symbol_seq().len() == 178);
    assert(punct_chars()[15] == ' ');
    assert(forall|j: int| 0 <= j < 15 ==> punct_chars()[j] != ' ');
    punct_chars().index_of_first_ensures(' ');
    assert(symbol_seq()[16] == ' ');
    assert(forall|j: int| 0 <= j < 16 ==> symbol_seq()[j] != ' ');
    symbol_seq().index_of_first_ensures(' ');
}

/// Builds the executable symbol table.
pub fn symbol_table() -> (t: Vec<char>)
    ensures
        t@ == symbol_seq(),
{
    let mut t: Vec<char> = Vec::new();
    t.push('$');
    push_chars(&mut t, ";:,.!?¡¿—…\"«»\"\" ");
    push_chars(&mut t, "ABCDEFGHIJKLMNOPQRSTUVWXYZabcdefghijklmnopqrstuvwxyz");
    push_chars(&mut t, "ɑɐɒæɓʙβɔɕçɗɖðʤəɘɚɛɜɝɞɟʄɡɠɢʛɦɧħɥʜɨɪʝɭɬɫɮʟɱɯɰŋɳɲɴøɵɸθœɶʘɹɺɾɻʀʁɽʂʃʈʧʉʊʋⱱʌɣɤʍχʎʏʑʐʒʔʡʕʢǀǁǂǃˈˌːˑʼʴʰʱʲʷˠˤ˞↓↑→↗↘'̩'ᵻ");
    proof {
        assert(t@ =~= symbol_seq());
    }
    t
}

/// Looks a code point up in the table, returning the index of its first
/// occurrence.
pub fn id_of(table: &Vec<char>, c: char) -> (r: Option<i64>)
    requires
        table@ == symbol_seq(),
    ensures
        r == spec_id_of(c),
{
    let n: usize = table.len();
    let mut i: usize = 0;
    while i < n
        invariant
            n == table@.len(),
            table@ == symbol_seq(),
            i <= n,
            forall|j: int| 0 <= j < i ==> table@[j] != c,
        decreases n - i,
    {
        if table[i] == c {
            proof {
                symbol_seq().index_of_first_ensures(c);
            }
            return Some(i as i64);
        }
        i = i + 1;
    }
    proof {
        symbol_seq().index_of_first_ensures(c);
    }
    None
}

} // verus!
