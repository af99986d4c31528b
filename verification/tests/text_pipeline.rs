//! Tests for the symbol table, cleaner, tokenizers and language mapping.

use kittenx::cleaner::TextCleaner;
use kittenx::lang::{lang_code, DetectedLang, detect_language};
use kittenx::phonemize::{concat_strings, phonemize_output, retokenize};
use kittenx::symbols::{id_of, symbol_table};
use kittenx::tokenize::{basic_english_tokenize, basic_tokenize, join_with_spaces, tokenize};

#[test]
fn symbol_table_pad_is_first() {
    let table = symbol_table();
    assert_eq!(table[0], '$');
    assert_eq!(id_of(&table, '$'), Some(0));
}

#[test]
fn symbol_table_has_expected_length() {
    // 1 pad + 16 punctuation + 52 letters + 109 IPA glyphs.
    assert_eq!(symbol_table().len(), 178);
}

#[test]
fn symbol_table_space_id() {
    let table = symbol_table();
    assert_eq!(id_of(&table, ' '), Some(16));
}

#[test]
fn symbol_table_letters_and_ipa() {
    let table = symbol_table();
    assert_eq!(id_of(&table, 'A'), Some(17));
    assert_eq!(id_of(&table, 'Z'), Some(42));
    assert_eq!(id_of(&table, 'a'), Some(43));
    assert_eq!(id_of(&table, 'z'), Some(68));
    assert_eq!(id_of(&table, 'ɑ'), Some(69));
    assert_eq!(id_of(&table, '\t'), None);
}

#[test]
fn symbol_table_duplicate_takes_first_index() {
    let table = symbol_table();
    // The straight double quote appears three times in the punctuation run.
    assert_eq!(id_of(&table, '"'), Some(11));
}

#[test]
fn cleaner_maps_letters() {
    let cleaner = TextCleaner::new();
    assert_eq!(cleaner.clean("abc"), vec![43, 44, 45]);
}

#[test]
fn cleaner_drops_unknown_characters() {
    let cleaner = TextCleaner::new();
    assert_eq!(cleaner.clean("a\tb\nc"), vec![43, 44, 45]);
    assert_eq!(cleaner.clean(""), Vec::<i64>::new());
}

#[test]
fn cleaner_keeps_order_and_multiplicity() {
    let cleaner = TextCleaner::new();
    assert_eq!(cleaner.clean("aa a"), vec![43, 43, 16, 43]);
}

#[test]
fn cleaner_is_pure() {
    let a = TextCleaner::new();
    let b = TextCleaner::new();
    assert_eq!(a.clean("Hello, world."), b.clean("Hello, world."));
}

#[test]
fn basic_tokenize_splits_words_and_punctuation() {
    let toks = basic_english_tokenize("Hello, world.");
    assert_eq!(toks, vec!["Hello", ",", "world", "."]);
    assert_eq!(basic_tokenize("Hello, world."), toks);
}

#[test]
fn basic_tokenize_empty_and_spaces() {
    assert_eq!(basic_english_tokenize(""), Vec::<String>::new());
    assert_eq!(basic_english_tokenize("   "), Vec::<String>::new());
}

#[test]
fn char_tokenize_keeps_spaces_drops_other_whitespace() {
    let toks = tokenize("a\tb c");
    assert_eq!(toks, vec!["a", "b", " ", "c"]);
}

#[test]
fn join_with_spaces_roundtrip() {
    let toks = vec!["ab".to_string(), ".".to_string(), "cd".to_string()];
    assert_eq!(join_with_spaces(&toks), "ab . cd");
    assert_eq!(join_with_spaces(&Vec::new()), "");
}

#[test]
fn retokenize_pretokenized_is_identity() {
    // Already word runs separated by single spaces: retokenizing is a no-op.
    assert_eq!(retokenize("abc def g"), "abc def g");
    assert_eq!(retokenize("h"), "h");
}

#[test]
fn retokenize_separates_punctuation() {
    assert_eq!(retokenize("Hello, world."), "Hello , world .");
}

#[test]
fn phonemize_output_uses_g2p_when_present() {
    let g2p = vec!["ab.".to_string(), "cd".to_string()];
    assert_eq!(phonemize_output(Some(&g2p), "ignored"), "ab . cd");
    assert_eq!(concat_strings(&g2p), "ab.cd");
}

#[test]
fn phonemize_output_falls_back_to_text() {
    assert_eq!(phonemize_output(None, "Hi there!"), "Hi there !");
}

#[test]
fn detect_language_english() {
    let code = detect_language("There is no reason not to learn Esperanto.");
    assert_eq!(code, Some("en-us".to_string()));
}

#[test]
fn detect_language_russian() {
    let code = detect_language("Мой дядя самых честных правил, когда не в шутку занемог.");
    assert_eq!(code, Some("ru".to_string()));
}

#[test]
fn lang_code_mapping_table() {
    assert_eq!(lang_code(DetectedLang::Eng), "en-us");
    assert_eq!(lang_code(DetectedLang::Spa), "es");
    assert_eq!(lang_code(DetectedLang::Fra), "fr");
    assert_eq!(lang_code(DetectedLang::Deu), "de");
    assert_eq!(lang_code(DetectedLang::Ita), "it");
    assert_eq!(lang_code(DetectedLang::Por), "pt");
    assert_eq!(lang_code(DetectedLang::Rus), "ru");
    assert_eq!(lang_code(DetectedLang::Jpn), "ja");
    assert_eq!(lang_code(DetectedLang::Kor), "ko");
    assert_eq!(lang_code(DetectedLang::Cmn), "zh");
    assert_eq!(lang_code(DetectedLang::Other), "en-us");
}
