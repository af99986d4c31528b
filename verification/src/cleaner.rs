//! The text cleaner: maps a phoneme string to the id sequence the model eats.
//!
//! Cleaning is a pure filter: each character is looked up in the symbol
//! table and its id emitted; characters outside the table are dropped
//! silently.  Order and multiplicity are preserved and nothing is folded or
//! normalised, so the result is exactly the input filtered through
//! [`crate::symbols::spec_id_of`].

use vstd::prelude::*;

use crate::symbols::{spec_id_of, symbol_seq, symbol_table, id_of};

verus! {

/// What cleaning means: keep, in order, the id of every character that the
/// symbol table knows.
pub open spec fn clean_spec(s: Seq<char>) -> Seq<i64> {
    s.filter_map(|c: char| spec_id_of(c))
}

/// Owns an executable copy of the symbol table and filters strings
/// through it.
pub struct TextCleaner {
    table: Vec<char>,
}

impl TextCleaner {
    /// The cleaner's table is the model's symbol table, unchanged.
    pub closed spec fn wf(&self) -> bool {
        self.table@ == symbol_seq()
    }

    /// Builds a cleaner over the fixed symbol table.
    pub fn new() -> (r: TextCleaner)
        ensures
            r.wf(),
    {
        TextCleaner { table: symbol_table() }
    }

    /// Maps a string to its id sequence, dropping unknown characters.
    pub fn clean(&self, text: &str) -> (r: Vec<i64>)
        requires
            self.wf(),
        ensures
            r@ == clean_spec(text@),
    {
        broadcast use vstd::string::axiom_spec_iter;

        let mut out: Vec<i64> = Vec::new();
        for c in it: text.chars()
            invariant
                self.wf(),
                it.seq() == text@,
                out@ == clean_spec(it.seq().take(it.index())),
        {
            let ghost i = it.index();
            proof {
                assert(c == it.seq()[i]);
                assert(it.seq().take(i + 1).drop_last() =~= it.seq().take(i));
                assert(it.seq().take(i + 1).last() == c);
            }
            match id_of(&self.table, c) {
                Some(id) => {
                    out.push(id);
                }
                None => {}
            }
            proof {
                assert(out@ =~= clean_spec(it.seq().take(i + 1)));
            }
        }
        proof {
            assert(text@.take(text@.len() as int) =~= text@);
        }
        out
    }
}

impl Default for TextCleaner {
    /// A default cleaner is a freshly built one.
    fn default() -> (r: TextCleaner)
        ensures
            r.wf(),
    {
        TextCleaner::new()
    }
}

} // verus!
