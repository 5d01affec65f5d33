//! What an online dictionary gives for a word.
//!
//! A search gives the identifiers of the entries that match, of which the
//! first is taken. An entry has one headword or a list of them, of which
//! again the first is taken. The service lists the pronunciations of a
//! headword in one text, with commas between them. A [`Word`] keeps the
//! first.

use crate::text::{chars_of, lemma_span_is, span, string_of};
use vstd::prelude::*;

verus! {

/// A headword and its pronunciation.
pub struct Word {
    pub word: String,
    pub pronunciation: String,
}

/// The first item of a list with commas: what stands before the first
/// comma, or all of the text if it has no comma.
pub open spec fn first_listed(list: Seq<char>) -> Seq<char> {
    list.take(span(list, |c: char| c == ','))
}

impl Word {
    /// The word for a headword and the list of its pronunciations.
    pub fn from_headword(text: String, pronunciations: &str) -> (word: Word)
        ensures
            word.word@ == text@,
            word.pronunciation@ == first_listed(pronunciations@),
    {
        let chars = chars_of(pronunciations);
        let mut end: usize = 0;
        while end < chars.len() && chars[end] != ','
            invariant
                end <= chars.len(),
                forall|i: int| 0 <= i < end ==> chars@[i] != ',',
            decreases chars.len() - end,
        {
            end = end + 1;
        }
        proof {
            lemma_span_is(chars@, |c: char| c == ',', end as int);
            assert(chars@.take(end as int) =~= chars@.subrange(0, end as int));
        }
        Word { word: text, pronunciation: string_of(&chars, 0, end) }
    }
}

/// A headword as the service gives it: its text, and its pronunciations
/// with commas between them.
pub struct Headword {
    pub text: String,
    pub pronunciations: String,
}

/// The headwords of an entry: a single one, or a list.
pub enum Headwords {
    Single(Headword),
    Multiple(Vec<Headword>),
}

/// Whether `word` is the word for `headword`: it has the headword's text
/// and the first of its pronunciations.
pub open spec fn is_word_of(word: Word, headword: Headword) -> bool {
    &&& word.word@ == headword.text@
    &&& word.pronunciation@ == first_listed(headword.pronunciations@)
}

/// The entry that a search settles on: the first of the identifiers found.
/// `None` if the search found nothing.
pub fn first_result(ids: Vec<String>) -> (r: Option<String>)
    ensures
        r == if ids.len() == 0 {
            None
        } else {
            Some(ids[0])
        },
{
    let mut found = ids;
    if found.len() == 0 {
        None
    } else {
        Some(found.remove(0))
    }
}

/// The word of an entry: that of its single headword, or of the first in
/// its list. `None` if the list is empty.
pub fn first_headword(headwords: Headwords) -> (r: Option<Word>)
    ensures
        match headwords {
            Headwords::Single(single) => r matches Some(word) && is_word_of(word, single),
            Headwords::Multiple(list) => if list.len() == 0 {
                r is None
            } else {
                r matches Some(word) && is_word_of(word, list[0])
            },
        },
{
    match headwords {
        Headwords::Single(single) => Some(
            Word::from_headword(single.text, single.pronunciations.as_str()),
        ),
        Headwords::Multiple(list) => {
            let mut list = list;
            if list.len() == 0 {
                None
            } else {
                let first = list.remove(0);
                Some(Word::from_headword(first.text, first.pronunciations.as_str()))
            }
        },
    }
}

} // verus!
