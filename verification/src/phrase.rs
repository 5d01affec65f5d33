//! Phrases: texts of several words, taken word by word through the
//! dictionary and the conversion.

use crate::darpabet::{all_known, ipa_of_all, Dictionary};
use crate::ipa_to_hangul::{convert, hangul_of};
use crate::text::{chars_of, next_word, string_of, words_of};
use vstd::prelude::*;

verus! {

/// The texts with a space between each two of them.
pub open spec fn joined(texts: Seq<Seq<char>>) -> Seq<char>
    decreases texts.len(),
{
    if texts.len() == 0 {
        Seq::empty()
    } else if texts.len() == 1 {
        texts[0]
    } else {
        joined(texts.drop_last()) + seq![' '] + texts.last()
    }
}

/// One text more is joined on with a space, unless it is the first.
proof fn lemma_joined_push(texts: Seq<Seq<char>>, text: Seq<char>)
    ensures
        joined(texts.push(text)) == if texts.len() == 0 {
            text
        } else {
            joined(texts) + seq![' '] + text
        },
{
    assert(texts.push(text).drop_last() =~= texts);
}

/// The Hangul text of each of the words.
pub open spec fn hangul_of_each(words: Seq<Seq<char>>) -> Seq<Seq<char>> {
    words.map_values(|word: Seq<char>| hangul_of(word))
}

/// The Hangul text of each word of a phonetic text, with a space between
/// each two of them.
pub open spec fn hangul_of_words(phonetics: Seq<char>) -> Seq<char> {
    joined(hangul_of_each(words_of(phonetics)))
}

/// Converts a phonetic text word by word.
pub fn convert_words(phonetics: &str) -> (hanguls: String)
    ensures
        hanguls@ == hangul_of_words(phonetics@),
{
    let chars = chars_of(phonetics);
    let ghost mut done: Seq<Seq<char>> = Seq::empty();
    let mut hanguls = String::new();
    let mut from: usize = 0;
    let mut first = true;
    proof {
        assert(chars@.skip(0) =~= chars@);
        assert(done + words_of(chars@) =~= words_of(chars@));
    }
    loop
        invariant
            from <= chars.len(),
            chars@ == phonetics@,
            first == (done.len() == 0),
            done + words_of(chars@.skip(from as int)) == words_of(chars@),
            hanguls@ == joined(hangul_of_each(done)),
        decreases chars.len() - from,
    {
        match next_word(&chars, from) {
            Some((start, end)) => {
                let word = string_of(&chars, start, end);
                let hangul = convert(word.as_str());
                if !first {
                    hanguls.push(' ');
                }
                hanguls.append(hangul.as_str());
                proof {
                    let longer = done.push(word@);
                    assert(hangul_of_each(longer) =~= hangul_of_each(done).push(hangul@));
                    lemma_joined_push(hangul_of_each(done), hangul@);
                    assert(longer + words_of(chars@.skip(end as int)) =~= done + (seq![word@]
                        + words_of(chars@.skip(end as int))));
                    done = longer;
                }
                first = false;
                from = end;
            },
            None => {
                proof {
                    assert(done =~= words_of(chars@));
                }
                return hanguls;
            },
        }
    }
}

/// What a phrase comes to: the phonetic spelling of its words and their
/// Hangul text, each with a space between the words.
pub struct Transliteration {
    pub pronunciations: String,
    pub hanguls: String,
}

/// Whether the dictionary has a phonetic spelling for a word, if it holds
/// the word.
pub open spec fn is_readable(dictionary: Dictionary, word: Seq<char>) -> bool {
    dictionary.entry(word) matches Some(symbols) ==> all_known(words_of(symbols))
}

/// Whether the dictionary has a phonetic spelling for each of the words
/// that it holds.
pub open spec fn all_readable(dictionary: Dictionary, words: Seq<Seq<char>>) -> bool {
    forall|i: int| 0 <= i < words.len() ==> is_readable(dictionary, #[trigger] words[i])
}

/// The phonetic spelling that the dictionary has for a word: `?` where it
/// does not hold the word.
pub open spec fn pronunciation_in(dictionary: Dictionary, word: Seq<char>) -> Seq<char> {
    match dictionary.entry(word) {
        Some(symbols) => ipa_of_all(words_of(symbols)),
        None => seq!['?'],
    }
}

/// The Hangul text for a word by the dictionary: `?` where it does not hold
/// the word.
pub open spec fn hangul_in(dictionary: Dictionary, word: Seq<char>) -> Seq<char> {
    match dictionary.entry(word) {
        Some(symbols) => hangul_of(ipa_of_all(words_of(symbols))),
        None => seq!['?'],
    }
}

/// The phonetic spelling of each of the words by the dictionary.
pub open spec fn pronunciation_of_each(dictionary: Dictionary, words: Seq<Seq<char>>) -> Seq<
    Seq<char>,
> {
    words.map_values(|word: Seq<char>| pronunciation_in(dictionary, word))
}

/// The Hangul text of each of the words by the dictionary.
pub open spec fn hangul_in_each(dictionary: Dictionary, words: Seq<Seq<char>>) -> Seq<Seq<char>> {
    words.map_values(|word: Seq<char>| hangul_in(dictionary, word))
}

/// Looks up each word of a text and converts its pronunciation. A word
/// that the dictionary does not hold gives `?`. `None` if the dictionary
/// holds, for one of the words, a symbol without a phonetic spelling.
pub fn transliterate(dictionary: &Dictionary, text: &str) -> (r: Option<Transliteration>)
    ensures
        match r {
            Some(t) => {
                &&& all_readable(*dictionary, words_of(text@))
                &&& t.pronunciations@ == joined(
                    pronunciation_of_each(*dictionary, words_of(text@)),
                )
                &&& t.hanguls@ == joined(hangul_in_each(*dictionary, words_of(text@)))
            },
            None => !all_readable(*dictionary, words_of(text@)),
        },
{
    let chars = chars_of(text);
    let ghost mut done: Seq<Seq<char>> = Seq::empty();
    let mut pronunciations = String::new();
    let mut hanguls = String::new();
    let mut from: usize = 0;
    let mut first = true;
    proof {
        assert(chars@.skip(0) =~= chars@);
        assert(done + words_of(chars@) =~= words_of(chars@));
    }
    loop
        invariant
            from <= chars.len(),
            chars@ == text@,
            first == (done.len() == 0),
            done + words_of(chars@.skip(from as int)) == words_of(chars@),
            all_readable(*dictionary, done),
            pronunciations@ == joined(pronunciation_of_each(*dictionary, done)),
            hanguls@ == joined(hangul_in_each(*dictionary, done)),
        decreases chars.len() - from,
    {
        match next_word(&chars, from) {
            Some((start, end)) => {
                let word = string_of(&chars, start, end);
                let ghost longer = done.push(word@);
                proof {
                    assert(longer + words_of(chars@.skip(end as int)) =~= done + (seq![word@]
                        + words_of(chars@.skip(end as int))));
                    assert(pronunciation_of_each(*dictionary, longer) =~= pronunciation_of_each(
                        *dictionary,
                        done,
                    ).push(pronunciation_in(*dictionary, word@)));
                    assert(hangul_in_each(*dictionary, longer) =~= hangul_in_each(
                        *dictionary,
                        done,
                    ).push(hangul_in(*dictionary, word@)));
                    lemma_joined_push(
                        pronunciation_of_each(*dictionary, done),
                        pronunciation_in(*dictionary, word@),
                    );
                    lemma_joined_push(
                        hangul_in_each(*dictionary, done),
                        hangul_in(*dictionary, word@),
                    );
                }
                if !first {
                    pronunciations.push(' ');
                    hanguls.push(' ');
                }
                match dictionary.look_up(word.as_str()) {
                    Some(found) => {
                        if !found.is_known() {
                            proof {
                                let words = words_of(chars@);
                                assert(words[done.len() as int] == word@);
                                assert(!is_readable(*dictionary, words[done.len() as int]));
                            }
                            return None;
                        }
                        let ipa = found.ipa();
                        let hangul = convert(ipa.as_str());
                        pronunciations.append(ipa.as_str());
                        hanguls.append(hangul.as_str());
                    },
                    None => {
                        pronunciations.push('?');
                        hanguls.push('?');
                    },
                }
                proof {
                    assert(pronunciations@ =~= joined(pronunciation_of_each(*dictionary, longer)));
                    assert(hanguls@ =~= joined(hangul_in_each(*dictionary, longer)));
                    done = longer;
                }
                first = false;
                from = end;
            },
            None => {
                proof {
                    assert(done =~= words_of(chars@));
                }
                return Some(Transliteration { pronunciations, hanguls });
            },
        }
    }
}

} // verus!
