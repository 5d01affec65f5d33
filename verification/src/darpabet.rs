//! The pronouncing dictionary: words, written in ARPABET symbols, and the
//! phonetic (IPA) spelling of these symbols.
//!
//! The corpus is plain text with one entry on a line: the word, two spaces,
//! and the symbols of its pronunciation with a space between them. Lines
//! that start with `;;;` are comments. Words are found whatever their case.

use crate::text::{
    chars_of, char_is_numeric, lines_of, next_line, next_word, string_of, words_of,
};
use unicase::UniCase;
use vstd::hash_map::StringHashMap;
use vstd::pervasive::unreached;
use vstd::prelude::*;

verus! {

/// The phonetic spelling of a symbol of one letter.
pub open spec fn ipa_of_letter(c: char) -> Option<Seq<char>> {
    if c == 'B' {
        Some(seq!['b'])
    } else if c == 'D' {
        Some(seq!['d'])
    } else if c == 'F' {
        Some(seq!['f'])
    } else if c == 'G' {
        Some(seq!['ɡ'])
    } else if c == 'K' {
        Some(seq!['k'])
    } else if c == 'L' {
        Some(seq!['l'])
    } else if c == 'M' {
        Some(seq!['m'])
    } else if c == 'N' {
        Some(seq!['n'])
    } else if c == 'P' {
        Some(seq!['p'])
    } else if c == 'R' {
        Some(seq!['ɹ'])
    } else if c == 'S' {
        Some(seq!['s'])
    } else if c == 'T' {
        Some(seq!['t'])
    } else if c == 'V' {
        Some(seq!['v'])
    } else if c == 'W' {
        Some(seq!['w'])
    } else if c == 'Y' {
        Some(seq!['j'])
    } else if c == 'Z' {
        Some(seq!['z'])
    } else {
        None
    }
}

/// The phonetic spelling of a symbol of two letters.
pub open spec fn ipa_of_pair(c: char, d: char) -> Option<Seq<char>> {
    if c == 'A' && d == 'A' {
        Some(seq!['ɑ'])
    } else if c == 'A' && d == 'E' {
        Some(seq!['æ'])
    } else if c == 'A' && d == 'H' {
        Some(seq!['ʌ'])
    } else if c == 'A' && d == 'O' {
        Some(seq!['ɔ'])
    } else if c == 'A' && d == 'W' {
        Some(seq!['a', 'ʊ'])
    } else if c == 'A' && d == 'Y' {
        Some(seq!['a', 'ɪ'])
    } else if c == 'C' && d == 'H' {
        Some(seq!['t', 'ʃ'])
    } else if c == 'D' && d == 'H' {
        Some(seq!['ð'])
    } else if c == 'E' && d == 'H' {
        Some(seq!['ɛ'])
    } else if c == 'E' && d == 'R' {
        Some(seq!['ɝ'])
    } else if c == 'E' && d == 'Y' {
        Some(seq!['e', 'ɪ'])
    } else if c == 'H' && d == 'H' {
        Some(seq!['h'])
    } else if c == 'I' && d == 'H' {
        Some(seq!['ɪ'])
    } else if c == 'I' && d == 'Y' {
        Some(seq!['i'])
    } else if c == 'J' && d == 'H' {
        Some(seq!['d', 'ʒ'])
    } else if c == 'N' && d == 'G' {
        Some(seq!['ŋ'])
    } else if c == 'O' && d == 'W' {
        Some(seq!['o', 'ʊ'])
    } else if c == 'O' && d == 'Y' {
        Some(seq!['ɔ', 'ɪ'])
    } else if c == 'S' && d == 'H' {
        Some(seq!['ʃ'])
    } else if c == 'T' && d == 'H' {
        Some(seq!['θ'])
    } else if c == 'U' && d == 'H' {
        Some(seq!['ʊ'])
    } else if c == 'U' && d == 'W' {
        Some(seq!['u'])
    } else if c == 'Z' && d == 'H' {
        Some(seq!['ʒ'])
    } else {
        None
    }
}

/// The phonetic spelling of a symbol that carries no stress digit. `None`
/// if there is no such symbol.
pub open spec fn ipa_of(symbol: Seq<char>) -> Option<Seq<char>> {
    if symbol.len() == 1 {
        ipa_of_letter(symbol[0])
    } else if symbol.len() == 2 {
        ipa_of_pair(symbol[0], symbol[1])
    } else {
        None
    }
}

/// A symbol without the numeric characters at its end, which tell the
/// stress.
pub open spec fn strip_stress(symbol: Seq<char>) -> Seq<char>
    decreases symbol.len(),
{
    if symbol.len() > 0 && char_is_numeric(symbol.last()) {
        strip_stress(symbol.drop_last())
    } else {
        symbol
    }
}

/// The phonetic spelling of a symbol, whatever stress it carries.
pub open spec fn ipa_of_symbol(symbol: Seq<char>) -> Option<Seq<char>> {
    ipa_of(strip_stress(symbol))
}

/// Whether each of the symbols has a phonetic spelling.
pub open spec fn all_known(symbols: Seq<Seq<char>>) -> bool
    decreases symbols.len(),
{
    symbols.len() == 0 || (ipa_of_symbol(symbols[0]) is Some && all_known(symbols.skip(1)))
}

/// The phonetic spellings of the symbols, one after the other.
pub open spec fn ipa_of_all(symbols: Seq<Seq<char>>) -> Seq<char>
    decreases symbols.len(),
{
    if symbols.len() == 0 {
        Seq::empty()
    } else {
        ipa_of_symbol(symbols[0]).unwrap() + ipa_of_all(symbols.skip(1))
    }
}

fn letter_ipa(c: char) -> (r: Option<&'static str>)
    ensures
        match r {
            Some(ipa) => ipa_of_letter(c) == Some(ipa@),
            None => ipa_of_letter(c) is None,
        },
{
    let r = match c {
        'B' => "b",
        'D' => "d",
        'F' => "f",
        'G' => "ɡ",
        'K' => "k",
        'L' => "l",
        'M' => "m",
        'N' => "n",
        'P' => "p",
        'R' => "ɹ",
        'S' => "s",
        'T' => "t",
        'V' => "v",
        'W' => "w",
        'Y' => "j",
        'Z' => "z",
        _ => {
            return None;
        },
    };
    proof {
        reveal_strlit("b");
        reveal_strlit("d");
        reveal_strlit("f");
        reveal_strlit("ɡ");
        reveal_strlit("k");
        reveal_strlit("l");
        reveal_strlit("m");
        reveal_strlit("n");
        reveal_strlit("p");
        reveal_strlit("ɹ");
        reveal_strlit("s");
        reveal_strlit("t");
        reveal_strlit("v");
        reveal_strlit("w");
        reveal_strlit("j");
        reveal_strlit("z");
        assert(r@ =~= ipa_of_letter(c).unwrap());
    }
    Some(r)
}

fn pair_ipa(c: char, d: char) -> (r: Option<&'static str>)
    ensures
        match r {
            Some(ipa) => ipa_of_pair(c, d) == Some(ipa@),
            None => ipa_of_pair(c, d) is None,
        },
{
    let r = match (c, d) {
        ('A', 'A') => "ɑ",
        ('A', 'E') => "æ",
        ('A', 'H') => "ʌ",
        ('A', 'O') => "ɔ",
        ('A', 'W') => "aʊ",
        ('A', 'Y') => "aɪ",
        ('C', 'H') => "tʃ",
        ('D', 'H') => "ð",
        ('E', 'H') => "ɛ",
        ('E', 'R') => "ɝ",
        ('E', 'Y') => "eɪ",
        ('H', 'H') => "h",
        ('I', 'H') => "ɪ",
        ('I', 'Y') => "i",
        ('J', 'H') => "dʒ",
        ('N', 'G') => "ŋ",
        ('O', 'W') => "oʊ",
        ('O', 'Y') => "ɔɪ",
        ('S', 'H') => "ʃ",
        ('T', 'H') => "θ",
        ('U', 'H') => "ʊ",
        ('U', 'W') => "u",
        ('Z', 'H') => "ʒ",
        _ => {
            return None;
        },
    };
    proof {
        reveal_strlit("ɑ");
        reveal_strlit("æ");
        reveal_strlit("ʌ");
        reveal_strlit("ɔ");
        reveal_strlit("aʊ");
        reveal_strlit("aɪ");
        reveal_strlit("tʃ");
        reveal_strlit("ð");
        reveal_strlit("ɛ");
        reveal_strlit("ɝ");
        reveal_strlit("eɪ");
        reveal_strlit("h");
        reveal_strlit("ɪ");
        reveal_strlit("i");
        reveal_strlit("dʒ");
        reveal_strlit("ŋ");
        reveal_strlit("oʊ");
        reveal_strlit("ɔɪ");
        reveal_strlit("ʃ");
        reveal_strlit("θ");
        reveal_strlit("ʊ");
        reveal_strlit("u");
        reveal_strlit("ʒ");
        assert(r@ =~= ipa_of_pair(c, d).unwrap());
    }
    Some(r)
}

/// The phonetic spelling of the symbol that stands from `from` up to `to`,
/// if it has one.
fn symbol_ipa(chars: &Vec<char>, from: usize, to: usize) -> (r: Option<&'static str>)
    requires
        from <= to <= chars.len(),
    ensures
        match r {
            Some(ipa) => ipa_of_symbol(chars@.subrange(from as int, to as int)) == Some(ipa@),
            None => ipa_of_symbol(chars@.subrange(from as int, to as int)) is None,
        },
{
    let ghost symbol = chars@.subrange(from as int, to as int);
    let mut end: usize = to;
    while end > from && chars[end - 1].is_numeric()
        invariant
            from <= end <= to <= chars.len(),
            strip_stress(symbol) == strip_stress(chars@.subrange(from as int, end as int)),
        decreases end,
    {
        proof {
            let longer = chars@.subrange(from as int, end as int);
            assert(longer.drop_last() =~= chars@.subrange(from as int, end - 1));
        }
        end = end - 1;
    }
    let ghost bare = chars@.subrange(from as int, end as int);
    assert(strip_stress(symbol) == bare);
    if end - from == 1 {
        letter_ipa(chars[from])
    } else if end - from == 2 {
        pair_ipa(chars[from], chars[from + 1])
    } else {
        None
    }
}

/// Whether `s` is a symbol with a phonetic spelling.
pub fn is_symbol(s: &str) -> (r: bool)
    ensures
        r == ipa_of_symbol(s@) is Some,
{
    let chars = chars_of(s);
    proof {
        assert(chars@.subrange(0, chars@.len() as int) =~= s@);
    }
    symbol_ipa(&chars, 0, chars.len()).is_some()
}

/// The phonetic spelling of an ARPABET symbol, whatever stress it carries.
/// `s` must be a symbol that has one, which [`is_symbol`] tells.
pub fn map_char_to_ipa(s: &str) -> (ipa: &'static str)
    requires
        ipa_of_symbol(s@) is Some,
    ensures
        Some(ipa@) == ipa_of_symbol(s@),
{
    let chars = chars_of(s);
    proof {
        assert(chars@.subrange(0, chars@.len() as int) =~= s@);
    }
    match symbol_ipa(&chars, 0, chars.len()) {
        Some(ipa) => ipa,
        None => unreached(),
    }
}

/// The symbols of a pronunciation, as the dictionary holds them. Their
/// phonetic spelling is worked out when it is asked for, and can be asked
/// for again and again.
pub struct Pronunciation {
    symbols: String,
}

impl View for Pronunciation {
    type V = Seq<char>;

    closed spec fn view(&self) -> Seq<char> {
        self.symbols@
    }
}

impl Pronunciation {
    /// Whether every symbol of the pronunciation has a phonetic spelling.
    pub open spec fn spec_is_known(&self) -> bool {
        all_known(words_of(self@))
    }

    /// The phonetic spelling of the pronunciation.
    pub open spec fn ipa_text(&self) -> Seq<char> {
        ipa_of_all(words_of(self@))
    }

    /// The symbols, with white space between them.
    pub fn symbols(&self) -> (symbols: &str)
        ensures
            symbols@ == self@,
    {
        self.symbols.as_str()
    }

    /// Whether every symbol of the pronunciation has a phonetic spelling.
    #[verifier::when_used_as_spec(spec_is_known)]
    pub fn is_known(&self) -> (r: bool)
        ensures
            r == self.is_known(),
    {
        let chars = chars_of(self.symbols.as_str());
        let mut from: usize = 0;
        proof {
            assert(chars@.skip(0) =~= chars@);
        }
        loop
            invariant
                from <= chars.len(),
                chars@ == self@,
                all_known(words_of(chars@.skip(from as int))) == self.is_known(),
            decreases chars.len() - from,
        {
            match next_word(&chars, from) {
                Some((start, end)) => {
                    proof {
                        let words = words_of(chars@.skip(from as int));
                        assert(words.skip(1) =~= words_of(chars@.skip(end as int)));
                    }
                    if symbol_ipa(&chars, start, end).is_none() {
                        return false;
                    }
                    from = end;
                },
                None => {
                    return true;
                },
            }
        }
    }

    /// The phonetic spelling of the pronunciation. Every symbol must have
    /// one: [`Pronunciation::try_ipa`] asks first.
    pub fn ipa(&self) -> (ipa: String)
        requires
            self.is_known(),
        ensures
            ipa@ == self.ipa_text(),
    {
        let chars = chars_of(self.symbols.as_str());
        let mut ipa = String::new();
        let mut from: usize = 0;
        proof {
            assert(chars@.skip(0) =~= chars@);
        }
        loop
            invariant
                from <= chars.len(),
                chars@ == self@,
                all_known(words_of(chars@.skip(from as int))),
                ipa@ + ipa_of_all(words_of(chars@.skip(from as int))) == self.ipa_text(),
            decreases chars.len() - from,
        {
            match next_word(&chars, from) {
                Some((start, end)) => {
                    proof {
                        let words = words_of(chars@.skip(from as int));
                        assert(words.skip(1) =~= words_of(chars@.skip(end as int)));
                    }
                    let symbol = string_of(&chars, start, end);
                    let spelling = map_char_to_ipa(symbol.as_str());
                    let ghost before = ipa@;
                    ipa.append(spelling);
                    proof {
                        let rest = ipa_of_all(words_of(chars@.skip(end as int)));
                        assert(before + (spelling@ + rest) =~= (before + spelling@) + rest);
                    }
                    from = end;
                },
                None => {
                    proof {
                        assert(ipa@ + Seq::<char>::empty() =~= ipa@);
                    }
                    return ipa;
                },
            }
        }
    }

    /// The phonetic spelling of the pronunciation, or `None` if one of its
    /// symbols has none.
    pub fn try_ipa(&self) -> (r: Option<String>)
        ensures
            match r {
                Some(ipa) => self.is_known() && ipa@ == self.ipa_text(),
                None => !self.is_known(),
            },
    {
        if self.is_known() {
            Some(self.ipa())
        } else {
            None
        }
    }
}

/// The spelling of a word with its case folded, by which the dictionary
/// finds it: what `UniCase::to_folded_case` of `unicase` gives.
pub uninterp spec fn folded(word: Seq<char>) -> Seq<char>;

/// Whether a word is made of ASCII characters only.
pub open spec fn is_ascii_word(word: Seq<char>) -> bool {
    forall|i: int| 0 <= i < word.len() ==> '\0' <= #[trigger] word[i] <= '\u{7f}'
}

/// A character, in lower case if it is an ASCII capital.
pub open spec fn ascii_lowercase_char(c: char) -> char {
    if 'A' <= c <= 'Z' {
        ((c as u8) + 32) as char
    } else {
        c
    }
}

/// A word with its ASCII capitals in lower case.
pub open spec fn ascii_lowercase(word: Seq<char>) -> Seq<char> {
    Seq::new(word.len(), |i: int| ascii_lowercase_char(word[i]))
}

/// Folds the case of a word with `UniCase::new` and
/// `UniCase::to_folded_case` of `unicase`.
///
/// Trusted: the result depends on the word alone, and for a word of ASCII
/// characters it is the word with its capitals in lower case (the crate
/// takes such a word as ASCII and lowers it with `to_ascii_lowercase`).
#[verifier::external_body]
fn fold_case(word: &str) -> (key: String)
    ensures
        key@ == folded(word@),
        is_ascii_word(word@) ==> key@ == ascii_lowercase(word@),
{
    UniCase::new(word).to_folded_case()
}

/// Whether a line of the corpus is a comment.
pub open spec fn is_comment(line: Seq<char>) -> bool {
    line.len() >= 3 && line[0] == ';' && line[1] == ';' && line[2] == ';'
}

/// Where the first two spaces in a row stand in a line: the length of the
/// line, if it has none.
pub open spec fn gap(line: Seq<char>) -> int
    decreases line.len(),
{
    if line.len() < 2 {
        line.len() as int
    } else if line[0] == ' ' && line[1] == ' ' {
        0
    } else {
        1 + gap(line.skip(1))
    }
}

/// The word and the symbols of a line: what stands before its first two
/// spaces in a row and what stands after them. `None` if the line has no two
/// spaces in a row.
pub open spec fn entry_of(line: Seq<char>) -> Option<(Seq<char>, Seq<char>)> {
    let g = gap(line);
    if 0 <= g && g + 2 <= line.len() {
        Some((line.take(g), line.skip(g + 2)))
    } else {
        None
    }
}

/// The table `table` with the entries of `lines` added, each under its
/// word with the case folded. A later entry replaces an earlier one of the
/// same word. `None` if a line that is no comment has no entry.
pub open spec fn load(table: Map<Seq<char>, Seq<char>>, lines: Seq<Seq<char>>) -> Option<
    Map<Seq<char>, Seq<char>>,
>
    decreases lines.len(),
{
    if lines.len() == 0 {
        Some(table)
    } else if is_comment(lines[0]) {
        load(table, lines.skip(1))
    } else {
        match entry_of(lines[0]) {
            Some((word, symbols)) => load(table.insert(folded(word), symbols), lines.skip(1)),
            None => None,
        }
    }
}

/// Whether the word of a line is stored as its spelling says: a line that
/// is an entry for a word of ASCII characters stores it under its spelling
/// in lower case.
pub open spec fn folds_to_lowercase(line: Seq<char>) -> bool {
    !is_comment(line) ==> (entry_of(line) matches Some((word, _)) ==> (is_ascii_word(word)
        ==> folded(word) == ascii_lowercase(word)))
}

/// The table of a corpus.
pub open spec fn table_of(corpus: Seq<char>) -> Option<Map<Seq<char>, Seq<char>>> {
    load(Map::empty(), lines_of(corpus))
}

/// What a map of strings holds, as plain sequences.
pub open spec fn plain(map: Map<Seq<char>, String>) -> Map<Seq<char>, Seq<char>> {
    map.map_values(|symbols: String| symbols@)
}

/// Where the first two spaces in a row stand between `from` and `to`, if
/// there are any.
fn find_gap(chars: &Vec<char>, from: usize, to: usize) -> (r: Option<usize>)
    requires
        from <= to <= chars.len(),
    ensures
        match r {
            Some(at) => from <= at && at + 2 <= to && gap(
                chars@.subrange(from as int, to as int),
            ) == at - from,
            None => entry_of(chars@.subrange(from as int, to as int)) is None,
        },
{
    let ghost line = chars@.subrange(from as int, to as int);
    let mut at: usize = from;
    while to - at > 1
        invariant
            from <= at <= to <= chars.len(),
            line == chars@.subrange(from as int, to as int),
            gap(line) == (at - from) + gap(chars@.subrange(at as int, to as int)),
        decreases to - at,
    {
        if chars[at] == ' ' && chars[at + 1] == ' ' {
            return Some(at);
        }
        proof {
            assert(chars@.subrange(at as int, to as int).skip(1) =~= chars@.subrange(
                at + 1,
                to as int,
            ));
        }
        at = at + 1;
    }
    None
}

/// A pronouncing dictionary: for each word, folded in case, the symbols of
/// its pronunciation.
pub struct Dictionary {
    map: StringHashMap<String>,
}

impl View for Dictionary {
    type V = Map<Seq<char>, Seq<char>>;

    closed spec fn view(&self) -> Map<Seq<char>, Seq<char>> {
        plain(self.map@)
    }
}

impl Dictionary {
    /// The symbols that the dictionary has for a word, whatever its case.
    pub open spec fn entry(&self, word: Seq<char>) -> Option<Seq<char>> {
        if self@.contains_key(folded(word)) {
            Some(self@[folded(word)])
        } else {
            None
        }
    }

    /// Reads a corpus. `None` if a line that is no comment lacks the two
    /// spaces between word and symbols.
    ///
    /// Each word is stored under its spelling with the case folded, which
    /// for a word of ASCII characters is its spelling in lower case.
    pub fn parse(txt: &str) -> (r: Option<Dictionary>)
        ensures
            table_of(txt@) == match r {
                Some(dictionary) => Some(dictionary@),
                None => None,
            },
            r is Some ==> forall|i: int|
                0 <= i < lines_of(txt@).len() ==> folds_to_lowercase(#[trigger] lines_of(txt@)[i]),
    {
        let chars = chars_of(txt);
        let mut map: StringHashMap<String> = StringHashMap::new();
        let mut from: usize = 0;
        let ghost mut done: Seq<Seq<char>> = Seq::empty();
        proof {
            assert(chars@.skip(0) =~= chars@);
            assert(plain(map@) =~= Map::empty());
            assert(done + lines_of(chars@) =~= lines_of(chars@));
        }
        while from < chars.len()
            invariant
                from <= chars.len(),
                chars@ == txt@,
                load(plain(map@), lines_of(chars@.skip(from as int))) == table_of(txt@),
                done + lines_of(chars@.skip(from as int)) == lines_of(chars@),
                forall|i: int| 0 <= i < done.len() ==> folds_to_lowercase(#[trigger] done[i]),
            decreases chars.len() - from,
        {
            let (end, next) = next_line(&chars, from);
            let ghost line = chars@.subrange(from as int, end as int);
            proof {
                let lines = lines_of(chars@.skip(from as int));
                assert(lines.skip(1) =~= lines_of(chars@.skip(next as int)));
                assert(done.push(line) + lines_of(chars@.skip(next as int)) =~= done + lines);
            }
            let comment = end - from >= 3 && chars[from] == ';' && chars[from + 1] == ';'
                && chars[from + 2] == ';';
            if !comment {
                match find_gap(&chars, from, end) {
                    Some(at) => {
                        let word = string_of(&chars, from, at);
                        let symbols = string_of(&chars, at + 2, end);
                        let key = fold_case(word.as_str());
                        proof {
                            assert(line.take(at - from) =~= word@);
                            assert(line.skip(at - from + 2) =~= symbols@);
                            assert(plain(map@.insert(key@, symbols)) =~= plain(map@).insert(
                                key@,
                                symbols@,
                            ));
                        }
                        map.insert(key, symbols);
                    },
                    None => {
                        return None;
                    },
                }
            }
            proof {
                done = done.push(line);
            }
            from = next;
        }
        proof {
            assert(chars@.skip(from as int).len() == 0);
            assert(done =~= lines_of(chars@));
        }
        Some(Dictionary { map })
    }

    /// Looks a word up, whatever its case: the word is found under its
    /// spelling with the case folded, which for a word of ASCII characters
    /// is its spelling in lower case. `None` if the dictionary does not hold
    /// the word.
    pub fn look_up(&self, word: &str) -> (r: Option<Pronunciation>)
        ensures
            self.entry(word@) == match r {
                Some(found) => Some(found@),
                None => None,
            },
            is_ascii_word(word@) ==> folded(word@) == ascii_lowercase(word@),
    {
        let key = fold_case(word);
        match self.map.get(key.as_str()) {
            Some(symbols) => Some(Pronunciation { symbols: symbols.clone() }),
            None => None,
        }
    }
}

/// Whether a line of the corpus is an entry for the word with the folded
/// spelling `key`.
pub open spec fn is_entry_for(line: Seq<char>, key: Seq<char>) -> bool {
    &&& !is_comment(line)
    &&& entry_of(line) matches Some((word, _))
    &&& folded(word) == key
}

/// Whether one of the lines is an entry for the word with the folded
/// spelling `key`.
pub open spec fn has_entry_for(lines: Seq<Seq<char>>, key: Seq<char>) -> bool {
    exists|i: int| 0 <= i < lines.len() && is_entry_for(#[trigger] lines[i], key)
}

/// A loaded table holds a word if and only if the table held it before, or
/// one of the lines is an entry for it.
pub proof fn lemma_load_contains(
    table: Map<Seq<char>, Seq<char>>,
    lines: Seq<Seq<char>>,
    key: Seq<char>,
)
    requires
        load(table, lines) is Some,
    ensures
        load(table, lines).unwrap().contains_key(key) <==> table.contains_key(key)
            || has_entry_for(lines, key),
    decreases lines.len(),
{
    if lines.len() > 0 {
        let rest = lines.skip(1);
        let next = if is_comment(lines[0]) {
            table
        } else {
            let (word, symbols) = entry_of(lines[0]).unwrap();
            table.insert(folded(word), symbols)
        };
        lemma_load_contains(next, rest, key);
        if has_entry_for(rest, key) {
            let i = choose|i: int| 0 <= i < rest.len() && is_entry_for(#[trigger] rest[i], key);
            assert(is_entry_for(lines[i + 1], key));
        }
        if has_entry_for(lines, key) {
            let i = choose|i: int| 0 <= i < lines.len() && is_entry_for(#[trigger] lines[i], key);
            if i > 0 {
                assert(is_entry_for(rest[i - 1], key));
            }
        }
    }
}

/// A loaded table has for a word the symbols of the last line that is an
/// entry for it.
pub proof fn lemma_load_last(
    table: Map<Seq<char>, Seq<char>>,
    lines: Seq<Seq<char>>,
    key: Seq<char>,
    last: int,
)
    requires
        load(table, lines) is Some,
        0 <= last < lines.len(),
        is_entry_for(lines[last], key),
        forall|i: int| last < i < lines.len() ==> !is_entry_for(#[trigger] lines[i], key),
    ensures
        load(table, lines).unwrap().contains_key(key),
        load(table, lines).unwrap()[key] == entry_of(lines[last]).unwrap().1,
    decreases lines.len(),
{
    let rest = lines.skip(1);
    let next = if is_comment(lines[0]) {
        table
    } else {
        let (word, symbols) = entry_of(lines[0]).unwrap();
        table.insert(folded(word), symbols)
    };
    if last > 0 {
        assert forall|i: int| last - 1 < i < rest.len() implies !is_entry_for(
            #[trigger] rest[i],
            key,
        ) by {
            assert(rest[i] == lines[i + 1]);
        }
        lemma_load_last(next, rest, key, last - 1);
    } else {
        assert forall|i: int| 0 <= i < rest.len() implies !is_entry_for(#[trigger] rest[i], key) by {
            assert(rest[i] == lines[i + 1]);
        }
        lemma_load_keeps(next, rest, key);
    }
}

/// Lines without an entry for a word leave what the table has for it.
proof fn lemma_load_keeps(
    table: Map<Seq<char>, Seq<char>>,
    lines: Seq<Seq<char>>,
    key: Seq<char>,
)
    requires
        load(table, lines) is Some,
        forall|i: int| 0 <= i < lines.len() ==> !is_entry_for(#[trigger] lines[i], key),
    ensures
        load(table, lines).unwrap().contains_key(key) == table.contains_key(key),
        table.contains_key(key) ==> load(table, lines).unwrap()[key] == table[key],
    decreases lines.len(),
{
    if lines.len() > 0 {
        let rest = lines.skip(1);
        let next = if is_comment(lines[0]) {
            table
        } else {
            let (word, symbols) = entry_of(lines[0]).unwrap();
            table.insert(folded(word), symbols)
        };
        assert(!is_entry_for(lines[0], key));
        assert forall|i: int| 0 <= i < rest.len() implies !is_entry_for(#[trigger] rest[i], key) by {
            assert(rest[i] == lines[i + 1]);
        }
        lemma_load_keeps(next, rest, key);
    }
}

impl Dictionary {
    /// Words with the same spelling once their case is folded have the same
    /// entry: a word is found whatever its case.
    pub proof fn lemma_case_insensitive(&self, a: Seq<char>, b: Seq<char>)
        requires
            folded(a) == folded(b),
        ensures
            self.entry(a) == self.entry(b),
    {
    }

    /// The dictionary of a corpus has an entry for a word if and only if a
    /// line of the corpus is an entry for it, whatever its case. A word that
    /// the corpus does not hold has none.
    pub proof fn lemma_entry_in_corpus(&self, corpus: Seq<char>, word: Seq<char>)
        requires
            table_of(corpus) == Some(self@),
        ensures
            self.entry(word) is Some <==> has_entry_for(lines_of(corpus), folded(word)),
    {
        lemma_load_contains(Map::empty(), lines_of(corpus), folded(word));
    }
}

} // verus!
