//! Writes phonetic (IPA) text in Hangul.
//!
//! The text is read symbol by symbol, with one symbol of lookahead. Each
//! symbol is first classified as a [`Phoneme`]; the phoneme, the one after it
//! and the place in the word then decide which consonants and vowels go into
//! the [`Builder`].

use crate::hangul_builder::{Builder, Consonant, Position, State, Vowel};
use crate::jamo::{compose, is_block_text, nfc_of};
use crate::text::chars_of;
use vstd::prelude::*;

verus! {

/// The sounds that the conversion tells apart. Symbols that are written
/// alike share a phoneme.
#[derive(Copy, Clone, Debug, PartialEq, Eq)]
pub enum Phoneme {
    /// n
    N,
    /// ʌ ɔ ɒ ɑ
    OpenBack,
    /// k
    K,
    /// t
    T,
    /// p
    P,
    /// b
    B,
    /// g ɡ
    G,
    /// d
    D,
    /// ð θ
    Dental,
    /// l
    L,
    /// r ɹ
    R,
    /// ə ɜ ɝ
    Schwa,
    /// a ɐ
    A,
    /// ʊ u
    U,
    /// s z
    Sibilant,
    /// h
    H,
    /// m
    M,
    /// j ɪ y i
    Palatal,
    /// f
    F,
    /// o
    O,
    /// ŋ
    Ng,
    /// ʃ
    Sh,
    /// ʒ
    Zh,
    /// w v
    Labial,
    /// e
    E,
    /// ɛ æ
    Ae,
    /// ʦ
    Ts,
    /// The stress and length marks ˈ ː ' ˌ, which are not written.
    Mark,
    /// The word boundary |.
    Boundary,
    /// Any other symbol.
    Unknown,
}

/// The phoneme that a symbol stands for.
pub open spec fn phoneme_of(c: char) -> Phoneme {
    if c == 'n' {
        Phoneme::N
    } else if c == 'ʌ' || c == 'ɔ' || c == 'ɒ' || c == 'ɑ' {
        Phoneme::OpenBack
    } else if c == 'k' {
        Phoneme::K
    } else if c == 't' {
        Phoneme::T
    } else if c == 'p' {
        Phoneme::P
    } else if c == 'b' {
        Phoneme::B
    } else if c == 'g' || c == 'ɡ' {
        Phoneme::G
    } else if c == 'd' {
        Phoneme::D
    } else if c == 'ð' || c == 'θ' {
        Phoneme::Dental
    } else if c == 'l' {
        Phoneme::L
    } else if c == 'r' || c == 'ɹ' {
        Phoneme::R
    } else if c == 'ə' || c == 'ɜ' || c == 'ɝ' {
        Phoneme::Schwa
    } else if c == 'a' || c == 'ɐ' {
        Phoneme::A
    } else if c == 'ʊ' || c == 'u' {
        Phoneme::U
    } else if c == 's' || c == 'z' {
        Phoneme::Sibilant
    } else if c == 'h' {
        Phoneme::H
    } else if c == 'm' {
        Phoneme::M
    } else if c == 'j' || c == 'ɪ' || c == 'y' || c == 'i' {
        Phoneme::Palatal
    } else if c == 'f' {
        Phoneme::F
    } else if c == 'o' {
        Phoneme::O
    } else if c == 'ŋ' {
        Phoneme::Ng
    } else if c == 'ʃ' {
        Phoneme::Sh
    } else if c == 'ʒ' {
        Phoneme::Zh
    } else if c == 'w' || c == 'v' {
        Phoneme::Labial
    } else if c == 'e' {
        Phoneme::E
    } else if c == 'ɛ' || c == 'æ' {
        Phoneme::Ae
    } else if c == 'ʦ' {
        Phoneme::Ts
    } else if c == 'ˈ' || c == 'ː' || c == '\'' || c == 'ˌ' {
        Phoneme::Mark
    } else if c == '|' {
        Phoneme::Boundary
    } else {
        Phoneme::Unknown
    }
}

/// Classifies a symbol.
pub fn classify(c: char) -> (p: Phoneme)
    ensures
        p == phoneme_of(c),
{
    match c {
        'n' => Phoneme::N,
        'ʌ' | 'ɔ' | 'ɒ' | 'ɑ' => Phoneme::OpenBack,
        'k' => Phoneme::K,
        't' => Phoneme::T,
        'p' => Phoneme::P,
        'b' => Phoneme::B,
        'g' | 'ɡ' => Phoneme::G,
        'd' => Phoneme::D,
        'ð' | 'θ' => Phoneme::Dental,
        'l' => Phoneme::L,
        'r' | 'ɹ' => Phoneme::R,
        'ə' | 'ɜ' | 'ɝ' => Phoneme::Schwa,
        'a' | 'ɐ' => Phoneme::A,
        'ʊ' | 'u' => Phoneme::U,
        's' | 'z' => Phoneme::Sibilant,
        'h' => Phoneme::H,
        'm' => Phoneme::M,
        'j' | 'ɪ' | 'y' | 'i' => Phoneme::Palatal,
        'f' => Phoneme::F,
        'o' => Phoneme::O,
        'ŋ' => Phoneme::Ng,
        'ʃ' => Phoneme::Sh,
        'ʒ' => Phoneme::Zh,
        'w' | 'v' => Phoneme::Labial,
        'e' => Phoneme::E,
        'ɛ' | 'æ' => Phoneme::Ae,
        'ʦ' => Phoneme::Ts,
        'ˈ' | 'ː' | '\'' | 'ˌ' => Phoneme::Mark,
        '|' => Phoneme::Boundary,
        _ => Phoneme::Unknown,
    }
}

/// The vowel that a palatal glide and the phoneme after it merge into.
pub open spec fn glide_vowel(next: Option<Phoneme>) -> Option<Vowel> {
    match next {
        Some(Phoneme::Ae) => Some(Vowel::Yae),
        Some(Phoneme::A) => Some(Vowel::Ya),
        Some(Phoneme::OpenBack) => Some(Vowel::Yeo),
        Some(Phoneme::E) => Some(Vowel::Ye),
        Some(Phoneme::O) => Some(Vowel::Yo),
        Some(Phoneme::U) => Some(Vowel::Yu),
        _ => None,
    }
}

/// The vowel that a labial glide and the phoneme after it merge into.
pub open spec fn round_vowel(next: Option<Phoneme>) -> Option<Vowel> {
    match next {
        Some(Phoneme::Palatal) => Some(Vowel::Wi),
        Some(Phoneme::Ae) => Some(Vowel::Wae),
        Some(Phoneme::A) => Some(Vowel::Wa),
        Some(Phoneme::O) => Some(Vowel::Wo),
        Some(Phoneme::OpenBack) => Some(Vowel::Wo),
        Some(Phoneme::E) => Some(Vowel::We),
        _ => None,
    }
}

/// Whether a phoneme takes the one after it with it: a stop with the
/// fricative that makes it an affricate, a glide with its vowel.
pub open spec fn fuses(p: Phoneme, next: Option<Phoneme>) -> bool {
    match p {
        Phoneme::T => next == Some(Phoneme::Sh),
        Phoneme::D => next == Some(Phoneme::Zh),
        Phoneme::Palatal => glide_vowel(next) is Some,
        Phoneme::Labial => round_vowel(next) is Some,
        _ => false,
    }
}

/// The state after a phoneme, given the one that follows it.
///
/// - Most consonants and vowels are written with one letter, whatever
///   stands around them.
/// - Voiceless stops are written by their place in the word: with the
///   tense letter at the start of a word, with the aspirated letter
///   everywhere else. Voiced stops are written with the plain letter.
/// - t before ʃ and d before ʒ are written, with the fricative, as one
///   affricate.
/// - A glide is written, with the vowel after it, as one vowel. Without such
///   a vowel the palatal glide is ㅣ, and the labial glide is ㅜ, or ㅂ at the
///   end of the input.
/// - s and z begin a syllable of their own, ŋ ends a syllable, and ʦ ends
///   one with ㅌ and begins the next with ㅅ.
/// - ʃ and ʒ are written as ㅅ and get the vowel ㅣ, unless a palatal glide
///   brings it.
/// - r and ɹ are written as ㄹ, but left out at the end of the input.
/// - Stress and length marks and unknown symbols are not written; the
///   boundary | ends the word.
#[verifier::opaque]
pub open spec fn step(s: State, p: Phoneme, next: Option<Phoneme>) -> State {
    let initial = s.is_start_of_word();
    match p {
        Phoneme::N => s.push_consonant(Consonant::N),
        Phoneme::OpenBack => s.push_vowel(Vowel::Eo),
        Phoneme::K => s.push_consonant(
            if initial {
                Consonant::Gg
            } else {
                Consonant::K
            },
        ),
        Phoneme::T => s.push_consonant(
            if next == Some(Phoneme::Sh) {
                Consonant::Ch
            } else if initial {
                Consonant::Dd
            } else {
                Consonant::T
            },
        ),
        Phoneme::P => s.push_consonant(
            if initial {
                Consonant::Bb
            } else {
                Consonant::P
            },
        ),
        Phoneme::B => s.push_consonant(Consonant::B),
        Phoneme::G => s.push_consonant(Consonant::G),
        Phoneme::D => s.push_consonant(
            if next == Some(Phoneme::Zh) {
                Consonant::J
            } else {
                Consonant::D
            },
        ),
        Phoneme::Dental => s.push_consonant(Consonant::D),
        Phoneme::L => s.push_consonant(Consonant::L),
        Phoneme::R => if next is Some {
            s.push_consonant(Consonant::L)
        } else {
            s
        },
        Phoneme::Schwa => s.push_vowel(Vowel::Eu),
        Phoneme::A => s.push_vowel(Vowel::A),
        Phoneme::U => s.push_vowel(Vowel::U),
        Phoneme::Sibilant => s.advance_to(Position::InitialConsonant).push_consonant(Consonant::S),
        Phoneme::H => s.push_consonant(Consonant::H),
        Phoneme::M => s.push_consonant(Consonant::M),
        Phoneme::Palatal => s.push_vowel(
            match glide_vowel(next) {
                Some(v) => v,
                None => Vowel::I,
            },
        ),
        Phoneme::F => s.push_consonant(Consonant::P),
        Phoneme::O => s.push_vowel(Vowel::O),
        Phoneme::Ng => s.advance_to(Position::FinalConsonant).push_consonant(Consonant::Ng),
        Phoneme::Sh | Phoneme::Zh => {
            let t = s.push_consonant(Consonant::S);
            if next == Some(Phoneme::Palatal) {
                t
            } else {
                t.push_vowel(Vowel::I)
            }
        },
        Phoneme::Labial => match round_vowel(next) {
            Some(v) => s.push_vowel(v),
            None => if next is Some {
                s.push_vowel(Vowel::U)
            } else {
                s.push_consonant(Consonant::B)
            },
        },
        Phoneme::E => s.push_vowel(Vowel::E),
        Phoneme::Ae => s.push_vowel(Vowel::Ae),
        Phoneme::Ts => s.advance_to(Position::FinalConsonant).push_consonant(
            Consonant::T,
        ).push_consonant(Consonant::S),
        Phoneme::Mark => s,
        Phoneme::Boundary => s.push_space(),
        Phoneme::Unknown => s,
    }
}

/// The phoneme after the first symbol of `input`, if there is one.
pub open spec fn lookahead(input: Seq<char>) -> Option<Phoneme> {
    if input.len() > 1 {
        Some(phoneme_of(input[1]))
    } else {
        None
    }
}

/// The state after all of `input`, read from the left.
pub open spec fn run(s: State, input: Seq<char>) -> State
    decreases input.len(),
{
    if input.len() == 0 {
        s
    } else {
        let p = phoneme_of(input[0]);
        let next = lookahead(input);
        run(
            step(s, p, next),
            input.skip(
                if fuses(p, next) {
                    2
                } else {
                    1
                },
            ),
        )
    }
}

/// The jamo that `input` is written with, before they are composed.
pub open spec fn jamo_of(input: Seq<char>) -> Seq<char> {
    run(State::start(), input).finish_syllable().text
}

/// The Hangul text for `input`.
pub open spec fn hangul_of(input: Seq<char>) -> Seq<char> {
    compose(jamo_of(input))
}

/// Whether a symbol is none that the conversion knows.
pub open spec fn is_unknown(c: char) -> bool {
    phoneme_of(c) == Phoneme::Unknown
}

/// The symbols of `input` that the conversion does not know, in order.
pub open spec fn unknown_symbols(input: Seq<char>) -> Seq<char> {
    input.filter(|c: char| is_unknown(c))
}

/// The state is well-formed and what it holds back can end a syllable: what
/// the conversion keeps true of its builder.
pub open spec fn is_tidy(s: State) -> bool {
    s.well_formed() && s.can_close()
}

/// A phoneme keeps a tidy state tidy.
pub proof fn lemma_step_tidy(s: State, p: Phoneme, next: Option<Phoneme>)
    requires
        is_tidy(s),
    ensures
        is_tidy(step(s, p, next)),
{
    reveal(step);
    let initial = s.is_start_of_word();
    if initial {
        s.lemma_start_of_word_settled();
    }
    match p {
        Phoneme::N => lemma_consonant_tidy(s, Consonant::N),
        Phoneme::OpenBack => s.lemma_push_vowel_well_formed(Vowel::Eo),
        Phoneme::K => lemma_consonant_tidy(s, if initial { Consonant::Gg } else { Consonant::K }),
        Phoneme::T => lemma_consonant_tidy(
            s,
            if next == Some(Phoneme::Sh) {
                Consonant::Ch
            } else if initial {
                Consonant::Dd
            } else {
                Consonant::T
            },
        ),
        Phoneme::P => lemma_consonant_tidy(s, if initial { Consonant::Bb } else { Consonant::P }),
        Phoneme::B => lemma_consonant_tidy(s, Consonant::B),
        Phoneme::G => lemma_consonant_tidy(s, Consonant::G),
        Phoneme::D => lemma_consonant_tidy(
            s,
            if next == Some(Phoneme::Zh) {
                Consonant::J
            } else {
                Consonant::D
            },
        ),
        Phoneme::Dental => lemma_consonant_tidy(s, Consonant::D),
        Phoneme::L => lemma_consonant_tidy(s, Consonant::L),
        Phoneme::R => if next is Some {
            lemma_consonant_tidy(s, Consonant::L)
        },
        Phoneme::Schwa => s.lemma_push_vowel_well_formed(Vowel::Eu),
        Phoneme::A => s.lemma_push_vowel_well_formed(Vowel::A),
        Phoneme::U => s.lemma_push_vowel_well_formed(Vowel::U),
        Phoneme::Sibilant => {
            s.lemma_advance_to_well_formed(Position::InitialConsonant);
            lemma_consonant_tidy(s.advance_to(Position::InitialConsonant), Consonant::S);
        },
        Phoneme::H => lemma_consonant_tidy(s, Consonant::H),
        Phoneme::M => lemma_consonant_tidy(s, Consonant::M),
        Phoneme::Palatal => s.lemma_push_vowel_well_formed(
            match glide_vowel(next) {
                Some(v) => v,
                None => Vowel::I,
            },
        ),
        Phoneme::F => lemma_consonant_tidy(s, Consonant::P),
        Phoneme::O => s.lemma_push_vowel_well_formed(Vowel::O),
        Phoneme::Ng => {
            s.lemma_advance_to_well_formed(Position::FinalConsonant);
            lemma_consonant_tidy(s.advance_to(Position::FinalConsonant), Consonant::Ng);
        },
        Phoneme::Sh | Phoneme::Zh => {
            lemma_consonant_tidy(s, Consonant::S);
            s.push_consonant(Consonant::S).lemma_push_vowel_well_formed(Vowel::I);
        },
        Phoneme::Labial => match round_vowel(next) {
            Some(v) => s.lemma_push_vowel_well_formed(v),
            None => if next is Some {
                s.lemma_push_vowel_well_formed(Vowel::U)
            } else {
                lemma_consonant_tidy(s, Consonant::B)
            },
        },
        Phoneme::E => s.lemma_push_vowel_well_formed(Vowel::E),
        Phoneme::Ae => s.lemma_push_vowel_well_formed(Vowel::Ae),
        Phoneme::Ts => {
            let t = s.advance_to(Position::FinalConsonant);
            s.lemma_advance_to_well_formed(Position::FinalConsonant);
            lemma_consonant_tidy(t, Consonant::T);
            lemma_consonant_tidy(t.push_consonant(Consonant::T), Consonant::S);
        },
        Phoneme::Mark => {},
        Phoneme::Boundary => s.lemma_push_space_well_formed(),
        Phoneme::Unknown => {},
    }
}

/// A consonant keeps a tidy state tidy if it can end a syllable, or if it
/// comes at the start of a word.
proof fn lemma_consonant_tidy(s: State, cons: Consonant)
    requires
        is_tidy(s),
        cons.tail() is Some || s.is_start_of_word(),
    ensures
        s.takes(cons),
        is_tidy(s.push_consonant(cons)),
{
    if s.is_start_of_word() {
        s.lemma_start_of_word_settled();
    }
    s.lemma_push_consonant_well_formed(cons);
    s.lemma_push_consonant_pending(cons);
}

/// Reading all of a text keeps a tidy state tidy.
pub proof fn lemma_run_tidy(s: State, input: Seq<char>)
    requires
        is_tidy(s),
    ensures
        is_tidy(run(s, input)),
    decreases input.len(),
{
    if input.len() > 0 {
        let p = phoneme_of(input[0]);
        let next = lookahead(input);
        lemma_step_tidy(s, p, next);
        lemma_run_tidy(step(s, p, next), input.skip(if fuses(p, next) { 2 } else { 1 }));
    }
}

/// Writes one phoneme into the builder, given the phoneme that follows it.
/// Returns whether the phoneme took the following one with it.
pub fn push_phoneme(builder: &mut Builder, p: Phoneme, next: Option<Phoneme>) -> (fused: bool)
    requires
        old(builder).wf(),
        is_tidy(old(builder)@),
    ensures
        final(builder).wf(),
        final(builder)@ == step(old(builder)@, p, next),
        is_tidy(final(builder)@),
        fused == fuses(p, next),
{
    proof {
        reveal(step);
        lemma_step_tidy(builder@, p, next);
        if builder@.is_start_of_word() {
            builder@.lemma_start_of_word_settled();
        }
    }
    match p {
        Phoneme::N => {
            builder.push_consonant(Consonant::N);
            false
        },
        Phoneme::OpenBack => {
            builder.push_vowel(Vowel::Eo);
            false
        },
        Phoneme::K => {
            let cons = if builder.is_start_of_word() {
                Consonant::Gg
            } else {
                Consonant::K
            };
            builder.push_consonant(cons);
            false
        },
        Phoneme::T => {
            if let Some(Phoneme::Sh) = next {
                builder.push_consonant(Consonant::Ch);
                true
            } else {
                let cons = if builder.is_start_of_word() {
                    Consonant::Dd
                } else {
                    Consonant::T
                };
                builder.push_consonant(cons);
                false
            }
        },
        Phoneme::P => {
            let cons = if builder.is_start_of_word() {
                Consonant::Bb
            } else {
                Consonant::P
            };
            builder.push_consonant(cons);
            false
        },
        Phoneme::B => {
            builder.push_consonant(Consonant::B);
            false
        },
        Phoneme::G => {
            builder.push_consonant(Consonant::G);
            false
        },
        Phoneme::D => {
            if let Some(Phoneme::Zh) = next {
                builder.push_consonant(Consonant::J);
                true
            } else {
                builder.push_consonant(Consonant::D);
                false
            }
        },
        Phoneme::Dental => {
            builder.push_consonant(Consonant::D);
            false
        },
        Phoneme::L => {
            builder.push_consonant(Consonant::L);
            false
        },
        Phoneme::R => {
            if next.is_some() {
                builder.push_consonant(Consonant::L);
            }
            false
        },
        Phoneme::Schwa => {
            builder.push_vowel(Vowel::Eu);
            false
        },
        Phoneme::A => {
            builder.push_vowel(Vowel::A);
            false
        },
        Phoneme::U => {
            builder.push_vowel(Vowel::U);
            false
        },
        Phoneme::Sibilant => {
            builder.advance_to(Position::InitialConsonant);
            builder.push_consonant(Consonant::S);
            false
        },
        Phoneme::H => {
            builder.push_consonant(Consonant::H);
            false
        },
        Phoneme::M => {
            builder.push_consonant(Consonant::M);
            false
        },
        Phoneme::Palatal => {
            let merged = match next {
                Some(Phoneme::Ae) => Some(Vowel::Yae),
                Some(Phoneme::A) => Some(Vowel::Ya),
                Some(Phoneme::OpenBack) => Some(Vowel::Yeo),
                Some(Phoneme::E) => Some(Vowel::Ye),
                Some(Phoneme::O) => Some(Vowel::Yo),
                Some(Phoneme::U) => Some(Vowel::Yu),
                _ => None,
            };
            match merged {
                Some(v) => {
                    builder.push_vowel(v);
                    true
                },
                None => {
                    builder.push_vowel(Vowel::I);
                    false
                },
            }
        },
        Phoneme::F => {
            builder.push_consonant(Consonant::P);
            false
        },
        Phoneme::O => {
            builder.push_vowel(Vowel::O);
            false
        },
        Phoneme::Ng => {
            builder.advance_to(Position::FinalConsonant);
            builder.push_consonant(Consonant::Ng);
            false
        },
        Phoneme::Sh | Phoneme::Zh => {
            builder.push_consonant(Consonant::S);
            if let Some(Phoneme::Palatal) = next {
            } else {
                builder.push_vowel(Vowel::I);
            }
            false
        },
        Phoneme::Labial => {
            let merged = match next {
                Some(Phoneme::Palatal) => Some(Vowel::Wi),
                Some(Phoneme::Ae) => Some(Vowel::Wae),
                Some(Phoneme::A) => Some(Vowel::Wa),
                Some(Phoneme::O) => Some(Vowel::Wo),
                Some(Phoneme::OpenBack) => Some(Vowel::Wo),
                Some(Phoneme::E) => Some(Vowel::We),
                _ => None,
            };
            match merged {
                Some(v) => {
                    builder.push_vowel(v);
                    true
                },
                None => {
                    if next.is_some() {
                        builder.push_vowel(Vowel::U);
                    } else {
                        builder.push_consonant(Consonant::B);
                    }
                    false
                },
            }
        },
        Phoneme::E => {
            builder.push_vowel(Vowel::E);
            false
        },
        Phoneme::Ae => {
            builder.push_vowel(Vowel::Ae);
            false
        },
        Phoneme::Ts => {
            builder.advance_to(Position::FinalConsonant);
            proof {
                let t = old(builder)@.advance_to(Position::FinalConsonant);
                old(builder)@.lemma_advance_to_well_formed(Position::FinalConsonant);
                lemma_consonant_tidy(t, Consonant::T);
            }
            builder.push_consonant(Consonant::T);
            builder.push_consonant(Consonant::S);
            false
        },
        Phoneme::Mark => false,
        Phoneme::Boundary => {
            builder.push_space();
            false
        },
        Phoneme::Unknown => false,
    }
}

/// What a conversion gives: the Hangul text, and the symbols that were left
/// out because the conversion does not know them.
pub struct Transcript {
    pub hangul: String,
    pub unknown: Vec<char>,
}

/// A symbol more brings its own unknown symbol, if it is one, and no other.
proof fn lemma_unknown_symbols_push(input: Seq<char>, c: char)
    ensures
        unknown_symbols(input.push(c)) == if is_unknown(c) {
            unknown_symbols(input).push(c)
        } else {
            unknown_symbols(input)
        },
{
    reveal(Seq::filter);
    assert(input.push(c).drop_last() =~= input);
}

/// Converts phonetic text to Hangul and reports the symbols it had to leave
/// out.
pub fn transcribe(phonetics: &str) -> (t: Transcript)
    ensures
        t.hangul@ == nfc_of(jamo_of(phonetics@)),
        t.hangul@ == hangul_of(phonetics@),
        t.unknown@ == unknown_symbols(phonetics@),
        is_block_text(t.hangul@),
        nfc_of(t.hangul@) == t.hangul@,
{
    let chars = chars_of(phonetics);
    let mut builder = Builder::new();
    let mut unknown: Vec<char> = Vec::new();
    let mut i: usize = 0;
    proof {
        State::lemma_start_well_formed();
        reveal(Seq::filter);
        assert(chars@.skip(0) =~= chars@);
    }
    while i < chars.len()
        invariant
            i <= chars.len(),
            builder.wf(),
            is_tidy(builder@),
            run(builder@, chars@.skip(i as int)) == run(State::start(), chars@),
            unknown@ == unknown_symbols(chars@.take(i as int)),
        decreases chars.len() - i,
    {
        let ghost rest = chars@.skip(i as int);
        let c = chars[i];
        let p = classify(c);
        let next = if i + 1 < chars.len() {
            Some(classify(chars[i + 1]))
        } else {
            None
        };
        proof {
            assert(rest[0] == c);
            assert(next == lookahead(rest));
            lemma_unknown_symbols_push(chars@.take(i as int), c);
            assert(chars@.take(i as int).push(c) =~= chars@.take(i + 1));
        }
        let fused = push_phoneme(&mut builder, p, next);
        if let Phoneme::Unknown = p {
            unknown.push(c);
        }
        if fused {
            proof {
                assert(rest.skip(2) =~= chars@.skip(i + 2));
                lemma_unknown_symbols_push(chars@.take(i + 1), chars[i + 1]);
                assert(chars@.take(i + 1).push(chars[i + 1]) =~= chars@.take(i + 2));
            }
            i = i + 2;
        } else {
            proof {
                assert(rest.skip(1) =~= chars@.skip(i + 1));
            }
            i = i + 1;
        }
    }
    proof {
        assert(chars@.take(i as int) =~= chars@);
    }
    let hangul = builder.finish();
    Transcript { hangul, unknown }
}

/// Converts phonetic text to Hangul. Symbols that the conversion does not
/// know are left out.
///
/// The result is the normalized form of the jamo that the text is written
/// with. It holds syllable blocks and spaces only, and normalizing it again
/// changes nothing.
pub fn convert(phonetics: &str) -> (hangul: String)
    ensures
        hangul@ == nfc_of(jamo_of(phonetics@)),
        hangul@ == hangul_of(phonetics@),
        is_block_text(hangul@),
        nfc_of(hangul@) == hangul@,
{
    transcribe(phonetics).hangul
}

} // verus!
