//! What holds of every conversion: how stops are written at the start of a
//! word and inside it, how glides merge with their vowels, and how a word
//! boundary parts a text into words that are converted on their own.

use crate::hangul_builder::{Consonant, Position, State, Vowel};
use crate::ipa_to_hangul::{
    fuses, glide_vowel, hangul_of, jamo_of, lemma_run_tidy, lookahead, phoneme_of,
    round_vowel, run, step, Phoneme,
};
use crate::jamo::{compose, is_tail, lead_of, lemma_compose_concat, lemma_compose_first};
use vstd::prelude::*;

verus! {

/// Reading a text that begins with `first` is one step for `first`, then
/// reading the rest, without the symbol that `first` took with it.
proof fn lemma_run_first(s: State, first: char, rest: Seq<char>)
    ensures
        run(s, seq![first] + rest) == run(
            step(s, phoneme_of(first), lookahead(seq![first] + rest)),
            if fuses(phoneme_of(first), lookahead(seq![first] + rest)) {
                rest.skip(1)
            } else {
                rest
            },
        ),
{
    let input = seq![first] + rest;
    assert(input.skip(1) =~= rest);
    if rest.len() > 0 {
        assert(input.skip(2) =~= rest.skip(1));
    } else {
        assert(lookahead(input) is None);
    }
}

/// The letter that a stop is written with at the start of a word: the
/// tense letter for a voiceless stop, the plain letter for a voiced one.
pub open spec fn initial_letter(p: Phoneme) -> Consonant {
    match p {
        Phoneme::K => Consonant::Gg,
        Phoneme::T => Consonant::Dd,
        Phoneme::P => Consonant::Bb,
        Phoneme::G => Consonant::G,
        Phoneme::D => Consonant::D,
        _ => Consonant::B,
    }
}

/// The letter that a stop is written with inside a word: the aspirated
/// letter for a voiceless stop, the plain letter for a voiced one.
pub open spec fn medial_letter(p: Phoneme) -> Consonant {
    match p {
        Phoneme::K => Consonant::K,
        Phoneme::T => Consonant::T,
        Phoneme::P => Consonant::P,
        Phoneme::G => Consonant::G,
        Phoneme::D => Consonant::D,
        _ => Consonant::B,
    }
}

/// Whether a phoneme is a stop, and `next` does not make an affricate of it.
pub open spec fn is_plain_stop(p: Phoneme, next: Option<Phoneme>) -> bool {
    match p {
        Phoneme::K | Phoneme::P | Phoneme::B | Phoneme::G => true,
        Phoneme::T => next != Some(Phoneme::Sh),
        Phoneme::D => next != Some(Phoneme::Zh),
        _ => false,
    }
}

/// A stop is written by its place in the word: with its initial letter where
/// a word starts, with its medial letter everywhere else.
pub proof fn lemma_stop_by_place(s: State, p: Phoneme, next: Option<Phoneme>)
    requires
        is_plain_stop(p, next),
    ensures
        !fuses(p, next),
        step(s, p, next) == s.push_consonant(
            if s.is_start_of_word() {
                initial_letter(p)
            } else {
                medial_letter(p)
            },
        ),
{
    reveal(step);
}

/// A phoneme only adds to the text.
proof fn lemma_step_extends(s: State, p: Phoneme, next: Option<Phoneme>)
    ensures
        s.text.is_prefix_of(step(s, p, next).text),
{
    reveal(step);
    let initial = Position::InitialConsonant;
    let last = Position::FinalConsonant;
    s.lemma_advance_to_extends(initial);
    s.lemma_advance_to_extends(last);
    s.lemma_push_space_extends();
    assert forall|cons: Consonant| s.text.is_prefix_of(#[trigger] s.push_consonant(cons).text) by {
        s.lemma_push_consonant_extends(cons);
    }
    assert forall|vowel: Vowel| s.text.is_prefix_of(#[trigger] s.push_vowel(vowel).text) by {
        s.lemma_push_vowel_extends(vowel);
    }
    s.advance_to(initial).lemma_push_consonant_extends(Consonant::S);
    s.advance_to(last).lemma_push_consonant_extends(Consonant::Ng);
    s.advance_to(last).lemma_push_consonant_extends(Consonant::T);
    s.advance_to(last).push_consonant(Consonant::T).lemma_push_consonant_extends(Consonant::S);
    s.push_consonant(Consonant::S).lemma_push_vowel_extends(Vowel::I);
}

/// Reading a text only adds to what is written.
pub proof fn lemma_run_extends(s: State, input: Seq<char>)
    ensures
        s.text.is_prefix_of(run(s, input).text),
    decreases input.len(),
{
    if input.len() > 0 {
        let p = phoneme_of(input[0]);
        let next = lookahead(input);
        lemma_step_extends(s, p, next);
        lemma_run_extends(step(s, p, next), input.skip(if fuses(p, next) { 2 } else { 1 }));
    }
}

/// A text that starts with a stop is written with the initial letter of that
/// stop first: the first syllable block of the Hangul text begins with it.
pub proof fn lemma_stop_at_start_of_input(first: char, rest: Seq<char>)
    requires
        is_plain_stop(phoneme_of(first), lookahead(seq![first] + rest)),
    ensures
        run(State::start(), seq![first] + rest) == run(
            State::start().push_consonant(initial_letter(phoneme_of(first))),
            rest,
        ),
        hangul_of(seq![first] + rest).len() > 0,
        lead_of(hangul_of(seq![first] + rest)[0]) == initial_letter(phoneme_of(first)).lead(),
{
    let input = seq![first] + rest;
    let p = phoneme_of(first);
    let letter = initial_letter(p);
    let begun = State::start().push_consonant(letter);
    let read = run(begun, rest);
    lemma_run_first(State::start(), first, rest);
    lemma_stop_by_place(State::start(), p, lookahead(input));
    assert(begun.text =~= seq![letter.lead()]) by {
        reveal(State::push_consonant);
    }
    lemma_run_extends(begun, rest);
    read.lemma_finish_syllable_extends();
    State::lemma_start_well_formed();
    lemma_run_tidy(State::start(), input);
    read.lemma_finish_syllable_complete();
    let closed = read.finish_syllable();
    assert(read.text[0] == begun.text.subrange(0, 1)[0]);
    assert(closed.text[0] == read.text.subrange(0, read.text.len() as int)[0]);
    assert(jamo_of(input)[0] == letter.lead());
    lemma_compose_first(jamo_of(input));
}

/// A palatal glide takes the low front vowel after it with it, and the two
/// are written as the one vowel ㅒ.
pub proof fn lemma_glide_fusion(s: State, glide: char, vowel: char, rest: Seq<char>)
    requires
        phoneme_of(glide) == Phoneme::Palatal,
        phoneme_of(vowel) == Phoneme::Ae,
    ensures
        run(s, seq![glide, vowel] + rest) == run(s.push_vowel(Vowel::Yae), rest),
{
    reveal(step);
    let tail = seq![vowel] + rest;
    assert(seq![glide, vowel] + rest =~= seq![glide] + tail);
    lemma_run_first(s, glide, tail);
    assert(tail.skip(1) =~= rest);
}

/// Every glide that finds its vowel after it is written, with that vowel, as
/// one vowel.
pub proof fn lemma_glides_merge(s: State, p: Phoneme, next: Option<Phoneme>)
    requires
        p == Phoneme::Palatal || p == Phoneme::Labial,
        fuses(p, next),
    ensures
        step(s, p, next) == s.push_vowel(
            if p == Phoneme::Palatal {
                glide_vowel(next).unwrap()
            } else {
                round_vowel(next).unwrap()
            },
        ),
{
    reveal(step);
}

/// Whether a phoneme is written the same way before `next` as at the end of
/// the input, and leaves `next` to be read on its own.
pub open spec fn is_closed_before(p: Phoneme, next: Phoneme) -> bool {
    &&& p != Phoneme::R
    &&& p != Phoneme::Labial
    &&& next == Phoneme::Boundary || next == Phoneme::Unknown || next == Phoneme::Mark
}

/// A phoneme that is closed before the next one is written as at the end of
/// the input.
proof fn lemma_step_closed(s: State, p: Phoneme, next: Phoneme)
    requires
        is_closed_before(p, next),
    ensures
        step(s, p, Some(next)) == step(s, p, None),
        !fuses(p, Some(next)),
        !fuses(p, None),
{
    reveal(step);
}

/// Reading two texts in a row is reading the first to its end and going on
/// with the second, where the first ends in a symbol that is closed before
/// the second.
pub proof fn lemma_run_concat(s: State, a: Seq<char>, b: Seq<char>)
    requires
        a.len() > 0 && b.len() > 0 ==> is_closed_before(phoneme_of(a.last()), phoneme_of(b[0])),
    ensures
        run(s, a + b) == run(run(s, a), b),
    decreases a.len(),
{
    let ab = a + b;
    if a.len() == 0 {
        assert(ab =~= b);
    } else if b.len() == 0 {
        assert(ab =~= a);
    } else {
        let p = phoneme_of(a[0]);
        if a.len() == 1 {
            lemma_step_closed(s, p, phoneme_of(b[0]));
            assert(ab.skip(1) =~= b);
            assert(lookahead(ab) == Some(phoneme_of(b[0])));
            assert(lookahead(a) is None);
            assert(run(step(s, p, None), a.skip(1)) == step(s, p, None));
            assert(run(s, a) == step(s, p, None));
            assert(run(s, ab) == run(step(s, p, None), b));
        } else {
            let next = lookahead(a);
            assert(lookahead(ab) == next);
            let k: int = if fuses(p, next) {
                2
            } else {
                1
            };
            assert(ab.skip(k) =~= a.skip(k) + b);
            if a.skip(k).len() > 0 {
                assert(a.skip(k).last() == a.last());
            }
            lemma_run_concat(step(s, p, next), a.skip(k), b);
        }
    }
}

/// A phoneme is written as if the prefix were not there, where the prefix
/// ends a word.
proof fn lemma_step_shifted(s: State, prefix: Seq<char>, p: Phoneme, next: Option<Phoneme>)
    requires
        prefix.len() == 0 || prefix.last() == ' ',
    ensures
        step(s.shifted(prefix), p, next) == step(s, p, next).shifted(prefix),
{
    reveal(step);
    s.lemma_shifted_start_of_word(prefix);
    let initial = s.is_start_of_word();
    match p {
        Phoneme::N => s.lemma_shifted_push_consonant(prefix, Consonant::N),
        Phoneme::OpenBack => s.lemma_shifted_push_vowel(prefix, Vowel::Eo),
        Phoneme::K => s.lemma_shifted_push_consonant(
            prefix,
            if initial {
                Consonant::Gg
            } else {
                Consonant::K
            },
        ),
        Phoneme::T => s.lemma_shifted_push_consonant(
            prefix,
            if next == Some(Phoneme::Sh) {
                Consonant::Ch
            } else if initial {
                Consonant::Dd
            } else {
                Consonant::T
            },
        ),
        Phoneme::P => s.lemma_shifted_push_consonant(
            prefix,
            if initial {
                Consonant::Bb
            } else {
                Consonant::P
            },
        ),
        Phoneme::B => s.lemma_shifted_push_consonant(prefix, Consonant::B),
        Phoneme::G => s.lemma_shifted_push_consonant(prefix, Consonant::G),
        Phoneme::D => s.lemma_shifted_push_consonant(
            prefix,
            if next == Some(Phoneme::Zh) {
                Consonant::J
            } else {
                Consonant::D
            },
        ),
        Phoneme::Dental => s.lemma_shifted_push_consonant(prefix, Consonant::D),
        Phoneme::L => s.lemma_shifted_push_consonant(prefix, Consonant::L),
        Phoneme::R => s.lemma_shifted_push_consonant(prefix, Consonant::L),
        Phoneme::Schwa => s.lemma_shifted_push_vowel(prefix, Vowel::Eu),
        Phoneme::A => s.lemma_shifted_push_vowel(prefix, Vowel::A),
        Phoneme::U => s.lemma_shifted_push_vowel(prefix, Vowel::U),
        Phoneme::Sibilant => {
            s.lemma_shifted_advance_to(prefix, Position::InitialConsonant);
            s.advance_to(
                Position::InitialConsonant,
            ).lemma_shifted_push_consonant(prefix, Consonant::S);
        },
        Phoneme::H => s.lemma_shifted_push_consonant(prefix, Consonant::H),
        Phoneme::M => s.lemma_shifted_push_consonant(prefix, Consonant::M),
        Phoneme::Palatal => s.lemma_shifted_push_vowel(
            prefix,
            match glide_vowel(next) {
                Some(v) => v,
                None => Vowel::I,
            },
        ),
        Phoneme::F => s.lemma_shifted_push_consonant(prefix, Consonant::P),
        Phoneme::O => s.lemma_shifted_push_vowel(prefix, Vowel::O),
        Phoneme::Ng => {
            s.lemma_shifted_advance_to(prefix, Position::FinalConsonant);
            s.advance_to(
                Position::FinalConsonant,
            ).lemma_shifted_push_consonant(prefix, Consonant::Ng);
        },
        Phoneme::Sh | Phoneme::Zh => {
            s.lemma_shifted_push_consonant(prefix, Consonant::S);
            s.push_consonant(Consonant::S).lemma_shifted_push_vowel(prefix, Vowel::I);
        },
        Phoneme::Labial => match round_vowel(next) {
            Some(v) => s.lemma_shifted_push_vowel(prefix, v),
            None => {
                s.lemma_shifted_push_vowel(prefix, Vowel::U);
                s.lemma_shifted_push_consonant(prefix, Consonant::B);
            },
        },
        Phoneme::E => s.lemma_shifted_push_vowel(prefix, Vowel::E),
        Phoneme::Ae => s.lemma_shifted_push_vowel(prefix, Vowel::Ae),
        Phoneme::Ts => {
            let t = s.advance_to(Position::FinalConsonant);
            s.lemma_shifted_advance_to(prefix, Position::FinalConsonant);
            t.lemma_shifted_push_consonant(prefix, Consonant::T);
            t.push_consonant(Consonant::T).lemma_shifted_push_consonant(prefix, Consonant::S);
        },
        Phoneme::Mark => {},
        Phoneme::Boundary => s.lemma_shifted_push_space(prefix),
        Phoneme::Unknown => {},
    }
}

/// A text is read as if the prefix were not there, where the prefix ends a
/// word.
pub proof fn lemma_run_shifted(s: State, prefix: Seq<char>, input: Seq<char>)
    requires
        prefix.len() == 0 || prefix.last() == ' ',
    ensures
        run(s.shifted(prefix), input) == run(s, input).shifted(prefix),
    decreases input.len(),
{
    if input.len() > 0 {
        let p = phoneme_of(input[0]);
        let next = lookahead(input);
        lemma_step_shifted(s, prefix, p, next);
        lemma_run_shifted(step(s, p, next), prefix, input.skip(if fuses(p, next) { 2 } else { 1 }));
    }
}

/// The jamo of two texts with a word boundary between them are the jamo of
/// the first, a space, and the jamo of the second.
proof fn lemma_boundary_jamo(a: Seq<char>, b: Seq<char>)
    requires
        a.len() > 0 ==> is_closed_before(phoneme_of(a.last()), Phoneme::Boundary),
    ensures
        jamo_of(a + seq!['|'] + b) == jamo_of(a) + seq![' '] + jamo_of(b),
        crate::jamo::is_complete(jamo_of(a)),
{
    reveal(step);
    let start = State::start();
    let tail = seq!['|'] + b;
    let read = run(start, a);
    let prefix = jamo_of(a).push(' ');
    State::lemma_start_well_formed();
    lemma_run_tidy(start, a);
    read.lemma_finish_syllable_complete();
    assert(a + seq!['|'] + b =~= a + tail);
    lemma_run_concat(start, a, tail);
    lemma_run_first(read, '|', b);
    read.lemma_push_space_restarts();
    lemma_run_shifted(start, prefix, b);
    run(start, b).lemma_shifted_finish_syllable(prefix);
    assert(prefix + jamo_of(b) =~= jamo_of(a) + seq![' '] + jamo_of(b));
}

/// Composition leaves a space as it is and goes on behind it.
proof fn lemma_compose_space(s: Seq<char>)
    ensures
        compose(seq![' '] + s) == seq![' '] + compose(s),
{
    let t = seq![' '] + s;
    assert(t.skip(1) =~= s);
}

/// A word boundary parts a text into two that are converted on their own:
/// the Hangul text for `a|b` is that for `a`, a space, and that for `b`.
///
/// This holds where `a` does not end in r or ɹ, w or v: these are written
/// one way before another symbol and another way at the end of the input.
pub proof fn lemma_boundary_splits(a: Seq<char>, b: Seq<char>)
    requires
        a.len() > 0 ==> is_closed_before(phoneme_of(a.last()), Phoneme::Boundary),
    ensures
        hangul_of(a + seq!['|'] + b) == hangul_of(a) + seq![' '] + hangul_of(b),
{
    lemma_boundary_jamo(a, b);
    let right = seq![' '] + jamo_of(b);
    assert(!is_tail(right[0]));
    lemma_compose_concat(jamo_of(a), right);
    lemma_compose_space(jamo_of(b));
    assert(jamo_of(a) + seq![' '] + jamo_of(b) =~= jamo_of(a) + right);
    assert(hangul_of(a) + seq![' '] + hangul_of(b) =~= compose(jamo_of(a)) + (seq![' ']
        + compose(jamo_of(b))));
}

/// The same with a space on either side of the boundary, as in `a | b`: the
/// spaces are not written.
pub proof fn lemma_spaced_boundary_splits(a: Seq<char>, b: Seq<char>)
    requires
        a.len() > 0 ==> is_closed_before(phoneme_of(a.last()), Phoneme::Boundary),
    ensures
        hangul_of(a + seq![' ', '|', ' '] + b) == hangul_of(a) + seq![' '] + hangul_of(b),
{
    reveal(step);
    let start = State::start();
    let read = run(start, a);
    let after_bar = seq![' '] + b;
    let after_space = seq!['|'] + after_bar;
    let tail = seq![' '] + after_space;
    assert(a + seq![' ', '|', ' '] + b =~= a + tail);
    lemma_run_concat(start, a, tail);
    lemma_run_first(read, ' ', after_space);
    lemma_run_first(read, '|', after_bar);
    lemma_run_first(read.push_space(), ' ', b);
    // The two spaces are skipped, so the text reads as `a|b` does.
    let plain = seq!['|'] + b;
    assert(a + seq!['|'] + b =~= a + plain);
    lemma_run_concat(start, a, plain);
    lemma_run_first(read, '|', b);
    assert(run(start, a + seq![' ', '|', ' '] + b) == run(start, a + seq!['|'] + b));
    lemma_boundary_splits(a, b);
}

} // verus!
