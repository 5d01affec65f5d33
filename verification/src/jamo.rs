//! Conjoining jamo, the syllable blocks they compose into, and the
//! normalization that performs the composition.
//!
//! Hangul text is assembled as a sequence of conjoining jamo: a leading
//! consonant, a vowel and an optional trailing consonant per syllable.
//! Canonical composition (NFC) then folds every such group into one
//! precomposed syllable block.

use unicode_normalization::UnicodeNormalization;
use vstd::prelude::*;

verus! {

/// A leading consonant (choseong): U+1100 to U+1112.
pub open spec fn is_lead(c: char) -> bool {
    0x1100 <= c as u32 <= 0x1112
}

/// A vowel (jungseong): U+1161 to U+1175.
pub open spec fn is_medial(c: char) -> bool {
    0x1161 <= c as u32 <= 0x1175
}

/// A trailing consonant (jongseong): U+11A8 to U+11C2.
pub open spec fn is_tail(c: char) -> bool {
    0x11A8 <= c as u32 <= 0x11C2
}

/// A precomposed syllable block: U+AC00 to U+D7A3.
pub open spec fn is_block(c: char) -> bool {
    0xAC00 <= c as u32 <= 0xD7A3
}

/// Text made of conjoining jamo and spaces only.
pub open spec fn is_jamo_text(s: Seq<char>) -> bool {
    forall|i: int|
        0 <= i < s.len() ==> is_lead(#[trigger] s[i]) || is_medial(s[i]) || is_tail(s[i]) || s[i]
            == ' '
}

/// Text made of precomposed syllable blocks and spaces only: no jamo stands
/// on its own.
pub open spec fn is_block_text(s: Seq<char>) -> bool {
    forall|i: int| 0 <= i < s.len() ==> is_block(#[trigger] s[i]) || s[i] == ' '
}

/// The syllable block for a leading consonant, a vowel and an optional
/// trailing consonant.
pub open spec fn block(lead: char, medial: char, tail: Option<char>) -> char {
    let l = lead as u32 - 0x1100;
    let v = medial as u32 - 0x1161;
    let t = match tail {
        Some(t) => t as u32 - 0x11A7,
        None => 0,
    };
    (0xAC00 + l * 588 + v * 28 + t) as char
}

/// Canonical composition of jamo text: reading from the left, a leading
/// consonant and the vowel after it become one block, which also takes in a
/// trailing consonant that follows directly. Everything else stays as it is.
pub open spec fn compose(s: Seq<char>) -> Seq<char>
    decreases s.len(),
{
    if s.len() == 0 {
        s
    } else if s.len() >= 2 && is_lead(s[0]) && is_medial(s[1]) {
        if s.len() >= 3 && is_tail(s[2]) {
            seq![block(s[0], s[1], Some(s[2]))] + compose(s.skip(3))
        } else {
            seq![block(s[0], s[1], None)] + compose(s.skip(2))
        }
    } else {
        seq![s[0]] + compose(s.skip(1))
    }
}

/// Jamo text in which every jamo belongs to a full syllable: a sequence of
/// spaces and of groups of a leading consonant, a vowel and at most one
/// trailing consonant.
pub open spec fn is_complete(s: Seq<char>) -> bool
    decreases s.len(),
{
    if s.len() == 0 {
        true
    } else if s[0] == ' ' {
        is_complete(s.skip(1))
    } else if s.len() >= 2 && is_lead(s[0]) && is_medial(s[1]) {
        if s.len() >= 3 && is_tail(s[2]) {
            is_complete(s.skip(3))
        } else {
            is_complete(s.skip(2))
        }
    } else {
        false
    }
}

/// Jamo text that ends in a syllable still open for a trailing consonant:
/// complete text followed by a leading consonant and a vowel.
pub open spec fn is_open(s: Seq<char>) -> bool {
    &&& s.len() >= 2
    &&& is_complete(s.take(s.len() - 2))
    &&& is_lead(s[s.len() - 2])
    &&& is_medial(s[s.len() - 1])
}

/// Jamo text that ends in a leading consonant waiting for its vowel.
pub open spec fn is_begun(s: Seq<char>) -> bool {
    &&& s.len() >= 1
    &&& is_complete(s.drop_last())
    &&& is_lead(s.last())
}

/// The Unicode Normalization Form C of a text.
pub uninterp spec fn nfc_of(s: Seq<char>) -> Seq<char>;

/// Normalizes jamo text to Form C with `unicode_normalization`'s `nfc`.
///
/// Trusted: the result is the Form C of the text; on text of conjoining jamo
/// and spaces it is the composition that [`compose`] describes (the crate
/// composes a leading consonant with a vowel, and the resulting block with a
/// trailing consonant, and nothing else among these characters); and Form C
/// is stable: normalizing the result again gives the result.
#[verifier::external_body]
pub(crate) fn nfc(text: &Vec<char>) -> (r: String)
    ensures
        r@ == nfc_of(text@),
        is_jamo_text(text@) ==> r@ == compose(text@),
        nfc_of(r@) == r@,
{
    text.iter().copied().nfc().collect()
}

/// A block is a block character.
pub proof fn lemma_block_is_block(lead: char, medial: char, tail: Option<char>)
    requires
        is_lead(lead),
        is_medial(medial),
        tail matches Some(t) ==> is_tail(t),
    ensures
        is_block(block(lead, medial, tail)),
{
}

/// A space, and a syllable of two or three jamo, are complete.
pub proof fn lemma_units_complete(lead: char, medial: char, tail: char)
    requires
        is_lead(lead),
        is_medial(medial),
        is_tail(tail),
    ensures
        is_complete(seq![' ']),
        is_complete(seq![lead, medial]),
        is_complete(seq![lead, medial, tail]),
{
    reveal_with_fuel(is_complete, 2);
    assert(seq![' '].skip(1).len() == 0);
    assert(seq![lead, medial].skip(2).len() == 0);
    assert(seq![lead, medial, tail].skip(3).len() == 0);
}

/// Complete text followed by complete text is complete.
pub proof fn lemma_complete_concat(a: Seq<char>, b: Seq<char>)
    requires
        is_complete(a),
        is_complete(b),
    ensures
        is_complete(a + b),
    decreases a.len(),
{
    let ab = a + b;
    if a.len() == 0 {
        assert(ab =~= b);
    } else if a[0] == ' ' {
        assert(ab.skip(1) =~= a.skip(1) + b);
        lemma_complete_concat(a.skip(1), b);
    } else if a.len() >= 3 && is_tail(a[2]) {
        assert(ab.skip(3) =~= a.skip(3) + b);
        lemma_complete_concat(a.skip(3), b);
    } else {
        assert(ab.skip(2) =~= a.skip(2) + b);
        lemma_complete_concat(a.skip(2), b);
        if a.len() == 2 && b.len() > 0 {
            assert(ab[2] == b[0]);
        }
    }
}

/// Composition of complete text leaves no jamo on its own.
pub proof fn lemma_compose_complete(s: Seq<char>)
    requires
        is_complete(s),
    ensures
        is_block_text(compose(s)),
    decreases s.len(),
{
    if s.len() == 0 {
    } else if s[0] == ' ' {
        lemma_compose_complete(s.skip(1));
    } else if s.len() >= 3 && is_tail(s[2]) {
        lemma_compose_complete(s.skip(3));
        lemma_block_is_block(s[0], s[1], Some(s[2]));
    } else {
        lemma_compose_complete(s.skip(2));
        lemma_block_is_block(s[0], s[1], None);
    }
}

/// Composition goes through a boundary after complete text, unless a trailing
/// consonant follows it.
pub proof fn lemma_compose_concat(a: Seq<char>, b: Seq<char>)
    requires
        is_complete(a),
        b.len() > 0 ==> !is_tail(b[0]),
    ensures
        compose(a + b) == compose(a) + compose(b),
    decreases a.len(),
{
    let ab = a + b;
    if a.len() == 0 {
        assert(ab =~= b);
        assert(compose(a) + compose(b) =~= compose(b));
    } else if a[0] == ' ' {
        assert(ab.skip(1) =~= a.skip(1) + b);
        lemma_compose_concat(a.skip(1), b);
        assert(compose(ab) =~= compose(a) + compose(b));
    } else if a.len() >= 3 && is_tail(a[2]) {
        assert(ab.skip(3) =~= a.skip(3) + b);
        lemma_compose_concat(a.skip(3), b);
        assert(compose(ab) =~= compose(a) + compose(b));
    } else {
        assert(ab.skip(2) =~= a.skip(2) + b);
        lemma_compose_concat(a.skip(2), b);
        if a.len() == 2 && b.len() > 0 {
            assert(ab[2] == b[0]);
        }
        assert(compose(ab) =~= compose(a) + compose(b));
    }
}

/// Complete text stays complete when a space follows.
pub proof fn lemma_complete_space(s: Seq<char>)
    requires
        is_complete(s),
    ensures
        is_complete(s.push(' ')),
{
    lemma_units_complete('\u{1100}', '\u{1161}', '\u{11A8}');
    lemma_complete_concat(s, seq![' ']);
    assert(s.push(' ') =~= s + seq![' ']);
}

/// A leading consonant after complete text begins a syllable.
pub proof fn lemma_complete_lead(s: Seq<char>, lead: char)
    requires
        is_complete(s),
        is_lead(lead),
    ensures
        is_begun(s.push(lead)),
{
    assert(s.push(lead).drop_last() =~= s);
}

/// A vowel after a leading consonant opens the syllable.
pub proof fn lemma_begun_medial(s: Seq<char>, medial: char)
    requires
        is_begun(s),
        is_medial(medial),
    ensures
        is_open(s.push(medial)),
{
    let t = s.push(medial);
    assert(t.take(t.len() - 2) =~= s.drop_last());
}

/// An open syllable is a full syllable as it stands.
pub proof fn lemma_open_complete(s: Seq<char>)
    requires
        is_open(s),
    ensures
        is_complete(s),
{
    let n = s.len() - 2;
    lemma_units_complete(s[n], s[n + 1], '\u{11A8}');
    lemma_complete_concat(s.take(n), seq![s[n], s[n + 1]]);
    assert(s =~= s.take(n) + seq![s[n], s[n + 1]]);
}

/// A trailing consonant closes an open syllable.
pub proof fn lemma_open_tail(s: Seq<char>, tail: char)
    requires
        is_open(s),
        is_tail(tail),
    ensures
        is_complete(s.push(tail)),
{
    let n = s.len() - 2;
    lemma_units_complete(s[n], s[n + 1], tail);
    lemma_complete_concat(s.take(n), seq![s[n], s[n + 1], tail]);
    assert(s.push(tail) =~= s.take(n) + seq![s[n], s[n + 1], tail]);
}

/// A character is known by its code point.
proof fn lemma_char_code(c: char)
    ensures
        (c as u32) as char == c,
{
}

/// The leading consonant that a syllable block begins with.
pub open spec fn lead_of(block: char) -> char {
    (0x1100 + (block as u32 - 0xAC00) / 588) as char
}

/// Complete text that begins with a leading consonant composes into text
/// that begins with a block of that consonant.
pub proof fn lemma_compose_first(s: Seq<char>)
    requires
        is_complete(s),
        s.len() > 0,
        is_lead(s[0]),
    ensures
        compose(s).len() > 0,
        is_block(compose(s)[0]),
        lead_of(compose(s)[0]) == s[0],
{
    let tail = if s.len() >= 3 && is_tail(s[2]) {
        Some(s[2])
    } else {
        None
    };
    lemma_block_is_block(s[0], s[1], tail);
    assert(compose(s)[0] == block(s[0], s[1], tail));
    let l = s[0] as u32 - 0x1100;
    let v = s[1] as u32 - 0x1161;
    let t = match tail {
        Some(t) => t as u32 - 0x11A7,
        None => 0,
    };
    assert(block(s[0], s[1], tail) as u32 - 0xAC00 == l * 588 + (v * 28 + t));
    assert((l * 588 + (v * 28 + t)) / 588 == l);
    lemma_char_code(s[0]);
}

} // verus!
