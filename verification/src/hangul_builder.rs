//! Assembles Hangul syllables from single consonants and vowels.
//!
//! A [`Builder`] keeps track of the slot of the syllable that comes next
//! (initial consonant, vowel, final consonant) and fills the slots that a
//! caller skips with neutral jamo, so that what it hands out composes into
//! syllable blocks.

use crate::jamo::{
    compose, is_begun, is_block_text, is_complete, is_jamo_text, is_open, lemma_begun_medial,
    lemma_complete_lead, lemma_complete_space, lemma_compose_complete, lemma_open_complete,
    lemma_open_tail, nfc, nfc_of,
};
use vstd::pervasive::unreached;
use vstd::prelude::*;

verus! {

/// The consonants that a syllable can hold.
#[derive(Copy, Clone, Debug, PartialEq, Eq)]
pub enum Consonant {
    /// ㅂ
    B,
    /// ㅈ
    J,
    /// ㄷ
    D,
    /// ㄱ
    G,
    /// ㅅ
    S,
    /// ㅁ
    M,
    /// ㄴ
    N,
    /// ㅇ
    Ng,
    /// ㄹ
    L,
    /// ㅎ
    H,
    /// ㅋ
    K,
    /// ㅌ
    T,
    /// ㅊ
    Ch,
    /// ㅍ
    P,
    /// ㅃ
    Bb,
    /// ㄲ
    Gg,
    /// ㄸ
    Dd,
}

/// The vowels that a syllable can hold.
#[derive(Copy, Clone, Debug, PartialEq, Eq)]
pub enum Vowel {
    /// ㅐ
    Ae,
    /// ㅔ
    E,
    /// ㅗ
    O,
    /// ㅓ
    Eo,
    /// ㅏ
    A,
    /// ㅣ
    I,
    /// ㅜ
    U,
    /// ㅡ
    Eu,
    /// ㅟ
    Wi,
    /// ㅙ
    Wae,
    /// ㅘ
    Wa,
    /// ㅝ
    Wo,
    /// ㅞ
    We,
    /// ㅒ
    Yae,
    /// ㅑ
    Ya,
    /// ㅕ
    Yeo,
    /// ㅖ
    Ye,
    /// ㅛ
    Yo,
    /// ㅠ
    Yu,
}

/// The slot of the syllable that is filled next.
///
/// `SomeConsonant` comes after a vowel: a consonant that arrives there is
/// held back until what follows tells whether it ends this syllable or
/// begins the next one.
#[derive(Copy, Clone, Debug, PartialEq, Eq, Structural)]
pub enum Position {
    InitialConsonant,
    Vowel,
    FinalConsonant,
    SomeConsonant,
}

/// The leading consonant that fills an initial slot nobody filled: ᄋ.
pub const FILLER_LEAD: char = '\u{110B}';

/// The vowel that fills a vowel slot nobody filled: ᅳ.
pub const FILLER_MEDIAL: char = '\u{1173}';

impl Consonant {
    /// The jamo of this consonant at the start of a syllable.
    pub open spec fn lead(self) -> char {
        match self {
            Consonant::B => '\u{1107}',
            Consonant::J => '\u{110C}',
            Consonant::D => '\u{1103}',
            Consonant::G => '\u{1100}',
            Consonant::S => '\u{1109}',
            Consonant::M => '\u{1106}',
            Consonant::N => '\u{1102}',
            Consonant::Ng => '\u{110B}',
            Consonant::L => '\u{1105}',
            Consonant::H => '\u{1112}',
            Consonant::K => '\u{110F}',
            Consonant::T => '\u{1110}',
            Consonant::Ch => '\u{110E}',
            Consonant::P => '\u{1111}',
            Consonant::Bb => '\u{1108}',
            Consonant::Gg => '\u{1101}',
            Consonant::Dd => '\u{1104}',
        }
    }

    /// The jamo of this consonant at the end of a syllable. The three tense
    /// consonants have none.
    pub open spec fn tail(self) -> Option<char> {
        match self {
            Consonant::B => Some('\u{11B8}'),
            Consonant::J => Some('\u{11BD}'),
            Consonant::D => Some('\u{11AE}'),
            Consonant::G => Some('\u{11A8}'),
            Consonant::S => Some('\u{11BA}'),
            Consonant::M => Some('\u{11B7}'),
            Consonant::N => Some('\u{11AB}'),
            Consonant::Ng => Some('\u{11BC}'),
            Consonant::L => Some('\u{11AF}'),
            Consonant::H => Some('\u{11C2}'),
            Consonant::K => Some('\u{11BF}'),
            Consonant::T => Some('\u{11C0}'),
            Consonant::Ch => Some('\u{11BE}'),
            Consonant::P => Some('\u{11C1}'),
            Consonant::Bb => None,
            Consonant::Gg => None,
            Consonant::Dd => None,
        }
    }

    fn lead_jamo(self) -> (c: char)
        ensures
            c == self.lead(),
    {
        match self {
            Consonant::B => '\u{1107}',
            Consonant::J => '\u{110C}',
            Consonant::D => '\u{1103}',
            Consonant::G => '\u{1100}',
            Consonant::S => '\u{1109}',
            Consonant::M => '\u{1106}',
            Consonant::N => '\u{1102}',
            Consonant::Ng => '\u{110B}',
            Consonant::L => '\u{1105}',
            Consonant::H => '\u{1112}',
            Consonant::K => '\u{110F}',
            Consonant::T => '\u{1110}',
            Consonant::Ch => '\u{110E}',
            Consonant::P => '\u{1111}',
            Consonant::Bb => '\u{1108}',
            Consonant::Gg => '\u{1101}',
            Consonant::Dd => '\u{1104}',
        }
    }

    fn tail_jamo(self) -> (c: char)
        requires
            self.tail() is Some,
        ensures
            self.tail() == Some(c),
    {
        match self {
            Consonant::B => '\u{11B8}',
            Consonant::J => '\u{11BD}',
            Consonant::D => '\u{11AE}',
            Consonant::G => '\u{11A8}',
            Consonant::S => '\u{11BA}',
            Consonant::M => '\u{11B7}',
            Consonant::N => '\u{11AB}',
            Consonant::Ng => '\u{11BC}',
            Consonant::L => '\u{11AF}',
            Consonant::H => '\u{11C2}',
            Consonant::K => '\u{11BF}',
            Consonant::T => '\u{11C0}',
            Consonant::Ch => '\u{11BE}',
            Consonant::P => '\u{11C1}',
            Consonant::Bb | Consonant::Gg | Consonant::Dd => unreached(),
        }
    }
}

impl Vowel {
    /// The jamo of this vowel.
    pub open spec fn medial(self) -> char {
        match self {
            Vowel::Ae => '\u{1162}',
            Vowel::E => '\u{1166}',
            Vowel::O => '\u{1169}',
            Vowel::Eo => '\u{1165}',
            Vowel::A => '\u{1161}',
            Vowel::I => '\u{1175}',
            Vowel::U => '\u{116E}',
            Vowel::Eu => '\u{1173}',
            Vowel::Wi => '\u{1171}',
            Vowel::Wae => '\u{116B}',
            Vowel::Wa => '\u{116A}',
            Vowel::Wo => '\u{116F}',
            Vowel::We => '\u{1170}',
            Vowel::Yae => '\u{1164}',
            Vowel::Ya => '\u{1163}',
            Vowel::Yeo => '\u{1167}',
            Vowel::Ye => '\u{1168}',
            Vowel::Yo => '\u{116D}',
            Vowel::Yu => '\u{1172}',
        }
    }

    fn medial_jamo(self) -> (c: char)
        ensures
            c == self.medial(),
    {
        match self {
            Vowel::Ae => '\u{1162}',
            Vowel::E => '\u{1166}',
            Vowel::O => '\u{1169}',
            Vowel::Eo => '\u{1165}',
            Vowel::A => '\u{1161}',
            Vowel::I => '\u{1175}',
            Vowel::U => '\u{116E}',
            Vowel::Eu => '\u{1173}',
            Vowel::Wi => '\u{1171}',
            Vowel::Wae => '\u{116B}',
            Vowel::Wa => '\u{116A}',
            Vowel::Wo => '\u{116F}',
            Vowel::We => '\u{1170}',
            Vowel::Yae => '\u{1164}',
            Vowel::Ya => '\u{1163}',
            Vowel::Yeo => '\u{1167}',
            Vowel::Ye => '\u{1168}',
            Vowel::Yo => '\u{116D}',
            Vowel::Yu => '\u{1172}',
        }
    }
}

impl Position {
    /// The slot after this one. After the final consonant comes the initial
    /// consonant of the next syllable.
    pub open spec fn next(self) -> Position {
        match self {
            Position::InitialConsonant => Position::Vowel,
            Position::Vowel => Position::SomeConsonant,
            Position::SomeConsonant => Position::FinalConsonant,
            Position::FinalConsonant => Position::InitialConsonant,
        }
    }

    /// The place of this slot in the cycle, counted from the initial
    /// consonant.
    pub open spec fn rank(self) -> int {
        match self {
            Position::InitialConsonant => 0,
            Position::Vowel => 1,
            Position::SomeConsonant => 2,
            Position::FinalConsonant => 3,
        }
    }

    /// The number of steps forward from this slot to `target`.
    pub open spec fn steps_to(self, target: Position) -> int {
        (target.rank() - self.rank()) % 4
    }

    /// Whether stepping forward from this slot to `target` leaves `slot`
    /// behind.
    pub open spec fn passes(self, target: Position, slot: Position) -> bool {
        self.steps_to(slot) < self.steps_to(target)
    }

    /// The neutral jamo that stepping forward from this slot to `target`
    /// leaves in the slots nobody filled: ᄋ for an initial consonant, ᅳ for
    /// a vowel.
    pub open spec fn filler(self, target: Position) -> Seq<char> {
        let lead = if self.passes(target, Position::InitialConsonant) {
            seq![FILLER_LEAD]
        } else {
            Seq::<char>::empty()
        };
        let medial = if self.passes(target, Position::Vowel) {
            seq![FILLER_MEDIAL]
        } else {
            Seq::<char>::empty()
        };
        lead + medial
    }

    /// The slots form a cycle: four steps forward lead back to the slot, and
    /// fewer do not.
    pub proof fn lemma_cycle(self)
        ensures
            self.next() != self,
            self.next().next() != self,
            self.next().next().next() != self,
            self.next().next().next().next() == self,
            self.steps_to(self.next()) == 1,
    {
    }

    fn advance(&mut self)
        ensures
            *final(self) == old(self).next(),
    {
        *self = match self {
            Position::InitialConsonant => Position::Vowel,
            Position::Vowel => Position::SomeConsonant,
            Position::SomeConsonant => Position::FinalConsonant,
            Position::FinalConsonant => Position::InitialConsonant,
        };
    }
}

/// What a [`Builder`] holds: the jamo written so far, the slot that comes
/// next, and the consonant held back after a vowel, if there is one.
pub struct State {
    pub text: Seq<char>,
    pub pos: Position,
    pub pending: Option<Consonant>,
}

impl State {
    /// The state of a new builder.
    pub open spec fn start() -> State {
        State { text: Seq::empty(), pos: Position::InitialConsonant, pending: None }
    }

    /// Nothing of the current word is written yet.
    pub open spec fn is_start_of_word(self) -> bool {
        (self.text.len() == 0 || self.text.last() == ' ') && self.pos
            == Position::InitialConsonant
    }

    /// Steps forward to `target`, filling the slots left behind.
    pub open spec fn advance_to(self, target: Position) -> State {
        State { text: self.text + self.pos.filler(target), pos: target, pending: self.pending }
    }

    /// Puts a consonant into the slot that comes next. After a vowel the
    /// consonant is held back instead.
    pub open spec fn place(self, cons: Consonant) -> State {
        match self.pos {
            Position::InitialConsonant => State {
                text: self.text.push(cons.lead()),
                pos: Position::Vowel,
                pending: self.pending,
            },
            Position::FinalConsonant => State {
                text: self.text.push(cons.tail().unwrap()),
                pos: Position::InitialConsonant,
                pending: self.pending,
            },
            _ => State {
                text: self.text + self.pos.filler(Position::SomeConsonant),
                pos: Position::InitialConsonant,
                pending: Some(cons),
            },
        }
    }

    /// Writes the consonant held back, if there is one, into the slot `role`.
    pub open spec fn settle(self, role: Position) -> State {
        match self.pending {
            Some(earlier) => State { text: self.text, pos: role, pending: None }.place(earlier),
            None => self,
        }
    }

    /// The slot for a consonant held back when `cons` arrives: it ends its
    /// syllable, except that ㅍ before ㄹ begins a new one.
    pub open spec fn role_before(self, cons: Consonant) -> Position {
        if self.pending == Some(Consonant::P) && cons == Consonant::L {
            Position::InitialConsonant
        } else {
            Position::FinalConsonant
        }
    }

    /// The state after a consonant.
    #[verifier::opaque]
    pub open spec fn push_consonant(self, cons: Consonant) -> State {
        self.settle(self.role_before(cons)).place(cons)
    }

    /// The state after the current syllable is closed: a consonant held back
    /// ends it, and open slots are filled up to the next initial consonant.
    pub open spec fn finish_syllable(self) -> State {
        self.settle(Position::FinalConsonant).advance_to(Position::InitialConsonant)
    }

    /// The state after a word boundary.
    #[verifier::opaque]
    pub open spec fn push_space(self) -> State {
        let closed = self.finish_syllable();
        State { text: closed.text.push(' '), pos: closed.pos, pending: closed.pending }
    }

    /// The state after a vowel: a consonant held back begins the vowel's
    /// syllable.
    #[verifier::opaque]
    pub open spec fn push_vowel(self, vowel: Vowel) -> State {
        let ready = self.settle(Position::InitialConsonant).advance_to(Position::Vowel);
        State {
            text: ready.text.push(vowel.medial()),
            pos: Position::SomeConsonant,
            pending: ready.pending,
        }
    }

    /// The consonant held back, if there is one, can end a syllable.
    pub open spec fn can_close(self) -> bool {
        self.pending matches Some(earlier) ==> earlier.tail() is Some
    }

    /// `cons` can be pushed: no tense consonant would end a syllable.
    pub open spec fn takes(self, cons: Consonant) -> bool {
        &&& self.can_close()
        &&& self.pending is None && self.pos == Position::FinalConsonant ==> cons.tail() is Some
    }

    /// The jamo written so far line up as syllables: full syllables and
    /// spaces, followed by what the next slot says has been begun. A
    /// consonant is only held back behind an open syllable.
    pub open spec fn well_formed(self) -> bool {
        match self.pos {
            Position::Vowel => self.pending is None && is_begun(self.text),
            Position::InitialConsonant => if self.pending is Some {
                is_open(self.text)
            } else {
                is_complete(self.text)
            },
            _ => is_open(self.text),
        }
    }
}

/// The jamo before the slot `pos` line up as syllables: full syllables and
/// spaces, then the part of a syllable that comes before that slot.
spec fn is_shaped(text: Seq<char>, pos: Position) -> bool {
    match pos {
        Position::InitialConsonant => is_complete(text),
        Position::Vowel => is_begun(text),
        _ => is_open(text),
    }
}

/// One step forward, with the slot left behind filled, keeps the shape.
proof fn lemma_step_shaped(text: Seq<char>, pos: Position)
    requires
        is_shaped(text, pos),
    ensures
        is_shaped(text + pos.filler(pos.next()), pos.next()),
{
    let filled = text + pos.filler(pos.next());
    match pos {
        Position::InitialConsonant => {
            lemma_complete_lead(text, FILLER_LEAD);
            assert(filled =~= text.push(FILLER_LEAD));
        },
        Position::Vowel => {
            lemma_begun_medial(text, FILLER_MEDIAL);
            assert(filled =~= text.push(FILLER_MEDIAL));
        },
        Position::SomeConsonant => {
            assert(filled =~= text);
        },
        Position::FinalConsonant => {
            lemma_open_complete(text);
            assert(filled =~= text);
        },
    }
}

/// Stepping forward to any slot keeps the shape.
proof fn lemma_advance_shaped(text: Seq<char>, pos: Position, target: Position)
    requires
        is_shaped(text, pos),
    ensures
        is_shaped(text + pos.filler(target), target),
{
    let once = pos.next();
    let twice = once.next();
    let thrice = twice.next();
    let text_once = text + pos.filler(once);
    let text_twice = text_once + once.filler(twice);
    let text_thrice = text_twice + twice.filler(thrice);
    lemma_step_shaped(text, pos);
    lemma_step_shaped(text_once, once);
    lemma_step_shaped(text_twice, twice);
    let filled = text + pos.filler(target);
    if target == pos {
        assert(filled =~= text);
    } else if target == once {
    } else if target == twice {
        assert(filled =~= text_twice);
    } else {
        assert(target == thrice);
        assert(filled =~= text_thrice);
    }
}

impl State {
    /// A new builder is well-formed.
    pub proof fn lemma_start_well_formed()
        ensures
            State::start().well_formed(),
            State::start().can_close(),
    {
    }

    /// A well-formed state has the shape that its slot asks for.
    proof fn lemma_well_formed_shaped(self)
        requires
            self.well_formed(),
        ensures
            is_shaped(self.text, self.pos),
    {
        if self.pos == Position::InitialConsonant && self.pending is Some {
            lemma_open_complete(self.text);
        }
    }

    /// Stepping forward keeps a state well-formed, unless it would leave a
    /// consonant held back behind a bare leading consonant.
    pub proof fn lemma_advance_to_well_formed(self, target: Position)
        requires
            self.well_formed(),
            self.pending is Some ==> target != Position::Vowel,
        ensures
            self.advance_to(target).well_formed(),
    {
        self.lemma_well_formed_shaped();
        lemma_advance_shaped(self.text, self.pos, target);
        if self.pending is Some && target == Position::InitialConsonant {
            assert(self.advance_to(target).text =~= self.text);
        }
    }

    /// Placing a consonant keeps a state with nothing held back well-formed.
    proof fn lemma_place_well_formed(self, cons: Consonant)
        requires
            self.well_formed(),
            self.pending is None,
            self.pos == Position::FinalConsonant ==> cons.tail() is Some,
        ensures
            self.place(cons).well_formed(),
    {
        match self.pos {
            Position::InitialConsonant => {
                lemma_complete_lead(self.text, cons.lead());
            },
            Position::FinalConsonant => {
                lemma_open_tail(self.text, cons.tail().unwrap());
            },
            _ => {
                lemma_advance_shaped(self.text, self.pos, Position::SomeConsonant);
            },
        }
    }

    /// Writing the consonant held back keeps a state well-formed, and leaves
    /// nothing held back.
    proof fn lemma_settle_well_formed(self, role: Position)
        requires
            self.well_formed(),
            role == Position::InitialConsonant || (role == Position::FinalConsonant
                && self.can_close()),
        ensures
            self.settle(role).well_formed(),
            self.settle(role).pending is None,
    {
        if let Some(earlier) = self.pending {
            if role == Position::InitialConsonant {
                lemma_open_complete(self.text);
                lemma_complete_lead(self.text, earlier.lead());
            } else {
                lemma_open_tail(self.text, earlier.tail().unwrap());
            }
        }
    }

    /// A consonant that the state takes keeps it well-formed.
    pub proof fn lemma_push_consonant_well_formed(self, cons: Consonant)
        requires
            self.well_formed(),
            self.takes(cons),
        ensures
            self.push_consonant(cons).well_formed(),
    {
        reveal(State::push_consonant);
        let role = self.role_before(cons);
        self.lemma_settle_well_formed(role);
        self.settle(role).lemma_place_well_formed(cons);
    }

    /// At the start of a word nothing is held back.
    pub proof fn lemma_start_of_word_settled(self)
        requires
            self.well_formed(),
            self.is_start_of_word(),
        ensures
            self.pending is None,
    {
    }

    /// After a consonant, nothing but that consonant is held back, and at the
    /// start of a syllable not even that.
    pub proof fn lemma_push_consonant_pending(self, cons: Consonant)
        ensures
            self.push_consonant(cons).pending is None || self.push_consonant(cons).pending == Some(
                cons,
            ),
            self.pending is None && self.pos == Position::InitialConsonant ==> self.push_consonant(
                cons,
            ).pending is None,
    {
        reveal(State::push_consonant);
    }

    /// A vowel keeps a state well-formed.
    pub proof fn lemma_push_vowel_well_formed(self, vowel: Vowel)
        requires
            self.well_formed(),
        ensures
            self.push_vowel(vowel).well_formed(),
            self.push_vowel(vowel).can_close(),
    {
        reveal(State::push_vowel);
        let settled = self.settle(Position::InitialConsonant);
        self.lemma_settle_well_formed(Position::InitialConsonant);
        settled.lemma_advance_to_well_formed(Position::Vowel);
        lemma_begun_medial(settled.advance_to(Position::Vowel).text, vowel.medial());
    }

    /// A closed syllable leaves full syllables and spaces only.
    pub proof fn lemma_finish_syllable_complete(self)
        requires
            self.well_formed(),
            self.can_close(),
        ensures
            is_complete(self.finish_syllable().text),
            self.finish_syllable().well_formed(),
            self.finish_syllable().pending is None,
            self.finish_syllable().pos == Position::InitialConsonant,
    {
        self.lemma_settle_well_formed(Position::FinalConsonant);
        self.settle(Position::FinalConsonant).lemma_advance_to_well_formed(
            Position::InitialConsonant,
        );
    }

    /// A word boundary keeps a state well-formed.
    pub proof fn lemma_push_space_well_formed(self)
        requires
            self.well_formed(),
            self.can_close(),
        ensures
            self.push_space().well_formed(),
            self.push_space().can_close(),
            self.push_space().is_start_of_word(),
    {
        reveal(State::push_space);
        self.lemma_finish_syllable_complete();
        lemma_complete_space(self.finish_syllable().text);
    }
}

impl State {
    /// This state with `prefix` written before its text.
    pub open spec fn shifted(self, prefix: Seq<char>) -> State {
        State { text: prefix + self.text, pos: self.pos, pending: self.pending }
    }

    /// What is written before a word boundary does not change where the
    /// word starts.
    pub proof fn lemma_shifted_start_of_word(self, prefix: Seq<char>)
        requires
            prefix.len() == 0 || prefix.last() == ' ',
        ensures
            self.shifted(prefix).is_start_of_word() == self.is_start_of_word(),
    {
    }

    /// Stepping forward goes on as if the prefix were not there.
    pub proof fn lemma_shifted_advance_to(self, prefix: Seq<char>, target: Position)
        ensures
            self.shifted(prefix).advance_to(target) == self.advance_to(target).shifted(prefix),
    {
        assert(self.shifted(prefix).advance_to(target).text =~= self.advance_to(target).shifted(
            prefix,
        ).text);
    }

    /// Placing a consonant goes on as if the prefix were not there.
    proof fn lemma_shifted_place(self, prefix: Seq<char>, cons: Consonant)
        ensures
            self.shifted(prefix).place(cons) == self.place(cons).shifted(prefix),
    {
        assert(self.shifted(prefix).place(cons).text =~= self.place(cons).shifted(prefix).text);
    }

    /// Writing the consonant held back goes on as if the prefix were not
    /// there.
    proof fn lemma_shifted_settle(self, prefix: Seq<char>, role: Position)
        ensures
            self.shifted(prefix).settle(role) == self.settle(role).shifted(prefix),
    {
        let bare = State { text: self.text, pos: role, pending: None };
        bare.lemma_shifted_place(prefix, self.pending.unwrap());
    }

    /// A consonant goes in as if the prefix were not there.
    pub proof fn lemma_shifted_push_consonant(self, prefix: Seq<char>, cons: Consonant)
        ensures
            self.shifted(prefix).push_consonant(cons) == self.push_consonant(cons).shifted(prefix),
    {
        reveal(State::push_consonant);
        let role = self.role_before(cons);
        self.lemma_shifted_settle(prefix, role);
        self.settle(role).lemma_shifted_place(prefix, cons);
    }

    /// A syllable is closed as if the prefix were not there.
    pub proof fn lemma_shifted_finish_syllable(self, prefix: Seq<char>)
        ensures
            self.shifted(prefix).finish_syllable() == self.finish_syllable().shifted(prefix),
    {
        self.lemma_shifted_settle(prefix, Position::FinalConsonant);
        self.settle(Position::FinalConsonant).lemma_shifted_advance_to(
            prefix,
            Position::InitialConsonant,
        );
    }

    /// A word boundary goes in as if the prefix were not there.
    pub proof fn lemma_shifted_push_space(self, prefix: Seq<char>)
        ensures
            self.shifted(prefix).push_space() == self.push_space().shifted(prefix),
    {
        reveal(State::push_space);
        self.lemma_shifted_finish_syllable(prefix);
        assert(self.shifted(prefix).push_space().text =~= self.push_space().shifted(prefix).text);
    }

    /// A vowel goes in as if the prefix were not there.
    pub proof fn lemma_shifted_push_vowel(self, prefix: Seq<char>, vowel: Vowel)
        ensures
            self.shifted(prefix).push_vowel(vowel) == self.push_vowel(vowel).shifted(prefix),
    {
        reveal(State::push_vowel);
        self.lemma_shifted_settle(prefix, Position::InitialConsonant);
        self.settle(Position::InitialConsonant).lemma_shifted_advance_to(prefix, Position::Vowel);
        assert(self.shifted(prefix).push_vowel(vowel).text =~= self.push_vowel(vowel).shifted(
            prefix,
        ).text);
    }

    /// After a word boundary the state is that of a new builder, with the
    /// closed text and a space before it.
    pub proof fn lemma_push_space_restarts(self)
        requires
            self.well_formed(),
            self.can_close(),
        ensures
            self.push_space() == State::start().shifted(self.finish_syllable().text.push(' ')),
    {
        reveal(State::push_space);
        self.lemma_finish_syllable_complete();
        assert(self.push_space().text =~= State::start().shifted(
            self.finish_syllable().text.push(' '),
        ).text);
    }
}

impl State {
    /// Stepping forward only adds to the text.
    pub proof fn lemma_advance_to_extends(self, target: Position)
        ensures
            self.text.is_prefix_of(self.advance_to(target).text),
    {
    }

    /// Writing the consonant held back only adds to the text.
    proof fn lemma_settle_extends(self, role: Position)
        ensures
            self.text.is_prefix_of(self.settle(role).text),
    {
    }

    /// A consonant only adds to the text.
    pub proof fn lemma_push_consonant_extends(self, cons: Consonant)
        ensures
            self.text.is_prefix_of(self.push_consonant(cons).text),
    {
        reveal(State::push_consonant);
        self.lemma_settle_extends(self.role_before(cons));
    }

    /// Closing a syllable only adds to the text.
    pub proof fn lemma_finish_syllable_extends(self)
        ensures
            self.text.is_prefix_of(self.finish_syllable().text),
    {
        self.lemma_settle_extends(Position::FinalConsonant);
    }

    /// A word boundary only adds to the text.
    pub proof fn lemma_push_space_extends(self)
        ensures
            self.text.is_prefix_of(self.push_space().text),
    {
        reveal(State::push_space);
        self.lemma_finish_syllable_extends();
    }

    /// A vowel only adds to the text.
    pub proof fn lemma_push_vowel_extends(self, vowel: Vowel)
        ensures
            self.text.is_prefix_of(self.push_vowel(vowel).text),
    {
        reveal(State::push_vowel);
        self.lemma_settle_extends(Position::InitialConsonant);
    }
}

/// Assembles jamo into syllables and hands out the composed text.
pub struct Builder {
    buf: Vec<char>,
    pos: Position,
    buffered_cons: Option<Consonant>,
}

impl View for Builder {
    type V = State;

    closed spec fn view(&self) -> State {
        State { text: self.buf@, pos: self.pos, pending: self.buffered_cons }
    }
}

impl Default for Builder {
    fn default() -> (b: Self)
        ensures
            b.wf(),
            b@ == State::start(),
            b@.well_formed(),
            b@.can_close(),
    {
        Self { buf: Vec::new(), pos: Position::InitialConsonant, buffered_cons: None }
    }
}

impl Builder {
    /// The builder holds conjoining jamo and spaces only. Every builder
    /// that the functions below hand out is valid.
    pub closed spec fn wf(&self) -> bool {
        is_jamo_text(self.buf@)
    }

    /// A builder that has written nothing.
    pub fn new() -> (b: Self)
        ensures
            b.wf(),
            b@ == State::start(),
            b@.well_formed(),
            b@.can_close(),
    {
        Builder::default()
    }

    /// Whether nothing of the current word is written yet.
    pub fn is_start_of_word(&self) -> (r: bool)
        ensures
            r == self@.is_start_of_word(),
    {
        (self.buf.len() == 0 || self.buf[self.buf.len() - 1] == ' ') && self.pos
            == Position::InitialConsonant
    }

    /// Steps forward to the slot `pos`. An initial slot left behind gets ᄋ, a
    /// vowel slot ᅳ.
    pub fn advance_to(&mut self, pos: Position)
        requires
            old(self).wf(),
        ensures
            final(self).wf(),
            final(self)@ == old(self)@.advance_to(pos),
            old(self)@.well_formed() && (old(self)@.pending is Some ==> pos != Position::Vowel)
                ==> final(self)@.well_formed(),
    {
        proof {
            if old(self)@.well_formed() && (old(self)@.pending is Some ==> pos != Position::Vowel) {
                old(self)@.lemma_advance_to_well_formed(pos);
            }
        }
        while self.pos != pos
            invariant
                self.wf(),
                self.buf@ == old(self).buf@ + old(self).pos.filler(self.pos),
                self.buffered_cons == old(self).buffered_cons,
                old(self).pos.steps_to(self.pos) + self.pos.steps_to(pos) == old(self).pos.steps_to(
                    pos,
                ),
            decreases self.pos.steps_to(pos),
        {
            match self.pos {
                Position::InitialConsonant => {
                    self.buf.push(FILLER_LEAD);
                },
                Position::Vowel => {
                    self.buf.push(FILLER_MEDIAL);
                },
                _ => {},
            };
            self.pos.advance();
        }
    }

    /// Puts a consonant into the slot that comes next, with no consonant held
    /// back.
    fn place(&mut self, cons: Consonant)
        requires
            old(self).wf(),
            old(self)@.pos == Position::FinalConsonant ==> cons.tail() is Some,
        ensures
            final(self).wf(),
            final(self)@ == old(self)@.place(cons),
    {
        match self.pos {
            Position::InitialConsonant => {
                self.buf.push(cons.lead_jamo());
                self.pos.advance();
            },
            Position::FinalConsonant => {
                self.buf.push(cons.tail_jamo());
                self.pos.advance();
            },
            _ => {
                self.advance_to(Position::SomeConsonant);
                self.buffered_cons = Some(cons);
                self.pos = Position::InitialConsonant;
            },
        }
    }

    /// Adds a consonant. A consonant held back since the last vowel is
    /// written first: as the final consonant of its syllable, or, for ㅍ
    /// before ㄹ, as the initial consonant of a new one.
    ///
    /// The tense consonants ㅃ ㄲ ㄸ cannot end a syllable: neither the
    /// consonant held back nor, in the final slot, `cons` may be one.
    pub fn push_consonant(&mut self, cons: Consonant)
        requires
            old(self).wf(),
            old(self)@.takes(cons),
        ensures
            final(self).wf(),
            final(self)@ == old(self)@.push_consonant(cons),
            old(self)@.well_formed() ==> final(self)@.well_formed(),
            cons.tail() is Some ==> final(self)@.can_close(),
    {
        proof {
            reveal(State::push_consonant);
            old(self)@.lemma_push_consonant_pending(cons);
            if old(self)@.well_formed() {
                old(self)@.lemma_push_consonant_well_formed(cons);
            }
        }
        if let Some(earlier_cons) = self.buffered_cons.take() {
            self.pos = match (earlier_cons, cons) {
                (Consonant::P, Consonant::L) => Position::InitialConsonant,
                _ => Position::FinalConsonant,
            };
            self.place(earlier_cons);
        }
        self.place(cons);
    }

    /// Closes the current syllable.
    fn finish_syllable(&mut self)
        requires
            old(self).wf(),
            old(self)@.can_close(),
        ensures
            final(self).wf(),
            final(self)@ == old(self)@.finish_syllable(),
    {
        if let Some(earlier_cons) = self.buffered_cons.take() {
            self.pos = Position::FinalConsonant;
            self.place(earlier_cons);
        }
        self.advance_to(Position::InitialConsonant);
    }

    /// Closes the current syllable and ends the word with a space. A
    /// consonant held back ends the syllable, so it may not be a tense one.
    pub fn push_space(&mut self)
        requires
            old(self).wf(),
            old(self)@.can_close(),
        ensures
            final(self).wf(),
            final(self)@ == old(self)@.push_space(),
            final(self)@.can_close(),
            old(self)@.well_formed() ==> final(self)@.well_formed(),
    {
        proof {
            reveal(State::push_space);
            if old(self)@.well_formed() {
                old(self)@.lemma_push_space_well_formed();
            }
        }
        self.finish_syllable();
        self.buf.push(' ');
    }

    /// Adds a vowel. A consonant held back begins the vowel's syllable; with
    /// none, the syllable begins with ᄋ.
    pub fn push_vowel(&mut self, vowel: Vowel)
        requires
            old(self).wf(),
        ensures
            final(self).wf(),
            final(self)@ == old(self)@.push_vowel(vowel),
            final(self)@.can_close(),
            old(self)@.well_formed() ==> final(self)@.well_formed(),
    {
        proof {
            reveal(State::push_vowel);
            if old(self)@.well_formed() {
                old(self)@.lemma_push_vowel_well_formed(vowel);
            }
        }
        if let Some(earlier_cons) = self.buffered_cons.take() {
            self.pos = Position::InitialConsonant;
            self.place(earlier_cons);
        }
        self.advance_to(Position::Vowel);
        self.buf.push(vowel.medial_jamo());
        self.pos.advance();
    }

    /// Closes the current syllable and hands out the text, normalized so
    /// that the jamo are composed into syllable blocks. A consonant held
    /// back ends the syllable, so it may not be a tense one.
    ///
    /// Normalizing the text again changes nothing, and where the jamo lined
    /// up as syllables the text holds blocks and spaces only.
    pub fn finish(self) -> (r: String)
        requires
            self.wf(),
            self@.can_close(),
        ensures
            r@ == nfc_of(self@.finish_syllable().text),
            r@ == compose(self@.finish_syllable().text),
            nfc_of(r@) == r@,
            self@.well_formed() ==> is_block_text(r@),
    {
        let mut closed = self;
        closed.finish_syllable();
        proof {
            if self@.well_formed() {
                self@.lemma_finish_syllable_complete();
                lemma_compose_complete(closed@.text);
            }
        }
        nfc(&closed.buf)
    }
}

} // verus!
