use phonetics_to_hangul::hangul_builder::{Builder, Consonant, Position, Vowel};

const CONSONANTS: [Consonant; 17] = [
    Consonant::B,
    Consonant::J,
    Consonant::D,
    Consonant::G,
    Consonant::S,
    Consonant::M,
    Consonant::N,
    Consonant::Ng,
    Consonant::L,
    Consonant::H,
    Consonant::K,
    Consonant::T,
    Consonant::Ch,
    Consonant::P,
    Consonant::Bb,
    Consonant::Gg,
    Consonant::Dd,
];

const VOWELS: [Vowel; 19] = [
    Vowel::Ae,
    Vowel::E,
    Vowel::O,
    Vowel::Eo,
    Vowel::A,
    Vowel::I,
    Vowel::U,
    Vowel::Eu,
    Vowel::Wi,
    Vowel::Wae,
    Vowel::Wa,
    Vowel::Wo,
    Vowel::We,
    Vowel::Yae,
    Vowel::Ya,
    Vowel::Yeo,
    Vowel::Ye,
    Vowel::Yo,
    Vowel::Yu,
];

#[test]
fn new_builder_finishes_empty() {
    assert_eq!(Builder::new().finish(), "");
}

#[test]
fn default_builder_is_a_new_builder() {
    let builder = Builder::default();
    assert!(builder.is_start_of_word());
    assert_eq!(builder.finish(), "");
}

#[test]
fn a_vowel_alone_gets_the_neutral_consonant() {
    let mut builder = Builder::new();
    builder.push_vowel(Vowel::A);
    assert_eq!(builder.finish(), "아");
}

#[test]
fn a_consonant_alone_gets_the_neutral_vowel() {
    let mut builder = Builder::new();
    builder.push_consonant(Consonant::G);
    assert_eq!(builder.finish(), "그");
}

#[test]
fn consonant_and_vowel_make_a_block() {
    let mut builder = Builder::new();
    builder.push_consonant(Consonant::G);
    builder.push_vowel(Vowel::A);
    assert_eq!(builder.finish(), "가");
}

#[test]
fn a_consonant_after_a_vowel_ends_the_syllable_at_the_end() {
    let mut builder = Builder::new();
    builder.push_consonant(Consonant::G);
    builder.push_vowel(Vowel::A);
    builder.push_consonant(Consonant::N);
    assert_eq!(builder.finish(), "간");
}

#[test]
fn a_consonant_between_vowels_begins_the_next_syllable() {
    let mut builder = Builder::new();
    builder.push_consonant(Consonant::G);
    builder.push_vowel(Vowel::A);
    builder.push_consonant(Consonant::N);
    builder.push_vowel(Vowel::A);
    assert_eq!(builder.finish(), "가나");
}

#[test]
fn the_first_of_two_consonants_ends_the_syllable() {
    let mut builder = Builder::new();
    builder.push_consonant(Consonant::G);
    builder.push_vowel(Vowel::A);
    builder.push_consonant(Consonant::N);
    builder.push_consonant(Consonant::D);
    assert_eq!(builder.finish(), "간드");
}

#[test]
fn p_before_l_begins_a_new_syllable() {
    let mut builder = Builder::new();
    builder.push_vowel(Vowel::A);
    builder.push_consonant(Consonant::P);
    builder.push_consonant(Consonant::L);
    builder.push_vowel(Vowel::A);
    assert_eq!(builder.finish(), "아프라");
}

#[test]
fn p_before_another_consonant_ends_the_syllable() {
    let mut builder = Builder::new();
    builder.push_vowel(Vowel::A);
    builder.push_consonant(Consonant::P);
    builder.push_consonant(Consonant::N);
    builder.push_vowel(Vowel::A);
    assert_eq!(builder.finish(), "앞나");
}

#[test]
fn a_tense_consonant_between_vowels_begins_the_next_syllable() {
    let mut builder = Builder::new();
    builder.push_vowel(Vowel::A);
    builder.push_consonant(Consonant::Bb);
    builder.push_vowel(Vowel::A);
    assert_eq!(builder.finish(), "아빠");
}

#[test]
fn a_space_parts_words() {
    let mut builder = Builder::new();
    builder.push_consonant(Consonant::G);
    builder.push_vowel(Vowel::A);
    builder.push_space();
    builder.push_consonant(Consonant::N);
    builder.push_vowel(Vowel::A);
    assert_eq!(builder.finish(), "가 나");
}

#[test]
fn a_space_closes_the_consonant_held_back() {
    let mut builder = Builder::new();
    builder.push_consonant(Consonant::G);
    builder.push_vowel(Vowel::A);
    builder.push_consonant(Consonant::N);
    builder.push_space();
    builder.push_vowel(Vowel::A);
    assert_eq!(builder.finish(), "간 아");
}

#[test]
fn a_space_alone_is_kept() {
    let mut builder = Builder::new();
    builder.push_space();
    assert_eq!(builder.finish(), " ");
}

#[test]
fn start_of_word_is_told_by_text_and_slot() {
    let mut builder = Builder::new();
    assert!(builder.is_start_of_word());
    builder.push_consonant(Consonant::G);
    assert!(!builder.is_start_of_word());
    builder.push_vowel(Vowel::A);
    assert!(!builder.is_start_of_word());
    builder.push_consonant(Consonant::N);
    assert!(!builder.is_start_of_word());
    builder.push_space();
    assert!(builder.is_start_of_word());
    builder.advance_to(Position::Vowel);
    assert!(!builder.is_start_of_word());
}

#[test]
fn advancing_to_the_final_slot_makes_a_consonant_final() {
    let mut builder = Builder::new();
    builder.push_vowel(Vowel::A);
    builder.advance_to(Position::FinalConsonant);
    builder.push_consonant(Consonant::Ng);
    assert_eq!(builder.finish(), "앙");
}

#[test]
fn advancing_from_the_start_fills_both_slots() {
    let mut builder = Builder::new();
    builder.advance_to(Position::FinalConsonant);
    builder.push_consonant(Consonant::Ng);
    assert_eq!(builder.finish(), "응");
}

#[test]
fn advancing_to_the_initial_slot_closes_the_syllable() {
    let mut builder = Builder::new();
    builder.push_vowel(Vowel::A);
    builder.advance_to(Position::InitialConsonant);
    builder.push_consonant(Consonant::S);
    builder.push_vowel(Vowel::A);
    assert_eq!(builder.finish(), "아사");
}

#[test]
fn advancing_to_the_vowel_slot_writes_the_neutral_consonant() {
    let mut builder = Builder::new();
    builder.advance_to(Position::Vowel);
    builder.push_vowel(Vowel::A);
    assert_eq!(builder.finish(), "아");
}

#[test]
fn advancing_past_the_vowel_slot_writes_the_neutral_vowel() {
    let mut builder = Builder::new();
    builder.advance_to(Position::SomeConsonant);
    assert_eq!(builder.finish(), "으");
}

#[test]
fn advancing_to_the_slot_at_hand_writes_nothing() {
    let mut builder = Builder::new();
    builder.advance_to(Position::InitialConsonant);
    assert_eq!(builder.finish(), "");
}

#[test]
fn two_vowels_make_two_syllables() {
    let mut builder = Builder::new();
    builder.push_vowel(Vowel::A);
    builder.push_vowel(Vowel::I);
    assert_eq!(builder.finish(), "아이");
}

#[test]
fn every_vowel_has_its_jamo() {
    let mut builder = Builder::new();
    for vowel in VOWELS {
        builder.push_vowel(vowel);
    }
    assert_eq!(builder.finish(), "애에오어아이우으위왜와워웨얘야여예요유");
}

#[test]
fn every_consonant_has_its_initial_jamo() {
    let mut builder = Builder::new();
    for consonant in CONSONANTS {
        builder.advance_to(Position::InitialConsonant);
        builder.push_consonant(consonant);
        builder.push_vowel(Vowel::A);
    }
    assert_eq!(builder.finish(), "바자다가사마나아라하카타차파빠까따");
}

#[test]
fn every_consonant_but_the_tense_ones_has_its_final_jamo() {
    let mut builder = Builder::new();
    for consonant in &CONSONANTS[..14] {
        builder.push_vowel(Vowel::A);
        builder.advance_to(Position::FinalConsonant);
        builder.push_consonant(*consonant);
    }
    assert_eq!(builder.finish(), "압앚앋악앗암안앙알앟앜앝앛앞");
}

#[test]
fn a_consonant_held_back_behind_a_bare_consonant_stays_bare() {
    let mut builder = Builder::new();
    builder.push_vowel(Vowel::A);
    builder.push_consonant(Consonant::N);
    builder.advance_to(Position::Vowel);
    builder.push_consonant(Consonant::M);
    assert_eq!(builder.finish(), "아\u{110B}\u{11AB}므");
}
