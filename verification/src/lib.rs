//! Approximates the pronunciation of a word in Hangul.
//!
//! A word is looked up in a pronouncing dictionary ([`darpabet`]), which
//! gives its pronunciation in ARPABET symbols and spells these
//! phonetically. The conversion ([`ipa_to_hangul`]) reads phonetic text
//! symbol by symbol and writes it with the consonants and vowels of Hangul,
//! which a builder ([`hangul_builder`]) assembles into syllables. The
//! jamo of the syllables are composed into blocks by normalization
//! ([`jamo`]).
//!
//! What holds of every conversion is proved in [`conversion_laws`]. Texts of
//! several words are handled in [`phrase`], and what an online dictionary
//! gives for a word in [`word_lookup`].

pub mod conversion_laws;
pub mod darpabet;
pub mod hangul_builder;
pub mod ipa_to_hangul;
pub mod jamo;
pub mod phrase;
pub mod text;
pub mod word_lookup;
