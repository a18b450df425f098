//! The phoneme inventories of English and Spanish: for each symbol its IPA
//! form, category, nominal duration, formant targets and voicing.
use vstd::prelude::*;
use crate::text::str_eq;

verus! {

/// Formant frequencies and bandwidths, in Hz, of a voiced sound.
#[derive(Debug, Clone, Copy, PartialEq, Eq, Structural)]
pub struct FormantValues {
    /// First formant frequency (Hz).
    pub f1: u32,
    /// Second formant frequency (Hz).
    pub f2: u32,
    /// Third formant frequency (Hz).
    pub f3: u32,
    /// Bandwidth for F1 (Hz).
    pub b1: u32,
    /// Bandwidth for F2 (Hz).
    pub b2: u32,
    /// Bandwidth for F3 (Hz).
    pub b3: u32,
}

impl FormantValues {
    /// Creates formant values with the default bandwidths 60, 90 and 150 Hz.
    pub fn new(f1: u32, f2: u32, f3: u32) -> (r: FormantValues)
        ensures
            r == (FormantValues { f1, f2, f3, b1: 60, b2: 90, b3: 150 }),
    {
        FormantValues { f1, f2, f3, b1: 60, b2: 90, b3: 150 }
    }

    /// Creates formant values with the given bandwidths.
    pub fn with_bandwidths(f1: u32, f2: u32, f3: u32, b1: u32, b2: u32, b3: u32) -> (r:
        FormantValues)
        ensures
            r == (FormantValues { f1, f2, f3, b1, b2, b3 }),
    {
        FormantValues { f1, f2, f3, b1, b2, b3 }
    }
}

/// Categories of phonemes.
#[derive(Debug, Clone, Copy, PartialEq, Eq, Structural)]
pub enum PhonemeCategory {
    /// Vowel sounds (monophthongs).
    Vowel,
    /// Diphthong sounds.
    Diphthong,
    /// Plosive/stop consonants.
    Plosive,
    /// Fricative consonants.
    Fricative,
    /// Affricate consonants.
    Affricate,
    /// Nasal consonants.
    Nasal,
    /// Lateral consonants.
    Lateral,
    /// Rhotic consonants.
    Rhotic,
    /// Approximant consonants.
    Approximant,
    /// Silence/pause.
    Silence,
}

/// A phoneme with its acoustic properties.
#[derive(Debug, Clone)]
pub struct Phoneme {
    /// The phoneme symbol (ASCII representation).
    pub symbol: &'static str,
    /// IPA representation.
    pub ipa: &'static str,
    /// Phoneme category.
    pub category: PhonemeCategory,
    /// Duration in milliseconds (base value).
    pub duration_ms: u32,
    /// Formant targets, for vowel-like, nasal and approximant sounds.
    pub formants: Option<FormantValues>,
    /// Whether the sound is voiced.
    pub voiced: bool,
}

/// Phoneme inventory for a language: at most one phoneme per symbol.
#[derive(Debug, Clone)]
pub struct PhonemeInventory {
    phonemes: Vec<Phoneme>,
    /// Language code.
    pub language: &'static str,
}

/// The phonemes of English, in table order.
pub open spec fn english_phonemes() -> Seq<Phoneme> {
    seq![
        // Vowels (based on General American English)
        // Formant values are approximate averages for adult speakers
        Phoneme { symbol: "i", ipa: "iː", category: PhonemeCategory::Vowel, duration_ms: 120, formants: Some(FormantValues { f1: 270, f2: 2290, f3: 3010, b1: 60, b2: 90, b3: 150 }), voiced: true },
        Phoneme { symbol: "I", ipa: "ɪ", category: PhonemeCategory::Vowel, duration_ms: 100, formants: Some(FormantValues { f1: 390, f2: 1990, f3: 2550, b1: 60, b2: 90, b3: 150 }), voiced: true },
        Phoneme { symbol: "e", ipa: "eɪ", category: PhonemeCategory::Diphthong, duration_ms: 140, formants: Some(FormantValues { f1: 530, f2: 1840, f3: 2480, b1: 60, b2: 90, b3: 150 }), voiced: true },
        Phoneme { symbol: "E", ipa: "ɛ", category: PhonemeCategory::Vowel, duration_ms: 100, formants: Some(FormantValues { f1: 610, f2: 1900, f3: 2530, b1: 60, b2: 90, b3: 150 }), voiced: true },
        Phoneme { symbol: "&", ipa: "æ", category: PhonemeCategory::Vowel, duration_ms: 120, formants: Some(FormantValues { f1: 660, f2: 1720, f3: 2410, b1: 60, b2: 90, b3: 150 }), voiced: true },
        Phoneme { symbol: "A", ipa: "ɑː", category: PhonemeCategory::Vowel, duration_ms: 130, formants: Some(FormantValues { f1: 730, f2: 1090, f3: 2440, b1: 60, b2: 90, b3: 150 }), voiced: true },
        Phoneme { symbol: "O", ipa: "ɔː", category: PhonemeCategory::Vowel, duration_ms: 120, formants: Some(FormantValues { f1: 570, f2: 840, f3: 2410, b1: 60, b2: 90, b3: 150 }), voiced: true },
        Phoneme { symbol: "o", ipa: "oʊ", category: PhonemeCategory::Diphthong, duration_ms: 140, formants: Some(FormantValues { f1: 450, f2: 1030, f3: 2380, b1: 60, b2: 90, b3: 150 }), voiced: true },
        Phoneme { symbol: "U", ipa: "ʊ", category: PhonemeCategory::Vowel, duration_ms: 100, formants: Some(FormantValues { f1: 440, f2: 1020, f3: 2240, b1: 60, b2: 90, b3: 150 }), voiced: true },
        Phoneme { symbol: "u", ipa: "uː", category: PhonemeCategory::Vowel, duration_ms: 120, formants: Some(FormantValues { f1: 300, f2: 870, f3: 2240, b1: 60, b2: 90, b3: 150 }), voiced: true },
        Phoneme { symbol: "@", ipa: "ə", category: PhonemeCategory::Vowel, duration_ms: 80, formants: Some(FormantValues { f1: 500, f2: 1500, f3: 2500, b1: 60, b2: 90, b3: 150 }), voiced: true },
        Phoneme { symbol: "3", ipa: "ɜː", category: PhonemeCategory::Vowel, duration_ms: 120, formants: Some(FormantValues { f1: 580, f2: 1380, f3: 2530, b1: 60, b2: 90, b3: 150 }), voiced: true },
        // Diphthongs
        Phoneme { symbol: "aI", ipa: "aɪ", category: PhonemeCategory::Diphthong, duration_ms: 180, formants: Some(FormantValues { f1: 700, f2: 1200, f3: 2600, b1: 60, b2: 90, b3: 150 }), voiced: true },
        Phoneme { symbol: "aU", ipa: "aʊ", category: PhonemeCategory::Diphthong, duration_ms: 180, formants: Some(FormantValues { f1: 700, f2: 1000, f3: 2400, b1: 60, b2: 90, b3: 150 }), voiced: true },
        Phoneme { symbol: "OI", ipa: "ɔɪ", category: PhonemeCategory::Diphthong, duration_ms: 180, formants: Some(FormantValues { f1: 570, f2: 1000, f3: 2500, b1: 60, b2: 90, b3: 150 }), voiced: true },
        // Consonants - Plosives
        Phoneme { symbol: "p", ipa: "p", category: PhonemeCategory::Plosive, duration_ms: 60, formants: None, voiced: false },
        Phoneme { symbol: "b", ipa: "b", category: PhonemeCategory::Plosive, duration_ms: 60, formants: None, voiced: true },
        Phoneme { symbol: "t", ipa: "t", category: PhonemeCategory::Plosive, duration_ms: 60, formants: None, voiced: false },
        Phoneme { symbol: "d", ipa: "d", category: PhonemeCategory::Plosive, duration_ms: 60, formants: None, voiced: true },
        Phoneme { symbol: "k", ipa: "k", category: PhonemeCategory::Plosive, duration_ms: 60, formants: None, voiced: false },
        Phoneme { symbol: "g", ipa: "g", category: PhonemeCategory::Plosive, duration_ms: 60, formants: None, voiced: true },
        // Consonants - Fricatives
        Phoneme { symbol: "f", ipa: "f", category: PhonemeCategory::Fricative, duration_ms: 80, formants: None, voiced: false },
        Phoneme { symbol: "v", ipa: "v", category: PhonemeCategory::Fricative, duration_ms: 80, formants: None, voiced: true },
        Phoneme { symbol: "T", ipa: "θ", category: PhonemeCategory::Fricative, duration_ms: 80, formants: None, voiced: false },
        Phoneme { symbol: "D", ipa: "ð", category: PhonemeCategory::Fricative, duration_ms: 80, formants: None, voiced: true },
        Phoneme { symbol: "s", ipa: "s", category: PhonemeCategory::Fricative, duration_ms: 90, formants: None, voiced: false },
        Phoneme { symbol: "z", ipa: "z", category: PhonemeCategory::Fricative, duration_ms: 90, formants: None, voiced: true },
        Phoneme { symbol: "S", ipa: "ʃ", category: PhonemeCategory::Fricative, duration_ms: 100, formants: None, voiced: false },
        Phoneme { symbol: "Z", ipa: "ʒ", category: PhonemeCategory::Fricative, duration_ms: 100, formants: None, voiced: true },
        Phoneme { symbol: "h", ipa: "h", category: PhonemeCategory::Fricative, duration_ms: 60, formants: None, voiced: false },
        // Consonants - Affricates
        Phoneme { symbol: "tS", ipa: "tʃ", category: PhonemeCategory::Affricate, duration_ms: 110, formants: None, voiced: false },
        Phoneme { symbol: "dZ", ipa: "dʒ", category: PhonemeCategory::Affricate, duration_ms: 110, formants: None, voiced: true },
        // Consonants - Nasals
        Phoneme { symbol: "m", ipa: "m", category: PhonemeCategory::Nasal, duration_ms: 80, formants: Some(FormantValues { f1: 300, f2: 1000, f3: 2500, b1: 60, b2: 90, b3: 150 }), voiced: true },
        Phoneme { symbol: "n", ipa: "n", category: PhonemeCategory::Nasal, duration_ms: 80, formants: Some(FormantValues { f1: 300, f2: 1500, f3: 2500, b1: 60, b2: 90, b3: 150 }), voiced: true },
        Phoneme { symbol: "N", ipa: "ŋ", category: PhonemeCategory::Nasal, duration_ms: 80, formants: Some(FormantValues { f1: 300, f2: 2000, f3: 2500, b1: 60, b2: 90, b3: 150 }), voiced: true },
        // Consonants - Liquids/Approximants
        Phoneme { symbol: "l", ipa: "l", category: PhonemeCategory::Lateral, duration_ms: 70, formants: Some(FormantValues { f1: 350, f2: 1100, f3: 2700, b1: 60, b2: 90, b3: 150 }), voiced: true },
        Phoneme { symbol: "r", ipa: "ɹ", category: PhonemeCategory::Rhotic, duration_ms: 70, formants: Some(FormantValues { f1: 350, f2: 1300, f3: 1700, b1: 60, b2: 90, b3: 150 }), voiced: true },
        Phoneme { symbol: "w", ipa: "w", category: PhonemeCategory::Approximant, duration_ms: 60, formants: Some(FormantValues { f1: 300, f2: 700, f3: 2400, b1: 60, b2: 90, b3: 150 }), voiced: true },
        Phoneme { symbol: "j", ipa: "j", category: PhonemeCategory::Approximant, duration_ms: 60, formants: Some(FormantValues { f1: 280, f2: 2300, f3: 3000, b1: 60, b2: 90, b3: 150 }), voiced: true },
        // Silence
        Phoneme { symbol: "_", ipa: "", category: PhonemeCategory::Silence, duration_ms: 100, formants: None, voiced: false },
    ]
}

/// The phonemes of Spanish, in table order.
pub open spec fn spanish_phonemes() -> Seq<Phoneme> {
    seq![
        // Spanish Vowels (5 vowel system)
        Phoneme { symbol: "a", ipa: "a", category: PhonemeCategory::Vowel, duration_ms: 100, formants: Some(FormantValues { f1: 750, f2: 1200, f3: 2600, b1: 60, b2: 90, b3: 150 }), voiced: true },
        Phoneme { symbol: "e", ipa: "e", category: PhonemeCategory::Vowel, duration_ms: 100, formants: Some(FormantValues { f1: 450, f2: 1900, f3: 2500, b1: 60, b2: 90, b3: 150 }), voiced: true },
        Phoneme { symbol: "i", ipa: "i", category: PhonemeCategory::Vowel, duration_ms: 100, formants: Some(FormantValues { f1: 270, f2: 2300, f3: 3000, b1: 60, b2: 90, b3: 150 }), voiced: true },
        Phoneme { symbol: "o", ipa: "o", category: PhonemeCategory::Vowel, duration_ms: 100, formants: Some(FormantValues { f1: 500, f2: 900, f3: 2500, b1: 60, b2: 90, b3: 150 }), voiced: true },
        Phoneme { symbol: "u", ipa: "u", category: PhonemeCategory::Vowel, duration_ms: 100, formants: Some(FormantValues { f1: 300, f2: 800, f3: 2300, b1: 60, b2: 90, b3: 150 }), voiced: true },
        // Spanish Consonants - Plosives
        Phoneme { symbol: "p", ipa: "p", category: PhonemeCategory::Plosive, duration_ms: 60, formants: None, voiced: false },
        Phoneme { symbol: "b", ipa: "b", category: PhonemeCategory::Plosive, duration_ms: 60, formants: None, voiced: true },
        Phoneme { symbol: "t", ipa: "t", category: PhonemeCategory::Plosive, duration_ms: 60, formants: None, voiced: false },
        Phoneme { symbol: "d", ipa: "d", category: PhonemeCategory::Plosive, duration_ms: 60, formants: None, voiced: true },
        Phoneme { symbol: "k", ipa: "k", category: PhonemeCategory::Plosive, duration_ms: 60, formants: None, voiced: false },
        Phoneme { symbol: "g", ipa: "g", category: PhonemeCategory::Plosive, duration_ms: 60, formants: None, voiced: true },
        // Spanish Consonants - Fricatives
        Phoneme { symbol: "f", ipa: "f", category: PhonemeCategory::Fricative, duration_ms: 80, formants: None, voiced: false },
        Phoneme { symbol: "s", ipa: "s", category: PhonemeCategory::Fricative, duration_ms: 90, formants: None, voiced: false },
        Phoneme { symbol: "x", ipa: "x", category: PhonemeCategory::Fricative, duration_ms: 80, formants: None, voiced: false },
        Phoneme { symbol: "T", ipa: "θ", category: PhonemeCategory::Fricative, duration_ms: 80, formants: None, voiced: false },
        // Spanish Consonants - Affricates
        Phoneme { symbol: "tS", ipa: "tʃ", category: PhonemeCategory::Affricate, duration_ms: 100, formants: None, voiced: false },
        // Spanish Consonants - Nasals
        Phoneme { symbol: "m", ipa: "m", category: PhonemeCategory::Nasal, duration_ms: 80, formants: Some(FormantValues { f1: 300, f2: 1000, f3: 2500, b1: 60, b2: 90, b3: 150 }), voiced: true },
        Phoneme { symbol: "n", ipa: "n", category: PhonemeCategory::Nasal, duration_ms: 80, formants: Some(FormantValues { f1: 300, f2: 1500, f3: 2500, b1: 60, b2: 90, b3: 150 }), voiced: true },
        Phoneme { symbol: "J", ipa: "ɲ", category: PhonemeCategory::Nasal, duration_ms: 80, formants: Some(FormantValues { f1: 300, f2: 1900, f3: 2700, b1: 60, b2: 90, b3: 150 }), voiced: true },
        // Spanish Consonants - Liquids
        Phoneme { symbol: "l", ipa: "l", category: PhonemeCategory::Lateral, duration_ms: 70, formants: Some(FormantValues { f1: 350, f2: 1100, f3: 2700, b1: 60, b2: 90, b3: 150 }), voiced: true },
        Phoneme { symbol: "L", ipa: "ʎ", category: PhonemeCategory::Lateral, duration_ms: 80, formants: Some(FormantValues { f1: 300, f2: 1900, f3: 2700, b1: 60, b2: 90, b3: 150 }), voiced: true },
        Phoneme { symbol: "r", ipa: "ɾ", category: PhonemeCategory::Rhotic, duration_ms: 40, formants: Some(FormantValues { f1: 400, f2: 1400, f3: 2200, b1: 60, b2: 90, b3: 150 }), voiced: true },
        Phoneme { symbol: "rr", ipa: "r", category: PhonemeCategory::Rhotic, duration_ms: 120, formants: Some(FormantValues { f1: 400, f2: 1400, f3: 2200, b1: 60, b2: 90, b3: 150 }), voiced: true },
        // Spanish Consonants - Approximants
        Phoneme { symbol: "j", ipa: "j", category: PhonemeCategory::Approximant, duration_ms: 60, formants: Some(FormantValues { f1: 280, f2: 2300, f3: 3000, b1: 60, b2: 90, b3: 150 }), voiced: true },
        Phoneme { symbol: "w", ipa: "w", category: PhonemeCategory::Approximant, duration_ms: 60, formants: Some(FormantValues { f1: 300, f2: 700, f3: 2400, b1: 60, b2: 90, b3: 150 }), voiced: true },
        // Silence
        Phoneme { symbol: "_", ipa: "", category: PhonemeCategory::Silence, duration_ms: 100, formants: None, voiced: false },
    ]
}

/// The first phoneme of `ps` with symbol `s`.
pub open spec fn first_phoneme(ps: Seq<Phoneme>, s: Seq<char>) -> Option<Phoneme>
    decreases ps.len(),
{
    if ps.len() == 0 {
        None
    } else if ps[0].symbol@ == s {
        Some(ps[0])
    } else {
        first_phoneme(ps.drop_first(), s)
    }
}

impl PhonemeInventory {
    /// The phonemes of the inventory, in table order.
    pub closed spec fn entries(self) -> Seq<Phoneme> {
        self.phonemes@
    }

    /// The language code of the inventory.
    pub closed spec fn lang(self) -> Seq<char> {
        self.language@
    }

    /// The phoneme with symbol `s`, if any.
    pub open spec fn phoneme_for(self, s: Seq<char>) -> Option<Phoneme> {
        first_phoneme(self.entries(), s)
    }

    /// Whether a phoneme of the inventory has the symbol `s`.
    pub open spec fn has_symbol(self, s: Seq<char>) -> bool {
        self.phoneme_for(s) is Some
    }

    /// The IPA form of the phoneme with symbol `s`.
    pub open spec fn ipa_for(self, s: Seq<char>) -> Seq<char> {
        self.phoneme_for(s)->0.ipa@
    }

    /// Creates the inventory for English.
    pub fn english() -> (r: PhonemeInventory)
        ensures
            r.entries() == english_phonemes(),
            r.lang() == "en"@,
    {
        let phonemes = vec![
            // Vowels (based on General American English)
            // Formant values are approximate averages for adult speakers
            Phoneme { symbol: "i", ipa: "iː", category: PhonemeCategory::Vowel, duration_ms: 120, formants: Some(FormantValues { f1: 270, f2: 2290, f3: 3010, b1: 60, b2: 90, b3: 150 }), voiced: true },
            Phoneme { symbol: "I", ipa: "ɪ", category: PhonemeCategory::Vowel, duration_ms: 100, formants: Some(FormantValues { f1: 390, f2: 1990, f3: 2550, b1: 60, b2: 90, b3: 150 }), voiced: true },
            Phoneme { symbol: "e", ipa: "eɪ", category: PhonemeCategory::Diphthong, duration_ms: 140, formants: Some(FormantValues { f1: 530, f2: 1840, f3: 2480, b1: 60, b2: 90, b3: 150 }), voiced: true },
            Phoneme { symbol: "E", ipa: "ɛ", category: PhonemeCategory::Vowel, duration_ms: 100, formants: Some(FormantValues { f1: 610, f2: 1900, f3: 2530, b1: 60, b2: 90, b3: 150 }), voiced: true },
            Phoneme { symbol: "&", ipa: "æ", category: PhonemeCategory::Vowel, duration_ms: 120, formants: Some(FormantValues { f1: 660, f2: 1720, f3: 2410, b1: 60, b2: 90, b3: 150 }), voiced: true },
            Phoneme { symbol: "A", ipa: "ɑː", category: PhonemeCategory::Vowel, duration_ms: 130, formants: Some(FormantValues { f1: 730, f2: 1090, f3: 2440, b1: 60, b2: 90, b3: 150 }), voiced: true },
            Phoneme { symbol: "O", ipa: "ɔː", category: PhonemeCategory::Vowel, duration_ms: 120, formants: Some(FormantValues { f1: 570, f2: 840, f3: 2410, b1: 60, b2: 90, b3: 150 }), voiced: true },
            Phoneme { symbol: "o", ipa: "oʊ", category: PhonemeCategory::Diphthong, duration_ms: 140, formants: Some(FormantValues { f1: 450, f2: 1030, f3: 2380, b1: 60, b2: 90, b3: 150 }), voiced: true },
            Phoneme { symbol: "U", ipa: "ʊ", category: PhonemeCategory::Vowel, duration_ms: 100, formants: Some(FormantValues { f1: 440, f2: 1020, f3: 2240, b1: 60, b2: 90, b3: 150 }), voiced: true },
            Phoneme { symbol: "u", ipa: "uː", category: PhonemeCategory::Vowel, duration_ms: 120, formants: Some(FormantValues { f1: 300, f2: 870, f3: 2240, b1: 60, b2: 90, b3: 150 }), voiced: true },
            Phoneme { symbol: "@", ipa: "ə", category: PhonemeCategory::Vowel, duration_ms: 80, formants: Some(FormantValues { f1: 500, f2: 1500, f3: 2500, b1: 60, b2: 90, b3: 150 }), voiced: true },
            Phoneme { symbol: "3", ipa: "ɜː", category: PhonemeCategory::Vowel, duration_ms: 120, formants: Some(FormantValues { f1: 580, f2: 1380, f3: 2530, b1: 60, b2: 90, b3: 150 }), voiced: true },
            // Diphthongs
            Phoneme { symbol: "aI", ipa: "aɪ", category: PhonemeCategory::Diphthong, duration_ms: 180, formants: Some(FormantValues { f1: 700, f2: 1200, f3: 2600, b1: 60, b2: 90, b3: 150 }), voiced: true },
            Phoneme { symbol: "aU", ipa: "aʊ", category: PhonemeCategory::Diphthong, duration_ms: 180, formants: Some(FormantValues { f1: 700, f2: 1000, f3: 2400, b1: 60, b2: 90, b3: 150 }), voiced: true },
            Phoneme { symbol: "OI", ipa: "ɔɪ", category: PhonemeCategory::Diphthong, duration_ms: 180, formants: Some(FormantValues { f1: 570, f2: 1000, f3: 2500, b1: 60, b2: 90, b3: 150 }), voiced: true },
            // Consonants - Plosives
            Phoneme { symbol: "p", ipa: "p", category: PhonemeCategory::Plosive, duration_ms: 60, formants: None, voiced: false },
            Phoneme { symbol: "b", ipa: "b", category: PhonemeCategory::Plosive, duration_ms: 60, formants: None, voiced: true },
            Phoneme { symbol: "t", ipa: "t", category: PhonemeCategory::Plosive, duration_ms: 60, formants: None, voiced: false },
            Phoneme { symbol: "d", ipa: "d", category: PhonemeCategory::Plosive, duration_ms: 60, formants: None, voiced: true },
            Phoneme { symbol: "k", ipa: "k", category: PhonemeCategory::Plosive, duration_ms: 60, formants: None, voiced: false },
            Phoneme { symbol: "g", ipa: "g", category: PhonemeCategory::Plosive, duration_ms: 60, formants: None, voiced: true },
            // Consonants - Fricatives
            Phoneme { symbol: "f", ipa: "f", category: PhonemeCategory::Fricative, duration_ms: 80, formants: None, voiced: false },
            Phoneme { symbol: "v", ipa: "v", category: PhonemeCategory::Fricative, duration_ms: 80, formants: None, voiced: true },
            Phoneme { symbol: "T", ipa: "θ", category: PhonemeCategory::Fricative, duration_ms: 80, formants: None, voiced: false },
            Phoneme { symbol: "D", ipa: "ð", category: PhonemeCategory::Fricative, duration_ms: 80, formants: None, voiced: true },
            Phoneme { symbol: "s", ipa: "s", category: PhonemeCategory::Fricative, duration_ms: 90, formants: None, voiced: false },
            Phoneme { symbol: "z", ipa: "z", category: PhonemeCategory::Fricative, duration_ms: 90, formants: None, voiced: true },
            Phoneme { symbol: "S", ipa: "ʃ", category: PhonemeCategory::Fricative, duration_ms: 100, formants: None, voiced: false },
            Phoneme { symbol: "Z", ipa: "ʒ", category: PhonemeCategory::Fricative, duration_ms: 100, formants: None, voiced: true },
            Phoneme { symbol: "h", ipa: "h", category: PhonemeCategory::Fricative, duration_ms: 60, formants: None, voiced: false },
            // Consonants - Affricates
            Phoneme { symbol: "tS", ipa: "tʃ", category: PhonemeCategory::Affricate, duration_ms: 110, formants: None, voiced: false },
            Phoneme { symbol: "dZ", ipa: "dʒ", category: PhonemeCategory::Affricate, duration_ms: 110, formants: None, voiced: true },
            // Consonants - Nasals
            Phoneme { symbol: "m", ipa: "m", category: PhonemeCategory::Nasal, duration_ms: 80, formants: Some(FormantValues { f1: 300, f2: 1000, f3: 2500, b1: 60, b2: 90, b3: 150 }), voiced: true },
            Phoneme { symbol: "n", ipa: "n", category: PhonemeCategory::Nasal, duration_ms: 80, formants: Some(FormantValues { f1: 300, f2: 1500, f3: 2500, b1: 60, b2: 90, b3: 150 }), voiced: true },
            Phoneme { symbol: "N", ipa: "ŋ", category: PhonemeCategory::Nasal, duration_ms: 80, formants: Some(FormantValues { f1: 300, f2: 2000, f3: 2500, b1: 60, b2: 90, b3: 150 }), voiced: true },
            // Consonants - Liquids/Approximants
            Phoneme { symbol: "l", ipa: "l", category: PhonemeCategory::Lateral, duration_ms: 70, formants: Some(FormantValues { f1: 350, f2: 1100, f3: 2700, b1: 60, b2: 90, b3: 150 }), voiced: true },
            Phoneme { symbol: "r", ipa: "ɹ", category: PhonemeCategory::Rhotic, duration_ms: 70, formants: Some(FormantValues { f1: 350, f2: 1300, f3: 1700, b1: 60, b2: 90, b3: 150 }), voiced: true },
            Phoneme { symbol: "w", ipa: "w", category: PhonemeCategory::Approximant, duration_ms: 60, formants: Some(FormantValues { f1: 300, f2: 700, f3: 2400, b1: 60, b2: 90, b3: 150 }), voiced: true },
            Phoneme { symbol: "j", ipa: "j", category: PhonemeCategory::Approximant, duration_ms: 60, formants: Some(FormantValues { f1: 280, f2: 2300, f3: 3000, b1: 60, b2: 90, b3: 150 }), voiced: true },
            // Silence
            Phoneme { symbol: "_", ipa: "", category: PhonemeCategory::Silence, duration_ms: 100, formants: None, voiced: false },
        ];
        let r = PhonemeInventory { phonemes, language: "en" };
        assert(r.entries() =~= english_phonemes());
        r
    }

    /// Creates the inventory for Spanish.
    pub fn spanish() -> (r: PhonemeInventory)
        ensures
            r.entries() == spanish_phonemes(),
            r.lang() == "es"@,
    {
        let phonemes = vec![
            // Spanish Vowels (5 vowel system)
            Phoneme { symbol: "a", ipa: "a", category: PhonemeCategory::Vowel, duration_ms: 100, formants: Some(FormantValues { f1: 750, f2: 1200, f3: 2600, b1: 60, b2: 90, b3: 150 }), voiced: true },
            Phoneme { symbol: "e", ipa: "e", category: PhonemeCategory::Vowel, duration_ms: 100, formants: Some(FormantValues { f1: 450, f2: 1900, f3: 2500, b1: 60, b2: 90, b3: 150 }), voiced: true },
            Phoneme { symbol: "i", ipa: "i", category: PhonemeCategory::Vowel, duration_ms: 100, formants: Some(FormantValues { f1: 270, f2: 2300, f3: 3000, b1: 60, b2: 90, b3: 150 }), voiced: true },
            Phoneme { symbol: "o", ipa: "o", category: PhonemeCategory::Vowel, duration_ms: 100, formants: Some(FormantValues { f1: 500, f2: 900, f3: 2500, b1: 60, b2: 90, b3: 150 }), voiced: true },
            Phoneme { symbol: "u", ipa: "u", category: PhonemeCategory::Vowel, duration_ms: 100, formants: Some(FormantValues { f1: 300, f2: 800, f3: 2300, b1: 60, b2: 90, b3: 150 }), voiced: true },
            // Spanish Consonants - Plosives
            Phoneme { symbol: "p", ipa: "p", category: PhonemeCategory::Plosive, duration_ms: 60, formants: None, voiced: false },
            Phoneme { symbol: "b", ipa: "b", category: PhonemeCategory::Plosive, duration_ms: 60, formants: None, voiced: true },
            Phoneme { symbol: "t", ipa: "t", category: PhonemeCategory::Plosive, duration_ms: 60, formants: None, voiced: false },
            Phoneme { symbol: "d", ipa: "d", category: PhonemeCategory::Plosive, duration_ms: 60, formants: None, voiced: true },
            Phoneme { symbol: "k", ipa: "k", category: PhonemeCategory::Plosive, duration_ms: 60, formants: None, voiced: false },
            Phoneme { symbol: "g", ipa: "g", category: PhonemeCategory::Plosive, duration_ms: 60, formants: None, voiced: true },
            // Spanish Consonants - Fricatives
            Phoneme { symbol: "f", ipa: "f", category: PhonemeCategory::Fricative, duration_ms: 80, formants: None, voiced: false },
            Phoneme { symbol: "s", ipa: "s", category: PhonemeCategory::Fricative, duration_ms: 90, formants: None, voiced: false },
            Phoneme { symbol: "x", ipa: "x", category: PhonemeCategory::Fricative, duration_ms: 80, formants: None, voiced: false },
            Phoneme { symbol: "T", ipa: "θ", category: PhonemeCategory::Fricative, duration_ms: 80, formants: None, voiced: false },
            // Spanish Consonants - Affricates
            Phoneme { symbol: "tS", ipa: "tʃ", category: PhonemeCategory::Affricate, duration_ms: 100, formants: None, voiced: false },
            // Spanish Consonants - Nasals
            Phoneme { symbol: "m", ipa: "m", category: PhonemeCategory::Nasal, duration_ms: 80, formants: Some(FormantValues { f1: 300, f2: 1000, f3: 2500, b1: 60, b2: 90, b3: 150 }), voiced: true },
            Phoneme { symbol: "n", ipa: "n", category: PhonemeCategory::Nasal, duration_ms: 80, formants: Some(FormantValues { f1: 300, f2: 1500, f3: 2500, b1: 60, b2: 90, b3: 150 }), voiced: true },
            Phoneme { symbol: "J", ipa: "ɲ", category: PhonemeCategory::Nasal, duration_ms: 80, formants: Some(FormantValues { f1: 300, f2: 1900, f3: 2700, b1: 60, b2: 90, b3: 150 }), voiced: true },
            // Spanish Consonants - Liquids
            Phoneme { symbol: "l", ipa: "l", category: PhonemeCategory::Lateral, duration_ms: 70, formants: Some(FormantValues { f1: 350, f2: 1100, f3: 2700, b1: 60, b2: 90, b3: 150 }), voiced: true },
            Phoneme { symbol: "L", ipa: "ʎ", category: PhonemeCategory::Lateral, duration_ms: 80, formants: Some(FormantValues { f1: 300, f2: 1900, f3: 2700, b1: 60, b2: 90, b3: 150 }), voiced: true },
            Phoneme { symbol: "r", ipa: "ɾ", category: PhonemeCategory::Rhotic, duration_ms: 40, formants: Some(FormantValues { f1: 400, f2: 1400, f3: 2200, b1: 60, b2: 90, b3: 150 }), voiced: true },
            Phoneme { symbol: "rr", ipa: "r", category: PhonemeCategory::Rhotic, duration_ms: 120, formants: Some(FormantValues { f1: 400, f2: 1400, f3: 2200, b1: 60, b2: 90, b3: 150 }), voiced: true },
            // Spanish Consonants - Approximants
            Phoneme { symbol: "j", ipa: "j", category: PhonemeCategory::Approximant, duration_ms: 60, formants: Some(FormantValues { f1: 280, f2: 2300, f3: 3000, b1: 60, b2: 90, b3: 150 }), voiced: true },
            Phoneme { symbol: "w", ipa: "w", category: PhonemeCategory::Approximant, duration_ms: 60, formants: Some(FormantValues { f1: 300, f2: 700, f3: 2400, b1: 60, b2: 90, b3: 150 }), voiced: true },
            // Silence
            Phoneme { symbol: "_", ipa: "", category: PhonemeCategory::Silence, duration_ms: 100, formants: None, voiced: false },
        ];
        let r = PhonemeInventory { phonemes, language: "es" };
        assert(r.entries() =~= spanish_phonemes());
        r
    }

    /// Gets the phoneme with the given symbol.
    pub fn get(&self, symbol: &str) -> (r: Option<&Phoneme>)
        ensures
            match r {
                Some(p) => self.phoneme_for(symbol@) == Some(*p),
                None => self.phoneme_for(symbol@) is None,
            },
    {
        let mut i: usize = 0;
        proof {
            assert(self.entries().subrange(0, self.entries().len() as int) =~= self.entries());
        }
        while i < self.phonemes.len()
            invariant
                i <= self.phonemes.len(),
                first_phoneme(self.entries(), symbol@) == first_phoneme(
                    self.entries().subrange(i as int, self.entries().len() as int),
                    symbol@,
                ),
            decreases self.phonemes.len() - i,
        {
            proof {
                assert(self.entries().subrange(i as int, self.entries().len() as int).drop_first()
                    =~= self.entries().subrange(i + 1, self.entries().len() as int));
            }
            if str_eq(self.phonemes[i].symbol, symbol) {
                assert(self.entries().subrange(i as int, self.entries().len() as int)[0]
                    == self.phonemes@[i as int]);
                return Some(&self.phonemes[i]);
            }
            i += 1;
        }
        None
    }

    /// Returns all phonemes in the inventory.
    pub fn all(&self) -> (r: &Vec<Phoneme>)
        ensures
            r@ == self.entries(),
    {
        &self.phonemes
    }

    /// Returns the number of phonemes in the inventory.
    pub fn len(&self) -> (r: usize)
        ensures
            r == self.entries().len(),
    {
        self.phonemes.len()
    }

    /// Returns true if the inventory is empty.
    pub fn is_empty(&self) -> (r: bool)
        ensures
            r == (self.entries().len() == 0),
    {
        self.phonemes.len() == 0
    }
}

} // verus!
