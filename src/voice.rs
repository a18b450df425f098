//! Language and voice configuration.
use vstd::prelude::*;
use crate::text::{lowercase, lower_of, str_eq};

verus! {

/// Supported languages for speech synthesis.
#[derive(Debug, Clone, Copy, PartialEq, Eq, Hash, Structural)]
pub enum Language {
    /// English language.
    English,
    /// Spanish language.
    Spanish,
}

/// The language that a lowercase code names, if any.
pub open spec fn language_of_code(c: Seq<char>) -> Option<Language> {
    if c == "en"@ || c == "eng"@ || c == "english"@ || c == "en-us"@ || c == "en-gb"@ {
        Some(Language::English)
    } else if c == "es"@ || c == "spa"@ || c == "spanish"@ || c == "es-es"@ || c == "es-mx"@ {
        Some(Language::Spanish)
    } else {
        None
    }
}

impl Language {
    /// The short code of the language.
    pub open spec fn spec_code(self) -> Seq<char> {
        match self {
            Language::English => "en"@,
            Language::Spanish => "es"@,
        }
    }

    /// Returns the language code.
    pub fn code(&self) -> (r: &'static str)
        ensures
            r@ == self.spec_code(),
    {
        match self {
            Language::English => "en",
            Language::Spanish => "es",
        }
    }

    /// Returns the full language name.
    pub fn name(&self) -> (r: &'static str)
        ensures
            r@ == (match self {
                Language::English => "English"@,
                Language::Spanish => "Spanish"@,
            }),
    {
        match self {
            Language::English => "English",
            Language::Spanish => "Spanish",
        }
    }

    /// Creates a Language from a language code, whatever its case:
    /// `en`, `eng`, `english`, `en-us`, `en-gb`, `es`, `spa`, `spanish`,
    /// `es-es`, `es-mx`.
    pub fn from_code(code: &str) -> (r: Option<Language>)
        ensures
            r == language_of_code(lower_of(code@)),
    {
        let low = lowercase(code);
        let c = low.as_str();
        if str_eq(c, "en") || str_eq(c, "eng") || str_eq(c, "english") || str_eq(c, "en-us")
            || str_eq(c, "en-gb") {
            Some(Language::English)
        } else if str_eq(c, "es") || str_eq(c, "spa") || str_eq(c, "spanish") || str_eq(c, "es-es")
            || str_eq(c, "es-mx") {
            Some(Language::Spanish)
        } else {
            None
        }
    }

}

impl Default for Language {
    /// English.
    fn default() -> (r: Language)
        ensures
            r == Language::English,
    {
        Language::English
    }
}

impl Default for VoiceVariant {
    /// The default variant.
    fn default() -> (r: VoiceVariant)
        ensures
            r == VoiceVariant::Default,
    {
        VoiceVariant::Default
    }
}

impl Default for VoiceConfig {
    /// English with the nominal rate, pitch and volume.
    fn default() -> (r: VoiceConfig)
        ensures
            r == VoiceConfig::new_spec(Language::English),
    {
        VoiceConfig::new(Language::English)
    }
}

/// Voice variant configuration.
#[derive(Debug, Clone, Copy, PartialEq, Eq, Hash, Structural)]
pub enum VoiceVariant {
    /// Default voice.
    Default,
    /// Male voice variant 1.
    Male1,
    /// Male voice variant 2.
    Male2,
    /// Male voice variant 3.
    Male3,
    /// Female voice variant 1.
    Female1,
    /// Female voice variant 2.
    Female2,
    /// Female voice variant 3.
    Female3,
}

impl VoiceVariant {
    /// The base fundamental frequency of the variant, in Hz.
    pub open spec fn spec_base_pitch_hz(self) -> u32 {
        match self {
            VoiceVariant::Default => 130,
            VoiceVariant::Male1 => 100,
            VoiceVariant::Male2 => 120,
            VoiceVariant::Male3 => 140,
            VoiceVariant::Female1 => 180,
            VoiceVariant::Female2 => 200,
            VoiceVariant::Female3 => 220,
        }
    }

    /// Returns the base pitch frequency for this variant, in Hz.
    pub fn base_pitch_hz(&self) -> (r: u32)
        ensures
            r == self.spec_base_pitch_hz(),
    {
        match self {
            VoiceVariant::Default => 130,
            VoiceVariant::Male1 => 100,
            VoiceVariant::Male2 => 120,
            VoiceVariant::Male3 => 140,
            VoiceVariant::Female1 => 180,
            VoiceVariant::Female2 => 200,
            VoiceVariant::Female3 => 220,
        }
    }

    /// Returns a human-readable name.
    pub fn name(&self) -> (r: &'static str)
        ensures
            r@ == (match self {
                VoiceVariant::Default => "Default"@,
                VoiceVariant::Male1 => "Male 1"@,
                VoiceVariant::Male2 => "Male 2"@,
                VoiceVariant::Male3 => "Male 3"@,
                VoiceVariant::Female1 => "Female 1"@,
                VoiceVariant::Female2 => "Female 2"@,
                VoiceVariant::Female3 => "Female 3"@,
            }),
    {
        match self {
            VoiceVariant::Default => "Default",
            VoiceVariant::Male1 => "Male 1",
            VoiceVariant::Male2 => "Male 2",
            VoiceVariant::Male3 => "Male 3",
            VoiceVariant::Female1 => "Female 1",
            VoiceVariant::Female2 => "Female 2",
            VoiceVariant::Female3 => "Female 3",
        }
    }
}

/// The rate, in words per minute, brought into `[50, 500]`.
pub open spec fn clamp_rate(r: int) -> int {
    if r < 50 { 50 } else if r > 500 { 500 } else { r }
}

/// The pitch adjustment brought into `[-100, 100]`.
pub open spec fn clamp_pitch(p: int) -> int {
    if p < -100 { -100 } else if p > 100 { 100 } else { p }
}

/// The volume brought into `[0, 200]`.
pub open spec fn clamp_volume(v: int) -> int {
    if v > 200 { 200 } else { v }
}

/// Configuration for a voice used in speech synthesis.
#[derive(Debug, Clone, PartialEq, Eq, Structural)]
pub struct VoiceConfig {
    /// The language for the voice.
    pub language: Language,
    /// The voice variant.
    pub variant: VoiceVariant,
    /// Speech rate (words per minute). Default is 175.
    pub rate: u32,
    /// Pitch adjustment (-100 to 100, 0 = default).
    pub pitch: i8,
    /// Volume (0-200, with 100 being normal). Default is 100.
    pub volume: u8,
}

impl VoiceConfig {
    /// Whether every parameter lies in its range.
    pub open spec fn in_range(self) -> bool {
        &&& 50 <= self.rate <= 500
        &&& -100 <= self.pitch <= 100
        &&& self.volume <= 200
    }

    /// Creates a new voice configuration with default settings.
    pub fn new(language: Language) -> (r: VoiceConfig)
        ensures
            r == (VoiceConfig {
                language,
                variant: VoiceVariant::Default,
                rate: 175,
                pitch: 0,
                volume: 100,
            }),
            r.in_range(),
    {
        VoiceConfig { language, variant: VoiceVariant::Default, rate: 175, pitch: 0, volume: 100 }
    }

    /// The configuration that `new` makes.
    pub open spec fn new_spec(language: Language) -> VoiceConfig {
        VoiceConfig { language, variant: VoiceVariant::Default, rate: 175, pitch: 0, volume: 100 }
    }

    /// Sets the voice variant.
    pub fn with_variant(self, variant: VoiceVariant) -> (r: VoiceConfig)
        ensures
            r == (VoiceConfig { variant, ..self }),
    {
        VoiceConfig { variant, ..self }
    }

    /// Sets the speech rate in words per minute, clamped to `[50, 500]`.
    pub fn with_rate(self, rate: u32) -> (r: VoiceConfig)
        ensures
            r == (VoiceConfig { rate: clamp_rate(rate as int) as u32, ..self }),
    {
        let rate = if rate < 50 {
            50
        } else if rate > 500 {
            500
        } else {
            rate
        };
        VoiceConfig { rate, ..self }
    }

    /// Sets the pitch adjustment, clamped to `[-100, 100]`.
    pub fn with_pitch(self, pitch: i8) -> (r: VoiceConfig)
        ensures
            r == (VoiceConfig { pitch: clamp_pitch(pitch as int) as i8, ..self }),
    {
        let pitch = if pitch < -100 {
            -100
        } else if pitch > 100 {
            100
        } else {
            pitch
        };
        VoiceConfig { pitch, ..self }
    }

    /// Sets the volume, clamped to at most 200.
    pub fn with_volume(self, volume: u8) -> (r: VoiceConfig)
        ensures
            r == (VoiceConfig { volume: clamp_volume(volume as int) as u8, ..self }),
    {
        let volume = if volume > 200 {
            200
        } else {
            volume
        };
        VoiceConfig { volume, ..self }
    }
}

/// Whatever rate, pitch and volume are asked for, a configuration built with
/// the setters keeps each of them in its range.
pub proof fn lemma_setters_clamp(c: VoiceConfig, r: u32, p: i8, v: u8)
    ensures
        (VoiceConfig {
            rate: clamp_rate(r as int) as u32,
            pitch: clamp_pitch(p as int) as i8,
            volume: clamp_volume(v as int) as u8,
            ..c
        }).in_range(),
{
}

} // verus!
