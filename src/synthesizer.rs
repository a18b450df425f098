//! The synthesizer facade's configuration and phoneme front end, and the
//! espeak-style free functions that need no audio.
use vstd::prelude::*;
use crate::error::SynthesizerError;
use crate::g2p::{G2PConverter, ascii_phonemes, ipa_phonemes, phonemes_to_ipa};
use crate::text::lower_of;
use crate::voice::{
    Language, VoiceConfig, clamp_pitch, clamp_rate, clamp_volume, language_of_code,
};
use crate::SAMPLE_RATE;

verus! {

/// Audio output: 16-bit signed PCM samples.
#[derive(Debug, Clone)]
pub struct AudioOutput {
    /// Raw audio samples (16-bit signed PCM).
    pub samples: Vec<i16>,
    /// Sample rate in Hz.
    pub sample_rate: u32,
    /// Number of audio channels (1 for mono).
    pub channels: u16,
}

impl AudioOutput {
    /// Creates a new audio output.
    pub fn new(samples: Vec<i16>, sample_rate: u32, channels: u16) -> (r: AudioOutput)
        ensures
            r.samples@ == samples@,
            r.sample_rate == sample_rate,
            r.channels == channels,
    {
        AudioOutput { samples, sample_rate, channels }
    }

    /// Mono audio at the engine's sample rate.
    pub fn mono(samples: Vec<i16>) -> (r: AudioOutput)
        ensures
            r.samples@ == samples@,
            r.sample_rate == SAMPLE_RATE,
            r.channels == 1,
    {
        AudioOutput { samples, sample_rate: SAMPLE_RATE, channels: 1 }
    }

    /// Returns true if the audio is empty.
    pub fn is_empty(&self) -> (r: bool)
        ensures
            r == (self.samples@.len() == 0),
    {
        self.samples.len() == 0
    }
}

/// Phoneme output format.
#[derive(Debug, Clone, Copy, PartialEq, Eq, Structural)]
pub enum PhonemeFormat {
    /// International Phonetic Alphabet.
    Ipa,
    /// The engine's ASCII phoneme symbols.
    Ascii,
}

impl Default for PhonemeFormat {
    /// IPA.
    fn default() -> (r: PhonemeFormat)
        ensures
            r == PhonemeFormat::Ipa,
    {
        PhonemeFormat::Ipa
    }
}

/// Result of phoneme generation.
#[derive(Debug, Clone)]
pub struct PhonemeResult {
    /// The input text.
    pub text: String,
    /// Generated phonemes.
    pub phonemes: String,
    /// The format of the phonemes.
    pub format: PhonemeFormat,
    /// The language used for phoneme generation.
    pub language: Language,
}

/// Audio output type, kept for compatibility with espeak's API.
#[derive(Debug, Clone, Copy, PartialEq, Eq, Structural)]
pub enum AudioOutputType {
    /// Playback through an audio device (audio is returned instead).
    Playback,
    /// Return audio in a buffer.
    Retrieval,
    /// Synchronous playback (audio is returned instead).
    SynchronousPlayback,
}

/// The speech synthesizer's voice configuration and per-language front ends.
pub struct Synthesizer {
    config: VoiceConfig,
    g2p_en: G2PConverter,
    g2p_es: G2PConverter,
}

impl Synthesizer {
    /// The voice configuration.
    pub closed spec fn spec_config(self) -> VoiceConfig {
        self.config
    }

    /// The front end of a language.
    pub closed spec fn spec_g2p(self, l: Language) -> G2PConverter {
        match l {
            Language::English => self.g2p_en,
            Language::Spanish => self.g2p_es,
        }
    }

    /// Each front end is the converter of its language.
    pub open spec fn wf(self) -> bool {
        forall|l: Language| #[trigger] self.spec_g2p(l).is_language(l)
    }

    /// Creates a synthesizer with the default voice (English).
    pub fn new() -> (r: Result<Synthesizer, SynthesizerError>)
        ensures
            r matches Ok(s) && s.wf() && s.spec_config() == VoiceConfig::new_spec(Language::English),
    {
        Synthesizer::with_config(VoiceConfig::new(Language::English))
    }

    /// Creates a synthesizer with the given voice configuration.
    pub fn with_config(config: VoiceConfig) -> (r: Result<Synthesizer, SynthesizerError>)
        ensures
            r matches Ok(s) && s.wf() && s.spec_config() == config,
    {
        let s = Synthesizer { config, g2p_en: G2PConverter::english(), g2p_es: G2PConverter::spanish() };
        assert forall|l: Language| #[trigger] s.spec_g2p(l).is_language(l) by {
            match l {
                Language::English => {},
                Language::Spanish => {},
            }
        }
        Ok(s)
    }

    /// Returns the current voice configuration.
    pub fn config(&self) -> (r: &VoiceConfig)
        ensures
            *r == self.spec_config(),
    {
        &self.config
    }

    /// Sets a new voice configuration.
    pub fn set_config(&mut self, config: VoiceConfig)
        ensures
            final(self).spec_config() == config,
            forall|l: Language| #[trigger] final(self).spec_g2p(l) == old(self).spec_g2p(l),
    {
        self.config = config;
    }

    /// Sets the language.
    pub fn set_language(&mut self, language: Language)
        ensures
            final(self).spec_config() == (VoiceConfig { language, ..old(self).spec_config() }),
            forall|l: Language| #[trigger] final(self).spec_g2p(l) == old(self).spec_g2p(l),
    {
        self.config.language = language;
    }

    /// Sets the speech rate in words per minute, clamped to `[50, 500]`.
    pub fn set_rate(&mut self, rate: u32)
        ensures
            final(self).spec_config() == (VoiceConfig {
                rate: clamp_rate(rate as int) as u32,
                ..old(self).spec_config()
            }),
            forall|l: Language| #[trigger] final(self).spec_g2p(l) == old(self).spec_g2p(l),
    {
        self.config.rate = if rate < 50 {
            50
        } else if rate > 500 {
            500
        } else {
            rate
        };
    }

    /// Sets the pitch adjustment, clamped to `[-100, 100]`.
    pub fn set_pitch(&mut self, pitch: i8)
        ensures
            final(self).spec_config() == (VoiceConfig {
                pitch: clamp_pitch(pitch as int) as i8,
                ..old(self).spec_config()
            }),
            forall|l: Language| #[trigger] final(self).spec_g2p(l) == old(self).spec_g2p(l),
    {
        self.config.pitch = if pitch < -100 {
            -100
        } else if pitch > 100 {
            100
        } else {
            pitch
        };
    }

    /// Sets the volume, clamped to at most 200.
    pub fn set_volume(&mut self, volume: u8)
        ensures
            final(self).spec_config() == (VoiceConfig {
                volume: clamp_volume(volume as int) as u8,
                ..old(self).spec_config()
            }),
            forall|l: Language| #[trigger] final(self).spec_g2p(l) == old(self).spec_g2p(l),
    {
        self.config.volume = if volume > 200 {
            200
        } else {
            volume
        };
    }

    /// The front end of the configured language.
    pub fn g2p(&self) -> (r: &G2PConverter)
        ensures
            *r == self.spec_g2p(self.spec_config().language),
    {
        match self.config.language {
            Language::English => &self.g2p_en,
            Language::Spanish => &self.g2p_es,
        }
    }

    /// The phonemes of a text in the configured language, as ASCII symbols
    /// or rendered in IPA.
    pub fn text_to_phonemes(&self, text: &str, format: PhonemeFormat) -> (r: Result<
        PhonemeResult,
        SynthesizerError,
    >)
        requires
            self.wf(),
        ensures
            r matches Ok(p) && {
                let l = self.spec_config().language;
                &&& p.text@ == text@
                &&& p.format == format
                &&& p.language == l
                &&& p.phonemes@ == (match format {
                    PhonemeFormat::Ascii => ascii_phonemes(l, text@),
                    PhonemeFormat::Ipa => ipa_phonemes(l, text@),
                })
            },
    {
        let g = self.g2p();
        assert(g.is_language(self.spec_config().language));
        let ascii = match g.convert(text) {
            Ok(p) => p,
            Err(e) => return Err(e),
        };
        let phonemes = match format {
            PhonemeFormat::Ascii => ascii,
            PhonemeFormat::Ipa => phonemes_to_ipa(g.inventory(), ascii.as_str()),
        };
        Ok(PhonemeResult { text: String::from_str(text), phonemes, format, language: self.config.language })
    }

    /// Gets the sample rate used for audio output.
    pub fn sample_rate(&self) -> (r: u32)
        ensures
            r == SAMPLE_RATE,
    {
        SAMPLE_RATE
    }

    /// Gets the supported languages.
    pub fn supported_languages() -> (r: Vec<Language>)
        ensures
            r@ == seq![Language::English, Language::Spanish],
    {
        let r = vec![Language::English, Language::Spanish];
        assert(r@ =~= seq![Language::English, Language::Spanish]);
        r
    }
}

/// Initializes the espeak-style API; returns the sample rate.
pub fn espeak_initialize(
    output: AudioOutputType,
    buffer_length: i32,
    path: Option<&str>,
    options: i32,
) -> (r: Result<i32, SynthesizerError>)
    ensures
        r == Ok::<i32, SynthesizerError>(SAMPLE_RATE as i32),
{
    Ok(SAMPLE_RATE as i32)
}

/// Checks a voice name (a language code) for the espeak-style API.
pub fn espeak_set_voice_by_name(name: &str) -> (r: Result<(), SynthesizerError>)
    ensures
        r is Ok <==> language_of_code(lower_of(name@)) is Some,
        r matches Err(e) ==> e matches SynthesizerError::UnsupportedLanguage(m) && m@ == name@,
{
    if Language::from_code(name).is_some() {
        Ok(())
    } else {
        Err(SynthesizerError::UnsupportedLanguage(String::from_str(name)))
    }
}

/// The phonemes of a text in the language a code names, in IPA or in ASCII
/// symbols; an unknown code is an unsupported language.
pub fn espeak_text_to_phonemes(text: &str, language: &str, ipa: bool) -> (r: Result<
    String,
    SynthesizerError,
>)
    ensures
        r is Ok <==> language_of_code(lower_of(language@)) is Some,
        r matches Err(e) ==> e matches SynthesizerError::UnsupportedLanguage(m) && m@ == language@,
        r matches Ok(p) ==> p@ == if ipa {
            ipa_phonemes(language_of_code(lower_of(language@))->0, text@)
        } else {
            ascii_phonemes(language_of_code(lower_of(language@))->0, text@)
        },
{
    let lang = match Language::from_code(language) {
        Some(l) => l,
        None => return Err(SynthesizerError::UnsupportedLanguage(String::from_str(language))),
    };
    let format = if ipa {
        PhonemeFormat::Ipa
    } else {
        PhonemeFormat::Ascii
    };
    let synth = match Synthesizer::with_config(VoiceConfig::new(lang)) {
        Ok(s) => s,
        Err(e) => return Err(e),
    };
    let r = synth.text_to_phonemes(text, format);
    match r {
        Ok(result) => Ok(result.phonemes),
        Err(e) => Err(e),
    }
}

/// Ends the espeak-style API; there is no state to release.
pub fn espeak_terminate() {
}

} // verus!
