//! The error type of the engine.
use vstd::prelude::*;

verus! {

/// Errors that can occur during speech synthesis operations.
#[derive(Debug, Clone, PartialEq, Eq)]
pub enum SynthesizerError {
    /// Failed to initialize the speech synthesizer.
    InitializationError(String),
    /// Failed to set or get a voice configuration.
    VoiceError(String),
    /// Failed to synthesize speech from text, malformed SSML included.
    SynthesisError(String),
    /// The requested language is not supported.
    UnsupportedLanguage(String),
    /// Failed to generate phonemes.
    PhonemeError(String),
    /// Invalid phoneme input.
    InvalidPhoneme(String),
    /// A system or platform-specific error occurred.
    SystemError(String),
    /// Audio output error.
    AudioError(String),
}

} // verus!
