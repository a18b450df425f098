//! A self-contained text-to-speech front end for English and Spanish:
//! grapheme-to-phoneme rewriting, phoneme inventories, sentence-type
//! prosody planning, an SSML reader and the chunking of streamed audio.
use vstd::prelude::*;

pub mod text;
pub mod error;
pub mod voice;
pub mod phoneme;
pub mod g2p;
pub mod prosody;
pub mod ssml;
pub mod synthesizer;
pub mod streaming;

pub use error::SynthesizerError;
pub use g2p::{text_to_ipa, G2PConverter};
pub use phoneme::{FormantValues, Phoneme, PhonemeCategory, PhonemeInventory};
pub use prosody::{PhraseAnalyzer, PitchContour, SentenceType, StressLevel};
pub use ssml::{
    BreakSpec, BreakStrength, EmphasisLevel, ProsodySpec, ProsodyStep, SsmlDocument, SsmlElement,
    SsmlParser, SynthesisSegment,
};
pub use streaming::{StreamState, StreamingConfig, DEFAULT_CHUNK_SIZE};
pub use synthesizer::{
    espeak_initialize, espeak_set_voice_by_name, espeak_terminate, espeak_text_to_phonemes,
    AudioOutput, AudioOutputType, PhonemeFormat, PhonemeResult, Synthesizer,
};
pub use voice::{Language, VoiceConfig, VoiceVariant};

verus! {

/// Sample rate of all audio the engine produces, in Hz.
pub const SAMPLE_RATE: u32 = 22050;

} // verus!
