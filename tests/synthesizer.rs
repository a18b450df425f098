use parlador::{
    espeak_initialize, espeak_set_voice_by_name, espeak_terminate, espeak_text_to_phonemes,
    AudioOutput, AudioOutputType, Language, PhonemeFormat, StreamState, StreamingConfig,
    Synthesizer, SynthesizerError, VoiceConfig, SAMPLE_RATE,
};

#[test]
fn synthesizer_test_synthesizer_creation() {
    let synth = Synthesizer::new();
    assert!(synth.is_ok());
}

#[test]
fn test_text_to_phonemes_ipa() {
    let synth = Synthesizer::new().unwrap();
    let result = synth.text_to_phonemes("hello", PhonemeFormat::Ipa);
    assert!(result.is_ok());
    assert!(!result.unwrap().phonemes.is_empty());
}

#[test]
fn test_text_to_phonemes_ascii() {
    let synth = Synthesizer::new().unwrap();
    let result = synth.text_to_phonemes("hello", PhonemeFormat::Ascii);
    assert!(result.is_ok());
    assert!(!result.unwrap().phonemes.is_empty());
}

#[test]
fn test_streaming_config_builder() {
    let config = StreamingConfig::new().with_chunk_size(2048).with_prosody(false);

    assert_eq!(config.chunk_size, 2048);
    assert!(!config.enable_prosody);
}

#[test]
fn phoneme_results_carry_their_inputs() {
    let synth = Synthesizer::with_config(VoiceConfig::new(Language::Spanish)).unwrap();
    let r = synth.text_to_phonemes("aeiou", PhonemeFormat::Ascii).unwrap();
    assert_eq!(r.phonemes, "a e i o u");
    assert_eq!(r.text, "aeiou");
    assert_eq!(r.language, Language::Spanish);
    assert_eq!(r.format, PhonemeFormat::Ascii);
    let synth = Synthesizer::new().unwrap();
    assert_eq!(synth.text_to_phonemes("hello", PhonemeFormat::Ascii).unwrap().phonemes, "h E l o");
    assert_eq!(synth.text_to_phonemes("the", PhonemeFormat::Ascii).unwrap().phonemes, "D @");
    assert_eq!(synth.text_to_phonemes("hello", PhonemeFormat::Ipa).unwrap().phonemes, "hɛloʊ");
}

#[test]
fn setters_clamp_and_switch_language() {
    let mut synth = Synthesizer::new().unwrap();
    synth.set_rate(1000);
    synth.set_pitch(-128);
    synth.set_volume(250);
    assert_eq!(synth.config().rate, 500);
    assert_eq!(synth.config().pitch, -100);
    assert_eq!(synth.config().volume, 200);
    synth.set_language(Language::Spanish);
    assert_eq!(synth.g2p().language(), "es");
    assert_eq!(synth.sample_rate(), 22050);
    assert_eq!(Synthesizer::supported_languages(), vec![Language::English, Language::Spanish]);
}

#[test]
fn espeak_api_without_audio() {
    assert_eq!(espeak_initialize(AudioOutputType::Retrieval, 500, None, 0), Ok(SAMPLE_RATE as i32));
    assert!(espeak_set_voice_by_name("en").is_ok());
    assert_eq!(
        espeak_set_voice_by_name("fr"),
        Err(SynthesizerError::UnsupportedLanguage("fr".to_string()))
    );
    assert_eq!(espeak_text_to_phonemes("hello", "en", false).unwrap(), "h E l o");
    assert_eq!(espeak_text_to_phonemes("hello", "ENG", true).unwrap(), "hɛloʊ");
    assert_eq!(
        espeak_text_to_phonemes("hola", "xx", false),
        Err(SynthesizerError::UnsupportedLanguage("xx".to_string()))
    );
    espeak_terminate();
}

#[test]
fn audio_output_is_mono_at_engine_rate() {
    let a = AudioOutput::mono(vec![1, -1, 0]);
    assert_eq!(a.sample_rate, 22050);
    assert_eq!(a.channels, 1);
    assert!(!a.is_empty());
    assert!(AudioOutput::new(Vec::new(), 8000, 2).is_empty());
}

#[test]
fn chunks_concatenate_to_the_samples_fed() {
    let mut s = StreamState::new("h E l o", 4);
    assert_eq!(s.total_phonemes(), 4);
    let mut fed: Vec<i16> = Vec::new();
    let mut out: Vec<i16> = Vec::new();
    let mut finals = Vec::new();
    let mut n: i16 = 0;
    loop {
        while s.wants_samples() {
            match s.next_token() {
                Some(_) => {
                    let samples: Vec<i16> = (0..3).map(|k| n * 10 + k).collect();
                    n += 1;
                    fed.extend(&samples);
                    s.feed(&samples);
                }
                None => break,
            }
        }
        match s.next_chunk() {
            Some((chunk, last)) => {
                assert!(chunk.len() <= 4);
                out.extend(&chunk);
                finals.push(last);
            }
            None => break,
        }
    }
    assert_eq!(out, fed);
    assert_eq!(s.consumed(), 4);
    assert_eq!(finals.last(), Some(&true));
    assert!(finals[..finals.len() - 1].iter().all(|f| !f));
}

#[test]
fn chunk_size_has_a_floor() {
    assert_eq!(StreamingConfig::new().with_chunk_size(10).chunk_size, 256);
    assert_eq!(StreamingConfig::new().chunk_size, 1024);
}
