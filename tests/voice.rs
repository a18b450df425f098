use parlador::{Language, VoiceConfig, VoiceVariant};

#[test]
fn test_language_codes() {
    assert_eq!(Language::English.code(), "en");
    assert_eq!(Language::Spanish.code(), "es");
}

#[test]
fn test_language_from_code() {
    assert_eq!(Language::from_code("en"), Some(Language::English));
    assert_eq!(Language::from_code("english"), Some(Language::English));
    assert_eq!(Language::from_code("es"), Some(Language::Spanish));
    assert_eq!(Language::from_code("spanish"), Some(Language::Spanish));
    assert_eq!(Language::from_code("fr"), None);
}

#[test]
fn test_voice_config_builder() {
    let config = VoiceConfig::new(Language::Spanish)
        .with_variant(VoiceVariant::Female1)
        .with_rate(200)
        .with_pitch(20)
        .with_volume(150);

    assert_eq!(config.language, Language::Spanish);
    assert_eq!(config.variant, VoiceVariant::Female1);
    assert_eq!(config.rate, 200);
    assert_eq!(config.pitch, 20);
    assert_eq!(config.volume, 150);
}

#[test]
fn test_rate_clamping() {
    let config = VoiceConfig::new(Language::English).with_rate(1000);
    assert_eq!(config.rate, 500);

    let config = VoiceConfig::new(Language::English).with_rate(10);
    assert_eq!(config.rate, 50);
}

#[test]
fn language_codes_ignore_case_and_accept_regions() {
    assert_eq!(Language::from_code("EN"), Some(Language::English));
    assert_eq!(Language::from_code("En-Gb"), Some(Language::English));
    assert_eq!(Language::from_code("ES-MX"), Some(Language::Spanish));
    assert_eq!(Language::from_code("spa"), Some(Language::Spanish));
    assert_eq!(Language::from_code(""), None);
    assert_eq!(Language::Spanish.name(), "Spanish");
}

#[test]
fn setters_clamp_every_parameter() {
    let c = VoiceConfig::new(Language::English)
        .with_rate(u32::MAX)
        .with_pitch(i8::MIN)
        .with_volume(u8::MAX);
    assert_eq!(c.rate, 500);
    assert_eq!(c.pitch, -100);
    assert_eq!(c.volume, 200);
    let c = c.with_rate(0).with_pitch(i8::MAX).with_volume(0);
    assert_eq!(c.rate, 50);
    assert_eq!(c.pitch, 100);
    assert_eq!(c.volume, 0);
}

#[test]
fn variants_have_fixed_base_pitch() {
    assert_eq!(VoiceVariant::Default.base_pitch_hz(), 130);
    assert_eq!(VoiceVariant::Male1.base_pitch_hz(), 100);
    assert_eq!(VoiceVariant::Female3.base_pitch_hz(), 220);
    assert_eq!(VoiceVariant::Male2.name(), "Male 2");
}
