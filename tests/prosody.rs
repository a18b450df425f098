use parlador::{PhraseAnalyzer, PitchContour, SentenceType};

#[test]
fn test_sentence_type_detection() {
    assert_eq!(SentenceType::detect("Hello."), SentenceType::Statement);
    assert_eq!(SentenceType::detect("Hello"), SentenceType::Statement);
    assert_eq!(SentenceType::detect("Are you there?"), SentenceType::Question);
    assert_eq!(SentenceType::detect("What time is it?"), SentenceType::WhQuestion);
    assert_eq!(SentenceType::detect("Wow!"), SentenceType::Exclamation);
}

#[test]
fn test_spanish_sentence_detection() {
    assert_eq!(SentenceType::detect("¿Cómo estás?"), SentenceType::WhQuestion);
    assert_eq!(SentenceType::detect("¡Hola!"), SentenceType::Exclamation);
}

#[test]
fn question_contours() {
    let q = SentenceType::detect("  Are you there?  ");
    assert_eq!(q, SentenceType::Question);
    assert_eq!(q.pitch_contour(), PitchContour::Rising);
    let wh = SentenceType::detect("¿Cómo estás?");
    assert_eq!(wh.pitch_contour(), PitchContour::FallingRising);
    assert_eq!(SentenceType::detect("HOW are you?"), SentenceType::WhQuestion);
    assert_eq!(SentenceType::Statement.pitch_contour(), PitchContour::Falling);
    assert_eq!(SentenceType::Exclamation.pitch_contour(), PitchContour::Emphasized);
    assert_eq!(SentenceType::Command.pitch_contour(), PitchContour::Flat);
    assert_eq!(SentenceType::detect(""), SentenceType::Statement);
    assert_eq!(SentenceType::detect("Howdy?"), SentenceType::Question);
    assert_eq!(SentenceType::detect("Whose is it?"), SentenceType::WhQuestion);
    assert_eq!(SentenceType::detect("¿Por qué no?"), SentenceType::WhQuestion);
}

#[test]
fn sentences_split_at_terminators() {
    assert_eq!(
        PhraseAnalyzer::split_sentences("Hello. How are you?"),
        vec!["Hello.".to_string(), "How are you?".to_string()]
    );
    assert_eq!(PhraseAnalyzer::split_sentences("Hello world"), vec!["Hello world".to_string()]);
    assert_eq!(PhraseAnalyzer::split_sentences("3.5 apples"), vec!["3.5 apples".to_string()]);
    assert_eq!(
        PhraseAnalyzer::split_sentences("a.B ¡Hola!"),
        vec!["a.".to_string(), "B ¡".to_string(), "Hola!".to_string()]
    );
    assert!(PhraseAnalyzer::split_sentences("   ").is_empty());
}
