use parlador::ssml::{break_duration, parse_duration, silence_samples};
use parlador::{
    BreakStrength, EmphasisLevel, PitchContour, ProsodyStep, SsmlElement, SsmlParser,
    SynthesizerError,
};

#[test]
fn test_parse_plain_text() {
    let doc = SsmlParser::parse("Hello world").unwrap();
    assert_eq!(doc.to_plain_text(), "Hello world");
}

#[test]
fn test_parse_speak_element() {
    let ssml = "<speak>Hello world</speak>";
    let doc = SsmlParser::parse(ssml).unwrap();
    assert_eq!(doc.to_plain_text(), "Hello world");
}

#[test]
fn test_parse_break() {
    let ssml = "<speak>Hello<break time=\"500ms\"/>world</speak>";
    let doc = SsmlParser::parse(ssml).unwrap();
    assert!(doc.to_plain_text().contains("Hello"));
    assert!(doc.to_plain_text().contains("world"));
}

#[test]
fn test_is_ssml() {
    assert!(SsmlParser::is_ssml("<speak>Hello</speak>"));
    assert!(SsmlParser::is_ssml("<?xml version=\"1.0\"?><speak>Hello</speak>"));
    assert!(!SsmlParser::is_ssml("Hello world"));
}

#[test]
fn test_duration_parsing() {
    assert_eq!(parse_duration("500ms"), 500);
    assert_eq!(parse_duration("1s"), 1000);
    assert_eq!(parse_duration("2.5s"), 2500);
}

#[test]
fn test_nested_elements() {
    let ssml = r#"
            <speak>
                <p>First paragraph.</p>
                <p><emphasis level="strong">Important</emphasis> text.</p>
            </speak>
        "#;
    let doc = SsmlParser::parse(ssml).unwrap();
    let text = doc.to_plain_text();
    assert!(text.contains("First"));
    assert!(text.contains("Important"));
}

#[test]
fn durations_in_other_forms() {
    assert_eq!(parse_duration("2s"), 2000);
    assert_eq!(parse_duration(" 1.5S "), 1500);
    assert_eq!(parse_duration("0.0015s"), 1);
    assert_eq!(parse_duration("250"), 250);
    assert_eq!(parse_duration("+40ms"), 40);
    assert_eq!(parse_duration("fast"), 0);
    assert_eq!(parse_duration("99999999s"), u32::MAX);
}

#[test]
fn break_segment_is_a_sentinel() {
    let doc = SsmlParser::parse("<speak>Hello<break time=\"500ms\"/>world</speak>").unwrap();
    let segs = doc.to_synthesis_segments();
    let texts: Vec<&str> = segs.iter().map(|s| s.text.as_str()).collect();
    assert_eq!(texts, vec!["Hello", "__break_500__", "world"]);
    assert!(segs[1].prosody.is_empty());
    let doc = SsmlParser::parse("<speak><break strength=\"x-strong\"/></speak>").unwrap();
    assert_eq!(doc.to_synthesis_segments()[0].text, "__break_1000__");
}

#[test]
fn prosody_attributes_reach_the_segment() {
    let doc =
        SsmlParser::parse("<speak><prosody rate=\"fast\" pitch=\"high\">x</prosody></speak>").unwrap();
    let segs = doc.to_synthesis_segments();
    assert_eq!(segs.len(), 1);
    assert_eq!(segs[0].text, "x");
    match &segs[0].prosody[..] {
        [ProsodyStep::Prosody(p)] => {
            assert_eq!(p.rate.as_deref(), Some("fast"));
            assert_eq!(p.pitch.as_deref(), Some("high"));
            assert_eq!(p.volume, None);
            assert_eq!(p.contour, PitchContour::Flat);
        }
        _ => panic!("expected one prosody step"),
    }
}

#[test]
fn emphasis_and_nesting_keep_order() {
    let doc = SsmlParser::parse(
        "<speak><prosody contour=\"(0%,+0%) (100%,+20%)\"><emphasis level=\"STRONG\">a</emphasis>b</prosody></speak>",
    )
    .unwrap();
    let segs = doc.to_synthesis_segments();
    assert_eq!(segs.len(), 2);
    assert_eq!(segs[0].prosody.len(), 2);
    assert_eq!(segs[0].prosody[1], ProsodyStep::Emphasis(EmphasisLevel::Strong));
    match &segs[1].prosody[0] {
        ProsodyStep::Prosody(p) => assert_eq!(p.contour, PitchContour::Rising),
        _ => panic!("expected a prosody step"),
    }
}

#[test]
fn entities_comments_and_sub() {
    let doc = SsmlParser::parse(
        "<?xml version=\"1.0\"?><!-- note --><speak>A &amp; B <sub alias=\"World Wide Web\">WWW</sub></speak>",
    )
    .unwrap();
    let segs = doc.to_synthesis_segments();
    let texts: Vec<&str> = segs.iter().map(|s| s.text.as_str()).collect();
    assert_eq!(texts, vec!["A & B", "World Wide Web"]);
}

#[test]
fn malformed_markup_is_a_synthesis_error() {
    assert!(matches!(SsmlParser::parse("<speak><>x</speak>"), Err(SynthesizerError::SynthesisError(_))));
    assert!(matches!(SsmlParser::parse("<break time=500ms/>"), Err(SynthesizerError::SynthesisError(_))));
    assert!(matches!(SsmlParser::parse("<break time=\"500ms/>"), Err(SynthesizerError::SynthesisError(_))));
    assert!(matches!(SsmlParser::parse("<speak"), Err(SynthesizerError::SynthesisError(_))));
}

#[test]
fn empty_speak_gives_no_segments() {
    let doc = SsmlParser::parse("<speak></speak>").unwrap();
    assert!(doc.to_synthesis_segments().is_empty());
    match &doc.elements[..] {
        [SsmlElement::Text(t)] => assert!(t.is_empty()),
        _ => panic!("expected one empty text"),
    }
}

#[test]
fn plain_text_round_trips() {
    for plain in ["Hello world", "  spaced  out ", "", "a > b"] {
        let doc = SsmlParser::parse(plain).unwrap();
        assert!(doc.to_plain_text().contains(plain));
    }
}

#[test]
fn keywords_parse_case_insensitively() {
    assert_eq!(BreakStrength::parse("X-Weak"), BreakStrength::XWeak);
    assert_eq!(BreakStrength::parse("loud"), BreakStrength::Medium);
    assert_eq!(BreakStrength::NoPause.to_ms(), 0);
    assert_eq!(BreakStrength::Strong.to_ms(), 600);
    assert_eq!(EmphasisLevel::parse("Reduced"), EmphasisLevel::Reduced);
    assert_eq!(EmphasisLevel::parse("none"), EmphasisLevel::Unchanged);
    assert_eq!(EmphasisLevel::parse("?"), EmphasisLevel::Moderate);
}

#[test]
fn sentinels_read_back() {
    assert_eq!(break_duration("__break_500__"), Some(500));
    assert_eq!(break_duration("__break_0__"), Some(0));
    assert_eq!(break_duration("__break___"), None);
    assert_eq!(break_duration("hello"), None);
    assert_eq!(silence_samples(500), 11025);
    assert_eq!(silence_samples(2000), 44100);
    assert_eq!(silence_samples(1), 22);
}
