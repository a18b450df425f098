use parlador::{text_to_ipa, G2PConverter, SynthesizerError};

#[test]
fn test_english_g2p_basic() {
    let g2p = G2PConverter::english();
    let result = g2p.convert("hello").unwrap();
    assert!(!result.is_empty());
}

#[test]
fn test_english_exception() {
    let g2p = G2PConverter::english();
    let result = g2p.convert("the").unwrap();
    assert_eq!(result, "D @");
}

#[test]
fn test_spanish_g2p_basic() {
    let g2p = G2PConverter::spanish();
    let result = g2p.convert("hola").unwrap();
    assert!(!result.is_empty());
}

#[test]
fn test_spanish_vowels() {
    let g2p = G2PConverter::spanish();
    let result = g2p.convert("aeiou").unwrap();
    assert_eq!(result, "a e i o u");
}

#[test]
fn test_text_to_ipa_english() {
    let result = text_to_ipa("hello", "en").unwrap();
    assert!(!result.is_empty());
}

#[test]
fn test_unsupported_language() {
    let result = text_to_ipa("test", "fr");
    assert!(result.is_err());
}

#[test]
fn exception_lexicon_wins_over_rules() {
    let g2p = G2PConverter::english();
    assert_eq!(g2p.convert("hello").unwrap(), "h E l o");
    assert_eq!(g2p.convert("Hello, World!").unwrap(), "h E l o _ w 3 r l d");
}

#[test]
fn empty_text_gives_empty_phonemes() {
    let g2p = G2PConverter::english();
    assert_eq!(g2p.convert("").unwrap(), "");
    assert_eq!(g2p.convert("  123 !? ").unwrap(), "");
}

#[test]
fn rules_follow_priority_then_length() {
    let g2p = G2PConverter::english();
    // "ght" (priority 25) beats "gh" (20) and "g" (1).
    assert_eq!(g2p.convert("night").unwrap(), "n I t");
    // soft c before e or i, hard c elsewhere
    assert_eq!(g2p.convert("cat").unwrap(), "k & t");
    assert_eq!(g2p.convert("cell").unwrap(), "s E l l");
    // a word-final e is silent, and "o" right before it reads as /o/
    assert_eq!(g2p.convert("gate").unwrap(), "g & t");
    assert_eq!(g2p.convert("toe").unwrap(), "t o");
    // y at the start of a word, and elsewhere
    assert_eq!(g2p.convert("yes").unwrap(), "j E s");
    assert_eq!(g2p.convert("my").unwrap(), "m i");
    assert_eq!(g2p.convert("cite").unwrap(), "s I t");
}

#[test]
fn spanish_rules_use_context() {
    let g2p = G2PConverter::spanish();
    assert_eq!(g2p.convert("rosa").unwrap(), "rr o s a");
    assert_eq!(g2p.convert("caro").unwrap(), "k a r o");
    assert_eq!(g2p.convert("cena").unwrap(), "T e n a");
    assert_eq!(g2p.convert("hola").unwrap(), "o l a");
    assert_eq!(g2p.convert("ÁRBOL").unwrap(), "a r b o l");
    assert_eq!(g2p.convert("niño").unwrap(), "n i J o");
    assert_eq!(g2p.convert("perro").unwrap(), "p e rr o");
    assert_eq!(g2p.convert("queso").unwrap(), "k e s o");
    assert_eq!(g2p.convert("taxi").unwrap(), "t a k s i");
}

#[test]
fn clusters_are_split_into_symbols() {
    let g2p = G2PConverter::english();
    assert_eq!(g2p.convert("box").unwrap(), "b A k s");
    assert_eq!(g2p.convert("quit").unwrap(), "k w I t");
}

#[test]
fn ipa_renders_through_inventory() {
    assert_eq!(text_to_ipa("hello", "en").unwrap(), "hɛloʊ");
    assert_eq!(text_to_ipa("the hello", "english").unwrap(), "ðə hɛloʊ");
    assert_eq!(text_to_ipa("aeiou", "es").unwrap(), "aeiou");
    assert_eq!(text_to_ipa("hello", "EN").unwrap(), "hɛloʊ");
    assert_eq!(text_to_ipa("hola", "es-mx").unwrap(), "ola");
    assert_eq!(
        text_to_ipa("x", "fr"),
        Err(SynthesizerError::UnsupportedLanguage("fr".to_string()))
    );
}

#[test]
fn converter_reports_language_and_inventory() {
    let g2p = G2PConverter::spanish();
    assert_eq!(g2p.language(), "es");
    assert_eq!(g2p.inventory().language, "es");
}

#[test]
fn emitted_symbols_are_known_or_clusters() {
    for (g2p, text) in [
        (G2PConverter::english(), "The quick brown fox jumps over the lazy dog, quietly."),
        (G2PConverter::spanish(), "El veloz murciélago hindú comía feliz cardillo y kiwi; ¿qué tal?"),
    ] {
        let phonemes = g2p.convert(text).unwrap();
        for tok in phonemes.split_whitespace() {
            assert!(
                tok == "_" || g2p.inventory().get(tok).is_some(),
                "unexpected symbol {tok}"
            );
        }
    }
}

