use parlador::{FormantValues, PhonemeCategory, PhonemeInventory};

#[test]
fn test_english_inventory() {
    let inv = PhonemeInventory::english();
    assert!(!inv.is_empty());
    assert_eq!(inv.language, "en");

    let vowel = inv.get("i").unwrap();
    assert_eq!(vowel.ipa, "iː");
    assert!(vowel.voiced);
    assert!(vowel.formants.is_some());
}

#[test]
fn test_spanish_inventory() {
    let inv = PhonemeInventory::spanish();
    assert!(!inv.is_empty());
    assert_eq!(inv.language, "es");

    let vowel = inv.get("a").unwrap();
    assert_eq!(vowel.ipa, "a");
    assert!(vowel.voiced);
}

#[test]
fn test_formant_values() {
    let formants = FormantValues::new(270, 2290, 3010);
    assert_eq!(formants.f1, 270);
    assert_eq!(formants.f2, 2290);
    assert_eq!(formants.f3, 3010);
}

#[test]
fn inventories_hold_one_phoneme_per_symbol() {
    let en = PhonemeInventory::english();
    assert_eq!(en.len(), 40);
    let es = PhonemeInventory::spanish();
    assert_eq!(es.len(), 26);
    assert!(en.get("ks").is_none());
    assert!(es.get("rr").is_some());
    let a = es.get("a").unwrap();
    let f = a.formants.unwrap();
    assert_eq!((f.f1, f.f2, f.f3, f.b1, f.b2, f.b3), (750, 1200, 2600, 60, 90, 150));
    let pause = en.get("_").unwrap();
    assert_eq!(pause.category, PhonemeCategory::Silence);
    assert!(pause.formants.is_none());
}
