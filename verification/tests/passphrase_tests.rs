use nudge::passphrase::Passphrase;
use nudge::passphrase::PassphraseGenerator;

#[test]
fn test_passphrase_from_str() {
    let passphrase = Passphrase::from("example-passphrase");
    assert_eq!(passphrase.to_string(), "example-passphrase");
}

#[test]
fn test_passphrase_generator_new() {
    let generator = PassphraseGenerator::new().unwrap();
    assert!(!generator.0.is_empty());
}

#[test]
fn test_generate_with_zero_words() {
    let generator = PassphraseGenerator::new().unwrap();
    assert!(generator.generate_with_count(0).is_none());
}

#[test]
fn test_generate_with_one_word() {
    let generator = PassphraseGenerator::new().unwrap();
    let passphrase = generator.generate_with_count(1).unwrap();
    assert!(!passphrase.to_string().contains('-'));
}

#[test]
fn test_generate_with_multiple_words() {
    let generator = PassphraseGenerator::new().unwrap();
    let passphrase = generator.generate_with_count(3).unwrap();
    assert_eq!(passphrase.to_string().matches('-').count(), 2);
}

#[test]
fn test_default_generate() {
    let generator = PassphraseGenerator::new().unwrap();
    let passphrase = generator.generate().unwrap();
    assert_eq!(passphrase.to_string().matches('-').count(), 2);
}

#[test]
fn test_generated_words_come_from_the_list() {
    let generator = PassphraseGenerator::new().unwrap();
    let passphrase = generator.generate().unwrap();
    let text = passphrase.to_string();
    for word in text.split('-') {
        assert!(generator.0.contains(&word), "unknown word in passphrase: {}", word);
    }
}

#[test]
fn test_passphrase_equality_is_by_text() {
    let a = Passphrase::from("quartz-raven-reef");
    let b = Passphrase(String::from("quartz-raven-reef"));
    let c = Passphrase::from("quartz-raven-ridge");
    assert!(a == b);
    assert!(a != c);
}
