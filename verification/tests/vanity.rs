use solana_vanity::VanityGenerator;
use solana_vanity::pattern::PatternType;
use solana_vanity::search::VanityOptions;
use solana_vanity::validate::{
    get_valid_base58_chars, is_valid_base58_pattern, validate_base58_pattern,
};

#[test]
fn test_pattern_matching() {
    let public_key = "ABC123def456GHI789jkl";

    // Test starts_with
    assert!(VanityGenerator::matches_pattern_static(
        public_key,
        "ABC",
        &PatternType::StartsWith,
        true
    ));
    assert!(!VanityGenerator::matches_pattern_static(
        public_key,
        "XYZ",
        &PatternType::StartsWith,
        true
    ));

    // Test ends_with
    assert!(VanityGenerator::matches_pattern_static(
        public_key,
        "jkl",
        &PatternType::EndsWith,
        true
    ));
    assert!(!VanityGenerator::matches_pattern_static(
        public_key,
        "XYZ",
        &PatternType::EndsWith,
        true
    ));

    // Test contains
    assert!(VanityGenerator::matches_pattern_static(
        public_key,
        "def",
        &PatternType::Contains,
        true
    ));
    assert!(!VanityGenerator::matches_pattern_static(
        public_key,
        "XYZ",
        &PatternType::Contains,
        true
    ));

    // Test case insensitive
    assert!(VanityGenerator::matches_pattern_static(
        public_key,
        "abc",
        &PatternType::StartsWith,
        false
    ));
    assert!(VanityGenerator::matches_pattern_static(
        public_key,
        "DEF",
        &PatternType::Contains,
        false
    ));
}

#[test]
fn test_base58_validation() {
    assert!(is_valid_base58_pattern("ABC123"));
    assert!(is_valid_base58_pattern("xyz789"));
    assert!(!is_valid_base58_pattern("ABC0")); // Contains 0
    assert!(!is_valid_base58_pattern("ABCO")); // Contains O
    assert!(!is_valid_base58_pattern("ABCI")); // Contains I
    assert!(!is_valid_base58_pattern("ABCl")); // Contains l
}

#[test]
fn test_validate_base58_pattern() {
    // Valid patterns
    assert!(validate_base58_pattern("ABC123").is_ok());
    assert!(validate_base58_pattern("xyz789").is_ok());
    assert!(validate_base58_pattern("RUST").is_ok());
    assert!(validate_base58_pattern("BYTE").is_ok());

    // Invalid patterns
    assert_eq!(validate_base58_pattern("ABC0").unwrap_err(), vec!['0']);
    assert_eq!(validate_base58_pattern("ABCO").unwrap_err(), vec!['O']);
    assert_eq!(validate_base58_pattern("ABCI").unwrap_err(), vec!['I']);
    assert_eq!(validate_base58_pattern("ABCl").unwrap_err(), vec!['l']);

    // Multiple invalid characters
    let result = validate_base58_pattern("AB0Ol");
    assert!(result.is_err());
    let invalid_chars = result.unwrap_err();
    assert!(invalid_chars.contains(&'0'));
    assert!(invalid_chars.contains(&'O'));
    assert!(invalid_chars.contains(&'l'));
}

#[test]
fn test_get_valid_base58_chars() {
    let valid_chars = get_valid_base58_chars();
    assert!(valid_chars.contains('1'));
    assert!(valid_chars.contains('A'));
    assert!(valid_chars.contains('a'));
    assert!(!valid_chars.contains('0'));
    assert!(!valid_chars.contains('O'));
    assert!(!valid_chars.contains('I'));
    assert!(!valid_chars.contains('l'));
}

#[test]
fn test_probability_estimation() {
    let generator = VanityGenerator::new();
    let options = VanityOptions {
        pattern: "A".to_string(),
        pattern_type: PatternType::StartsWith,
        case_sensitive: true,
        max_attempts: 1000000,
        max_time: 60,
    };

    let expected_attempts = generator.estimate_expected_attempts(&options);
    assert!(expected_attempts > 0);
    assert!(expected_attempts < 1000); // Should be around 58 for single character
}
