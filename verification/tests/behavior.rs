use solana_vanity::VanityGenerator;
use solana_vanity::pattern::PatternType;
use solana_vanity::search::{SearchState, VanityOptions};
use solana_vanity::validate::get_valid_base58_chars;
use std::str::FromStr;

fn options(pattern: &str, pattern_type: PatternType, case_sensitive: bool) -> VanityOptions {
    VanityOptions {
        pattern: pattern.to_string(),
        pattern_type,
        case_sensitive,
        max_attempts: 1_000_000,
        max_time: 60,
    }
}

#[test]
fn duration_buckets() {
    let g = VanityGenerator::new();
    assert_eq!(g.format_duration(0), "< 1 second");
    assert_eq!(g.format_duration(45), "45 seconds");
    assert_eq!(g.format_duration(59), "59 seconds");
    assert_eq!(g.format_duration(60), "1 minutes");
    assert_eq!(g.format_duration(125), "2m 5s");
    assert_eq!(g.format_duration(3600), "1 hours");
    assert_eq!(g.format_duration(3661), "1h 1m");
    assert_eq!(g.format_duration(86400), "1 days");
    assert_eq!(g.format_duration(90000), "1d 1h");
}

#[test]
fn expected_attempts_exact_values() {
    let g = VanityGenerator::new();
    // Case-sensitive: ceil(58^L).
    assert_eq!(g.estimate_expected_attempts(&options("A", PatternType::StartsWith, true)), 58);
    assert_eq!(g.estimate_expected_attempts(&options("AB", PatternType::StartsWith, true)), 3364);
    // Empty pattern: one attempt is always enough.
    assert_eq!(g.estimate_expected_attempts(&options("", PatternType::StartsWith, true)), 1);
    // Case-insensitive: ceil(58^L / min(58, 2^L)).
    assert_eq!(g.estimate_expected_attempts(&options("A", PatternType::StartsWith, false)), 29);
    assert_eq!(g.estimate_expected_attempts(&options("AB", PatternType::StartsWith, false)), 841);
    // At length 6 the case-variant correction caps at the alphabet size:
    // 58^6 / 58 == 58^5.
    assert_eq!(
        g.estimate_expected_attempts(&options("ABCDEF", PatternType::StartsWith, false)),
        656_356_768
    );
    // A very long pattern saturates the 64-bit counter.
    assert_eq!(
        g.estimate_expected_attempts(&options(
            "AAAAAAAAAAAAAAAAAAAAAAAAAAAAAA",
            PatternType::StartsWith,
            true
        )),
        u64::MAX
    );
}

#[test]
fn expected_time_from_throughput() {
    let g = VanityGenerator::new();
    // 58^4 = 11_316_496 attempts at 50_000 attempts/sec.
    assert_eq!(g.estimate_expected_time(&options("ABCD", PatternType::StartsWith, true)), 226);
    assert_eq!(g.estimate_expected_time(&options("A", PatternType::StartsWith, true)), 0);
}

#[test]
fn pattern_type_from_str_spellings() {
    assert!(matches!(PatternType::from_str("starts_with"), Ok(PatternType::StartsWith)));
    assert!(matches!(PatternType::from_str("STARTS"), Ok(PatternType::StartsWith)));
    assert!(matches!(PatternType::from_str("start"), Ok(PatternType::StartsWith)));
    assert!(matches!(PatternType::from_str("ends_with"), Ok(PatternType::EndsWith)));
    assert!(matches!(PatternType::from_str("End"), Ok(PatternType::EndsWith)));
    assert!(matches!(PatternType::from_str("contains"), Ok(PatternType::Contains)));
    assert!(matches!(PatternType::from_str("Contain"), Ok(PatternType::Contains)));
    let err = PatternType::from_str("sideways").unwrap_err();
    assert_eq!(err, "Invalid pattern type: sideways");
}

#[test]
fn matches_pattern_instance_method() {
    let g = VanityGenerator::new();
    assert!(g.matches_pattern("xyzzy", "xyz", &PatternType::StartsWith, true));
    assert!(!g.matches_pattern("xyzzy", "XYZ", &PatternType::StartsWith, true));
    // An empty pattern matches every candidate under every mode.
    assert!(g.matches_pattern("anything", "", &PatternType::Contains, true));
    assert!(g.matches_pattern("", "", &PatternType::EndsWith, true));
}

#[test]
fn search_state_protocol() {
    let mut state = SearchState::new(2);
    assert!(!state.should_stop());
    let result = |tag: &str| solana_vanity::search::VanityResult {
        public_key: tag.to_string(),
        private_key: String::new(),
        attempts: 1,
        time_elapsed: 0,
    };
    assert!(state.try_insert(result("a")));
    assert!(!state.should_stop());
    assert!(state.try_insert(result("b")));
    // The collection is full: the stop flag is set and stays set.
    assert!(state.should_stop());
    assert!(!state.try_insert(result("c")));
    assert_eq!(state.results.len(), 2);
    assert!(state.stop);

    state.add_attempts(10);
    assert_eq!(state.total_attempts, 10);
    state.add_attempts(u64::MAX);
    assert_eq!(state.total_attempts, u64::MAX);

    // A search for zero results is finished before it starts.
    let empty = SearchState::new(0);
    assert!(empty.should_stop());
}

#[test]
fn single_search_finds_match() {
    let g = VanityGenerator::new();
    // An empty pattern matches the first candidate drawn.
    let found = g.generate_single(&options("", PatternType::StartsWith, true));
    let res = found.expect("an always-matching pattern must be found at once");
    assert_eq!(res.attempts, 1);
    // The public key and the private-key rendering are base-58 text.
    let alphabet = get_valid_base58_chars();
    assert!(!res.public_key.is_empty());
    assert!(res.public_key.chars().all(|c| alphabet.contains(c)));
    // 64 key bytes render to roughly 87 or 88 base-58 characters.
    assert!(res.private_key.len() >= 80 && res.private_key.len() <= 90);
    assert!(res.private_key.chars().all(|c| alphabet.contains(c)));
}

#[test]
fn single_search_respects_attempt_ceiling() {
    let g = VanityGenerator::new();
    let mut opts = options("AAAAAAAAAAAAAAAAAAAA", PatternType::StartsWith, true);
    opts.max_attempts = 50;
    let found = g.generate_single(&opts);
    assert!(found.is_none());
}

#[test]
fn multiple_search_collects_requested_count() {
    let g = VanityGenerator::new();
    // A single-character pattern is expected within 58 attempts on
    // average; ask for three matches with a generous deadline.
    let opts = options("A", PatternType::StartsWith, false);
    let (results, total_attempts) = g.generate_multiple(3, &opts);
    assert_eq!(results.len(), 3);
    for res in &results {
        assert!(VanityGenerator::matches_pattern_static(
            &res.public_key,
            "A",
            &PatternType::StartsWith,
            false
        ));
    }
    assert!(total_attempts >= 3);
}

#[test]
fn multiple_search_underfills_on_deadline() {
    let g = VanityGenerator::new();
    // Twenty fixed characters are far out of reach: the one-second
    // deadline must end the search with fewer results than requested.
    let mut opts = options("AAAAAAAAAAAAAAAAAAAA", PatternType::StartsWith, true);
    opts.max_time = 1;
    opts.max_attempts = u64::MAX;
    let started = std::time::Instant::now();
    let (results, _total) = g.generate_multiple(3, &opts);
    assert!(results.len() < 3);
    // Termination comes promptly once the deadline passes.
    assert!(started.elapsed().as_secs() < 15);
}
