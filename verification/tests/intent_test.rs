use media_gateway::intent::{
    collect_references, IntentFilters, IntentParseFailure, IntentParser, IntentType, Keyword,
    ParsedIntent, FALLBACK_CONFIDENCE,
};

fn parser() -> IntentParser {
    IntentParser::new(String::new(), String::new())
}

fn remote(confidence: i64) -> ParsedIntent {
    ParsedIntent {
        mood: vec!["dark".to_string()],
        themes: vec!["heist".to_string()],
        references: vec![],
        filters: IntentFilters {
            genre: vec!["thriller".to_string()],
            platform: vec![],
            year_range: Some((2020, 2024)),
        },
        fallback_query: "dark heist".to_string(),
        confidence,
    }
}

#[test]
fn test_fallback_parse_genres() {
    let parser = IntentParser::new(String::new(), String::new());
    let intent = parser.fallback_parse("action comedy movies");

    assert_eq!(intent.filters.genre, vec!["action", "comedy"]);
}

#[test]
fn test_fallback_parse_platforms() {
    let parser = IntentParser::new(String::new(), String::new());
    let intent = parser.fallback_parse("netflix shows");

    assert_eq!(intent.filters.platform, vec!["netflix"]);
}

#[test]
fn test_extract_references() {
    let parser = IntentParser::new(String::new(), String::new());
    let references = parser.extract_references("movies like The Matrix");

    assert_eq!(references, vec!["The Matrix"]);
}

#[test]
fn fallback_of_netflix_action_movies() {
    let intent = parser().fallback_parse("netflix action movies");
    assert_eq!(intent.filters.platform, vec!["netflix"]);
    assert_eq!(intent.filters.genre, vec!["action"]);
    assert_eq!(intent.confidence, 500_000);
    assert_eq!(intent.confidence, FALLBACK_CONFIDENCE);
    assert_eq!(intent.fallback_query, "netflix action movies");
    assert!(intent.mood.is_empty());
    assert!(intent.themes.is_empty());
    assert!(intent.references.is_empty());
    assert!(intent.filters.year_range.is_none());
}

#[test]
fn fallback_lowercases_before_matching_and_keeps_the_query() {
    let intent = parser().fallback_parse("  NETFLIX   Sci-Fi and SCIFI on Prime\tHBO ");
    assert_eq!(intent.filters.platform, vec!["netflix", "prime_video", "hbo_max"]);
    assert_eq!(intent.filters.genre, vec!["science_fiction", "science_fiction"]);
    assert_eq!(intent.fallback_query, "  NETFLIX   Sci-Fi and SCIFI on Prime\tHBO ");
}

#[test]
fn fallback_matches_whole_words_only() {
    let intent = parser().fallback_parse("actions netflix, dramatic hulu");
    assert!(intent.filters.genre.is_empty());
    assert_eq!(intent.filters.platform, vec!["hulu"]);
    let none = parser().fallback_parse("");
    assert!(none.filters.genre.is_empty());
    assert!(none.filters.platform.is_empty());
    assert_eq!(none.fallback_query, "");
}

#[test]
fn fallback_knows_every_table_row() {
    let intent = parser().fallback_parse(
        "action comedy drama horror thriller romance sci-fi scifi fantasy documentary \
         netflix prime hulu disney hbo",
    );
    assert_eq!(
        intent.filters.genre,
        vec![
            "action",
            "comedy",
            "drama",
            "horror",
            "thriller",
            "romance",
            "science_fiction",
            "science_fiction",
            "fantasy",
            "documentary"
        ]
    );
    assert_eq!(
        intent.filters.platform,
        vec!["netflix", "prime_video", "hulu", "disney_plus", "hbo_max"]
    );
}

#[test]
fn references_follow_like_and_similar_to() {
    let p = parser();
    assert_eq!(p.extract_references("something similar to Inception"), vec!["Inception"]);
    assert_eq!(
        p.extract_references("like Heat or similar to Ronin 2"),
        vec!["Heat or similar to Ronin 2", "Ronin 2"]
    );
    assert!(p.extract_references("movies like the matrix").is_empty());
    assert!(p.extract_references("nothing here").is_empty());
    assert_eq!(p.extract_references("like   Blade Runner  !"), vec!["Blade Runner"]);
    let intent = p.fallback_parse("movies like The Matrix");
    assert_eq!(intent.references, vec!["The Matrix"]);
}

#[test]
fn collected_references_are_trimmed_and_ordered() {
    assert_eq!(
        collect_references(Some("  Heat \n".to_string()), Some("Ronin ".to_string())),
        vec!["Heat", "Ronin"]
    );
    assert_eq!(collect_references(None, Some(" Ronin".to_string())), vec!["Ronin"]);
    assert_eq!(collect_references(Some("Heat".to_string()), None), vec!["Heat"]);
    assert!(collect_references(None, None).is_empty());
}

#[test]
fn custom_tables_take_the_first_matching_row() {
    let mut p = parser();
    p.genre_keywords = vec![
        Keyword { token: "noir".to_string(), value: "film_noir".to_string() },
        Keyword { token: "noir".to_string(), value: "second".to_string() },
    ];
    let tokens = vec!["noir".to_string(), "action".to_string(), "noir".to_string()];
    assert_eq!(p.extract_genres(&tokens), vec!["film_noir", "film_noir"]);
    assert!(p.extract_platforms(&tokens).is_empty());
}

#[test]
fn prompt_wraps_the_query() {
    let prompt = parser().build_prompt("dark heist movies");
    assert!(prompt.starts_with("Analyze this media search query"));
    assert!(prompt.contains("Query: \"dark heist movies\"\n"));
    assert!(prompt.ends_with("\"confidence\": 0.85\n}"));
}

#[test]
fn remote_intent_is_kept_when_confidence_is_in_range() {
    let p = parser();
    for confidence in [0, 1, 850_000, 1_000_000] {
        let intent = p.parse("netflix action movies", Ok(remote(confidence)));
        assert_eq!(intent.confidence, confidence);
        assert_eq!(intent.mood, vec!["dark"]);
        assert_eq!(intent.fallback_query, "dark heist");
        assert!(intent.filters.platform.is_empty());
    }
}

#[test]
fn invalid_confidence_forces_the_fallback() {
    let p = parser();
    for confidence in [-1, 1_000_001, i64::MIN, i64::MAX] {
        assert_eq!(
            p.parse_with_gpt(Ok(remote(confidence))).unwrap_err(),
            IntentParseFailure::InvalidConfidence
        );
        let intent = p.parse("netflix action movies", Ok(remote(confidence)));
        assert_eq!(intent.confidence, FALLBACK_CONFIDENCE);
        assert_eq!(intent.filters.platform, vec!["netflix"]);
        assert_eq!(intent.filters.genre, vec!["action"]);
        assert!(intent.mood.is_empty());
    }
}

#[test]
fn every_remote_failure_ends_in_the_fallback() {
    let p = parser();
    for failure in [
        IntentParseFailure::Transport,
        IntentParseFailure::InvalidResponse,
        IntentParseFailure::InvalidIntent,
        IntentParseFailure::InvalidConfidence,
    ] {
        assert_eq!(p.parse_with_gpt(Err(failure)).unwrap_err(), failure);
        let intent = p.parse("hulu horror", Err(failure));
        assert_eq!(intent.filters.platform, vec!["hulu"]);
        assert_eq!(intent.filters.genre, vec!["horror"]);
        assert_eq!(intent.confidence, FALLBACK_CONFIDENCE);
        assert_eq!(intent.fallback_query, "hulu horror");
    }
}

#[test]
fn intent_types_are_distinct() {
    assert_eq!(IntentType::Search, IntentType::Search);
    assert_ne!(IntentType::Search, IntentType::Recommendation);
    assert_ne!(IntentType::Recommendation, IntentType::Trivia);
    let filters = IntentFilters::default();
    assert!(filters.genre.is_empty() && filters.platform.is_empty());
    assert!(filters.year_range.is_none());
}
