use media_gateway::entity_resolution::{
    calculate_embedding_confidence, calculate_fuzzy_confidence, normalize_title,
    normalized_levenshtein, EntityMatch, EntityResolver, IngestedContent, MatchMethod,
};
use media_gateway::math::cosine_similarity;

fn content(title: &str, year: Option<i32>) -> IngestedContent {
    IngestedContent {
        title: title.to_string(),
        release_year: year,
        eidr: None,
        imdb_id: None,
        tmdb_id: None,
        embedding: None,
    }
}

fn matrix() -> EntityResolver {
    let mut resolver = EntityResolver::new();
    resolver.add_entity(
        "entity_1".to_string(),
        "The Matrix".to_string(),
        Some(1999),
        Some("10.5240/ABCD-1234".to_string()),
        Some("tt0133093".to_string()),
        Some("603".to_string()),
        Some(vec![1_000_000, 0, 0]),
    );
    resolver.add_entity(
        "entity_2".to_string(),
        "Inception".to_string(),
        Some(2010),
        None,
        Some("tt1375666".to_string()),
        None,
        Some(vec![0, 1_000_000, 0]),
    );
    resolver
}

#[test]
fn test_title_normalization() {
    assert_eq!(normalize_title("The Matrix (1999)"), "the matrix 1999");
    assert_eq!(normalize_title("Star Wars: A New Hope"), "star wars a new hope");
    assert_eq!(normalize_title("  WALL·E \t 2 "), "walle 2");
    assert_eq!(normalize_title(""), "");
    assert_eq!(normalize_title("!!!"), "");
}

#[test]
fn entity_resolution_test_cosine_similarity() {
    let a = vec![1_000_000, 0, 0];
    let b = vec![1_000_000, 0, 0];
    assert!((cosine_similarity(&a, &b) - 1_000_000).abs() < 1_000);

    let c = vec![1_000_000, 0, 0];
    let d = vec![0, 1_000_000, 0];
    assert!(cosine_similarity(&c, &d).abs() < 1_000);
}

#[test]
fn test_fuzzy_confidence_calculation() {
    assert!((calculate_fuzzy_confidence(850_000) - 900_000).abs() < 10_000);
    assert!((calculate_fuzzy_confidence(1_000_000) - 980_000).abs() < 10_000);
    assert_eq!(calculate_fuzzy_confidence(850_000), 900_000);
    assert_eq!(calculate_fuzzy_confidence(1_000_000), 980_000);
    assert_eq!(calculate_fuzzy_confidence(0), 900_000);
    assert_eq!(calculate_fuzzy_confidence(i64::MIN), 900_000);
    assert_eq!(calculate_fuzzy_confidence(i64::MAX), 980_000);
    assert_eq!(calculate_fuzzy_confidence(925_000), 940_000);
    assert_eq!(calculate_fuzzy_confidence(850_002), 900_001);
}

#[test]
fn test_embedding_confidence_calculation() {
    assert!((calculate_embedding_confidence(920_000) - 850_000).abs() < 10_000);
    assert!((calculate_embedding_confidence(1_000_000) - 950_000).abs() < 10_000);
    assert_eq!(calculate_embedding_confidence(920_000), 850_000);
    assert_eq!(calculate_embedding_confidence(1_000_000), 950_000);
    assert_eq!(calculate_embedding_confidence(960_000), 900_000);
    assert_eq!(calculate_embedding_confidence(-5), 850_000);
    assert_eq!(calculate_embedding_confidence(2_000_000), 950_000);
}

#[test]
fn similarity_is_the_share_of_characters_that_need_no_edit() {
    assert_eq!(normalized_levenshtein("", ""), 1_000_000);
    assert_eq!(normalized_levenshtein("string", "string"), 1_000_000);
    assert_eq!(normalized_levenshtein("", "second"), 0);
    assert_eq!(normalized_levenshtein("first", ""), 0);
    // Three edits over seven characters: 4/7.
    assert_eq!(normalized_levenshtein("kitten", "sitting"), 571_428);
    assert_eq!(normalized_levenshtein("abc", "xyz"), 0);
    assert_eq!(normalized_levenshtein("日本語", "日本"), 666_666);
}

#[test]
fn test_eidr_exact_match() {
    let mut resolver = EntityResolver::new();
    resolver.add_entity(
        "entity_1".to_string(),
        "The Matrix".to_string(),
        Some(1999),
        Some("10.5240/ABCD-1234".to_string()),
        None,
        None,
        None,
    );

    let mut content = content("The Matrix", Some(1999));
    content.eidr = Some("10.5240/ABCD-1234".to_string());

    let result = resolver.resolve(&content);
    assert_eq!(result.entity_id, Some("entity_1".to_string()));
    assert_eq!(result.confidence, 1_000_000);
    assert_eq!(result.method, MatchMethod::EidrExact);
}

#[test]
fn identifiers_decide_before_titles() {
    let resolver = matrix();
    let mut by_imdb = content("Something Else", None);
    by_imdb.imdb_id = Some("tt1375666".to_string());
    assert_eq!(
        resolver.resolve(&by_imdb),
        EntityMatch {
            entity_id: Some("entity_2".to_string()),
            confidence: 990_000,
            method: MatchMethod::ExternalId { source: "imdb".to_string() }
        }
    );
    let mut by_tmdb = content("Inception", Some(2010));
    by_tmdb.tmdb_id = Some("603".to_string());
    assert_eq!(
        resolver.resolve(&by_tmdb),
        EntityMatch {
            entity_id: Some("entity_1".to_string()),
            confidence: 990_000,
            method: MatchMethod::ExternalId { source: "tmdb".to_string() }
        }
    );
    let mut eidr_first = content("Inception", Some(2010));
    eidr_first.eidr = Some("10.5240/ABCD-1234".to_string());
    eidr_first.imdb_id = Some("tt1375666".to_string());
    assert_eq!(resolver.resolve(&eidr_first).method, MatchMethod::EidrExact);
    let mut unknown = content("Inception", Some(2010));
    unknown.eidr = Some("10.5240/NONE".to_string());
    unknown.imdb_id = Some("tt0000000".to_string());
    assert_eq!(resolver.exact_match(&unknown), None);
    assert_eq!(resolver.resolve(&unknown).method, MatchMethod::FuzzyTitleYear);
}

#[test]
fn titles_match_when_the_years_agree() {
    let resolver = matrix();
    let exact = resolver.resolve(&content("THE MATRIX!", Some(2000)));
    assert_eq!(
        exact,
        EntityMatch {
            entity_id: Some("entity_1".to_string()),
            confidence: 980_000,
            method: MatchMethod::FuzzyTitleYear
        }
    );
    // Two years apart rules the record out; the other title shares a letter
    // or two and is taken with the lowest confidence of a title match.
    let late = resolver.fuzzy_title_year_match(&content("The Matrix", Some(2001)));
    assert_eq!(late.method, MatchMethod::NoMatch);
    assert_eq!(late.entity_id, None);
    assert_eq!(late.confidence, 0);
    let any_year = resolver.resolve(&content("The Matrxi", None));
    assert_eq!(any_year.entity_id, Some("entity_1".to_string()));
    assert_eq!(resolver.best_by_title("the matrix", Some(1998)), Some((0, 1_000_000)));
    assert_eq!(resolver.best_by_title("inceptio", Some(2011)), Some((1, 888_888)));
    assert_eq!(resolver.best_by_title("zzzz", Some(1950)), None);
    assert_eq!(EntityResolver::new().resolve(&content("x", None)).method, MatchMethod::NoMatch);
}

#[test]
fn the_first_of_equally_alike_titles_wins() {
    let mut resolver = EntityResolver::new();
    for id in ["a", "b", "c"] {
        resolver.add_entity(id.to_string(), "Heat".to_string(), None, None, None, None, None);
    }
    assert_eq!(resolver.best_by_title("heat", None), Some((0, 1_000_000)));
    assert_eq!(resolver.len(), 3);
    // Adding a known entity again replaces its record where it stood.
    resolver.add_entity("a".to_string(), "Cold".to_string(), None, None, None, None, None);
    assert_eq!(resolver.len(), 3);
    assert_eq!(resolver.best_by_title("heat", None), Some((1, 1_000_000)));
    assert_eq!(resolver.best_by_title("cold", None), Some((0, 1_000_000)));
}

#[test]
fn embeddings_match_above_the_threshold() {
    let resolver = matrix();
    assert_eq!(
        resolver.embedding_similarity_match(&vec![2_000_000, 0, 0]),
        EntityMatch {
            entity_id: Some("entity_1".to_string()),
            confidence: 950_000,
            method: MatchMethod::EmbeddingSimilarity
        }
    );
    assert_eq!(resolver.best_by_embedding(&vec![0, 3, 0]), Some((1, 1_000_000)));
    assert_eq!(resolver.best_by_embedding(&vec![0, 0, 5]), None);
    assert_eq!(resolver.best_by_embedding(&vec![-1, 0, 0]), None);
    assert_eq!(resolver.best_by_embedding(&vec![1, 1]), None);
    let none = resolver.embedding_similarity_match(&vec![0, 0, 5]);
    assert_eq!(none.method, MatchMethod::NoMatch);
    // 45 degrees: cosine 0.707, confidence 0.85, below the threshold of 0.92.
    let weak = resolver.embedding_similarity_match(&vec![1_000_000, 1_000_000, 0]);
    assert_eq!(weak.confidence, 850_000);
    let mut resolver = EntityResolver::default();
    resolver.add_entity(
        "e".to_string(),
        "Qqqq".to_string(),
        Some(1900),
        None,
        None,
        None,
        Some(vec![1_000_000, 0, 0]),
    );
    let mut probe = content("Zzzz", Some(2000));
    probe.embedding = Some(vec![1_000_000, 1_000_000, 0]);
    assert_eq!(resolver.resolve(&probe).method, MatchMethod::NoMatch);
    probe.embedding = Some(vec![1_000_000, 10_000, 0]);
    let strong = resolver.resolve(&probe);
    assert_eq!(strong.method, MatchMethod::EmbeddingSimilarity);
    assert_eq!(strong.entity_id, Some("e".to_string()));
    probe.embedding = Some(vec![i64::MAX, 0, 0]);
    assert_eq!(resolver.resolve(&probe).method, MatchMethod::NoMatch);
}

#[test]
fn the_latest_entry_of_an_index_wins() {
    let mut resolver = EntityResolver::new();
    for id in ["old", "new"] {
        resolver.add_entity(
            id.to_string(),
            id.to_string(),
            None,
            Some("10.1/X".to_string()),
            None,
            None,
            None,
        );
    }
    let mut probe = content("unrelated", None);
    probe.eidr = Some("10.1/X".to_string());
    assert_eq!(resolver.resolve(&probe).entity_id, Some("new".to_string()));
}
