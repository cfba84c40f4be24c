use media_gateway::validation::{
    validate_eidr, validate_imdb_id, validate_page_size, validate_query, validate_rating,
    ValidationError,
};

/// A rating as the library carries it: in millionths.
fn rating(value: f64) -> i64 {
    (value * 1_000_000.0).round() as i64
}

#[test]
fn test_validate_page_size_success_within_bounds() {
    assert!(validate_page_size(1).is_ok());
    assert!(validate_page_size(20).is_ok());
    assert!(validate_page_size(50).is_ok());
    assert!(validate_page_size(100).is_ok());
}

#[test]
fn test_validate_page_size_error_when_zero() {
    let result = validate_page_size(0);
    assert!(result.is_err());
    assert!(result.unwrap_err().to_string().contains("must be at least 1"));
}

#[test]
fn test_validate_page_size_error_when_too_large() {
    let result = validate_page_size(101);
    assert!(result.is_err());
    assert!(result.unwrap_err().to_string().contains("too large"));

    let result2 = validate_page_size(1000);
    assert!(result2.is_err());
}

#[test]
fn test_validate_page_size_boundary_values() {
    assert!(validate_page_size(1).is_ok());
    assert!(validate_page_size(100).is_ok());
    assert!(validate_page_size(0).is_err());
    assert!(validate_page_size(101).is_err());
}

#[test]
fn page_size_is_accepted_exactly_from_1_to_100() {
    for size in 0u32..=300 {
        assert_eq!(validate_page_size(size).is_ok(), (1..=100).contains(&size));
    }
    assert_eq!(validate_page_size(0), Err(ValidationError::PageSizeTooSmall));
    assert_eq!(validate_page_size(u32::MAX), Err(ValidationError::PageSizeTooLarge));
}

#[test]
fn test_validate_rating_success_within_range() {
    assert!(validate_rating(rating(0.0)).is_ok());
    assert!(validate_rating(rating(5.0)).is_ok());
    assert!(validate_rating(rating(7.5)).is_ok());
    assert!(validate_rating(rating(10.0)).is_ok());
}

#[test]
fn test_validate_rating_error_below_minimum() {
    assert!(validate_rating(rating(-0.1)).is_err());
    assert!(validate_rating(rating(-1.0)).is_err());
    assert!(validate_rating(rating(-100.0)).is_err());
}

#[test]
fn test_validate_rating_error_above_maximum() {
    assert!(validate_rating(rating(10.1)).is_err());
    assert!(validate_rating(rating(11.0)).is_err());
    assert!(validate_rating(rating(100.0)).is_err());
}

#[test]
fn test_validate_rating_boundary_values() {
    assert!(validate_rating(rating(0.0)).is_ok());
    assert!(validate_rating(rating(10.0)).is_ok());
    assert!(validate_rating(rating(-0.001)).is_err());
    assert!(validate_rating(rating(10.001)).is_err());
}

#[test]
fn rating_error_is_out_of_range() {
    assert_eq!(validate_rating(-1), Err(ValidationError::RatingOutOfRange));
    assert_eq!(validate_rating(10_000_001), Err(ValidationError::RatingOutOfRange));
    assert_eq!(validate_rating(10_000_000), Ok(()));
    assert!(ValidationError::RatingOutOfRange.to_string().contains("between 0.0 and 10.0"));
}

#[test]
fn test_validate_eidr_success_with_valid_format() {
    assert!(validate_eidr("10.5240/ABCD-1234-5678-90AB-CDEF-G").is_ok());
    assert!(validate_eidr("10.1234/XXXX-YYYY-ZZZZ-AAAA-BBBB-C").is_ok());
}

#[test]
fn test_validate_eidr_error_without_prefix() {
    let result = validate_eidr("11.5240/ABCD-1234");
    assert!(result.is_err());
    assert!(result.unwrap_err().to_string().contains("must start with '10.'"));

    assert!(validate_eidr("20.5240/ABCD").is_err());
    assert!(validate_eidr("5240/ABCD-1234").is_err());
}

#[test]
fn test_validate_eidr_error_without_slash() {
    let result = validate_eidr("10.5240-ABCD-1234");
    assert!(result.is_err());
    assert!(result.unwrap_err().to_string().contains("Invalid EIDR format"));
}

#[test]
fn test_validate_eidr_error_multiple_slashes() {
    let result = validate_eidr("10.5240/ABCD/1234");
    assert!(result.is_err());
}

#[test]
fn eidr_errors_name_the_broken_rule() {
    assert_eq!(validate_eidr(""), Err(ValidationError::EidrPrefix));
    assert_eq!(validate_eidr("10"), Err(ValidationError::EidrPrefix));
    assert_eq!(validate_eidr("10."), Err(ValidationError::EidrFormat));
    assert_eq!(validate_eidr("10./"), Ok(()));
    assert_eq!(validate_eidr("10.5240/ABCD/1234"), Err(ValidationError::EidrFormat));
}

#[test]
fn test_validate_imdb_id_success_with_valid_format() {
    assert!(validate_imdb_id("tt0111161").is_ok()); // 7 digits
    assert!(validate_imdb_id("tt1234567").is_ok()); // 7 digits
    assert!(validate_imdb_id("tt12345678").is_ok()); // 8 digits
    assert!(validate_imdb_id("tt123456789").is_ok()); // 9 digits
    assert!(validate_imdb_id("tt1234567890").is_ok()); // 10 digits
}

#[test]
fn test_validate_imdb_id_error_without_tt_prefix() {
    let result = validate_imdb_id("nm0000123");
    assert!(result.is_err());
    assert!(result.unwrap_err().to_string().contains("must start with 'tt'"));

    assert!(validate_imdb_id("0111161").is_err());
    assert!(validate_imdb_id("ab0111161").is_err());
}

#[test]
fn test_validate_imdb_id_error_too_few_digits() {
    assert!(validate_imdb_id("tt123").is_err());
    assert!(validate_imdb_id("tt1").is_err());
    assert!(validate_imdb_id("tt123456").is_err()); // 6 digits, need 7
}

#[test]
fn test_validate_imdb_id_error_too_many_digits() {
    assert!(validate_imdb_id("tt12345678901").is_err()); // 11 digits
    assert!(validate_imdb_id("tt123456789012345").is_err());
}

#[test]
fn test_validate_imdb_id_error_non_numeric_characters() {
    assert!(validate_imdb_id("tt0111ABC").is_err());
    assert!(validate_imdb_id("tt011116X").is_err());
    assert!(validate_imdb_id("ttABCDEFG").is_err());
}

#[test]
fn test_validate_imdb_id_boundary_values() {
    assert!(validate_imdb_id("tt0000001").is_ok()); // 7 digits (minimum)
    assert!(validate_imdb_id("tt9999999999").is_ok()); // 10 digits (maximum)
    assert!(validate_imdb_id("tt000000").is_err()); // 6 digits (too few)
    assert!(validate_imdb_id("tt99999999999").is_err()); // 11 digits (too many)
}

#[test]
fn imdb_errors_name_the_broken_rule() {
    assert_eq!(validate_imdb_id("t"), Err(ValidationError::ImdbPrefix));
    assert_eq!(validate_imdb_id("tt"), Err(ValidationError::ImdbDigits));
    assert_eq!(validate_imdb_id("tt011116X"), Err(ValidationError::ImdbDigits));
    assert!(ValidationError::ImdbDigits.to_string().contains("7 to 10 digits"));
}

#[test]
fn test_validate_query_with_special_characters() {
    assert!(validate_query("action & adventure").is_ok());
    assert!(validate_query("movies: the sequel").is_ok());
    assert!(validate_query("émile's café").is_ok());
    assert!(validate_query("日本語").is_ok());
}

#[test]
fn test_validate_query_with_whitespace() {
    assert!(validate_query("   spaces   ").is_ok());
    assert!(validate_query("\ttabs\t").is_ok());
}

#[test]
fn query_length_counts_characters_after_trimming() {
    assert_eq!(validate_query(""), Err(ValidationError::EmptyQuery));
    assert_eq!(validate_query("  \t\n "), Err(ValidationError::EmptyQuery));
    assert!(validate_query("a").is_ok());
    assert!(validate_query(&"a".repeat(500)).is_ok());
    assert_eq!(validate_query(&"a".repeat(501)), Err(ValidationError::QueryTooLong));
    assert!(validate_query(&format!("  {}  ", "a".repeat(500))).is_ok());
    assert!(validate_query(&"語".repeat(500)).is_ok());
    assert!(ValidationError::EmptyQuery.to_string().contains("Query cannot be empty"));
    assert!(ValidationError::QueryTooLong.to_string().contains("Query too long"));
}
