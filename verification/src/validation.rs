//! Checks on what callers hand in: page sizes, queries, ratings and the two
//! external identifier formats.

use crate::text::{chars_of, trim_chars, trimmed};
use vstd::prelude::*;
use vstd::string::StringExecFns;

verus! {

/// The smallest page size.
pub const MIN_PAGE_SIZE: u32 = 1;

/// The largest page size.
pub const MAX_PAGE_SIZE: u32 = 100;

/// The longest query, in characters after trimming.
pub const MAX_QUERY_LENGTH: usize = 500;

/// The highest rating, in millionths: 10.0.
pub const MAX_RATING: i64 = 10_000_000;

/// Why a value was refused.
#[derive(Debug, Clone, Copy, PartialEq, Eq, Structural)]
pub enum ValidationError {
    /// The page size is zero.
    PageSizeTooSmall,
    /// The page size is above `MAX_PAGE_SIZE`.
    PageSizeTooLarge,
    /// The page number is zero; pages count from 1.
    PageNumberZero,
    /// Nothing is left of the query after trimming.
    EmptyQuery,
    /// The trimmed query is longer than `MAX_QUERY_LENGTH`.
    QueryTooLong,
    /// The rating lies outside 0 to 10.
    RatingOutOfRange,
    /// The EIDR does not start with `10.`.
    EidrPrefix,
    /// The EIDR does not have exactly one `/`.
    EidrFormat,
    /// The IMDb identifier does not start with `tt`.
    ImdbPrefix,
    /// What follows `tt` is not 7 to 10 decimal digits.
    ImdbDigits,
}

impl ValidationError {
    /// The text that describes the error.
    pub open spec fn message(&self) -> Seq<char> {
        match self {
            ValidationError::PageSizeTooSmall => "Page size must be at least 1"@,
            ValidationError::PageSizeTooLarge => "Page size too large (maximum 100)"@,
            ValidationError::PageNumberZero => "Page number must be at least 1"@,
            ValidationError::EmptyQuery => "Query cannot be empty"@,
            ValidationError::QueryTooLong => "Query too long (maximum 500 characters)"@,
            ValidationError::RatingOutOfRange => "Rating must be between 0.0 and 10.0"@,
            ValidationError::EidrPrefix => "EIDR must start with '10.'"@,
            ValidationError::EidrFormat => "Invalid EIDR format: expected one '/'"@,
            ValidationError::ImdbPrefix => "IMDb ID must start with 'tt'"@,
            ValidationError::ImdbDigits => "IMDb ID must have 7 to 10 digits after 'tt'"@,
        }
    }

    /// Describes the error in words.
    pub fn to_string(&self) -> (text: String)
        ensures
            text@ == self.message(),
    {
        match self {
            ValidationError::PageSizeTooSmall => String::from_str("Page size must be at least 1"),
            ValidationError::PageSizeTooLarge => String::from_str(
                "Page size too large (maximum 100)",
            ),
            ValidationError::PageNumberZero => String::from_str("Page number must be at least 1"),
            ValidationError::EmptyQuery => String::from_str("Query cannot be empty"),
            ValidationError::QueryTooLong => String::from_str(
                "Query too long (maximum 500 characters)",
            ),
            ValidationError::RatingOutOfRange => String::from_str(
                "Rating must be between 0.0 and 10.0",
            ),
            ValidationError::EidrPrefix => String::from_str("EIDR must start with '10.'"),
            ValidationError::EidrFormat => String::from_str(
                "Invalid EIDR format: expected one '/'",
            ),
            ValidationError::ImdbPrefix => String::from_str("IMDb ID must start with 'tt'"),
            ValidationError::ImdbDigits => String::from_str(
                "IMDb ID must have 7 to 10 digits after 'tt'",
            ),
        }
    }
}

/// What is wrong with a page size, if anything.
pub open spec fn page_size_defect(page_size: u32) -> Option<ValidationError> {
    if page_size < MIN_PAGE_SIZE {
        Some(ValidationError::PageSizeTooSmall)
    } else if page_size > MAX_PAGE_SIZE {
        Some(ValidationError::PageSizeTooLarge)
    } else {
        None
    }
}

/// What is wrong with a query, if anything.
pub open spec fn query_defect(query: Seq<char>) -> Option<ValidationError> {
    if trimmed(query).len() == 0 {
        Some(ValidationError::EmptyQuery)
    } else if trimmed(query).len() > MAX_QUERY_LENGTH {
        Some(ValidationError::QueryTooLong)
    } else {
        None
    }
}

/// How often `c` occurs in `s`.
pub open spec fn occurrences(s: Seq<char>, c: char) -> nat
    decreases s.len(),
{
    if s.len() == 0 {
        0
    } else {
        occurrences(s.drop_last(), c) + if s.last() == c { 1nat } else { 0nat }
    }
}

/// What is wrong with an EIDR, if anything.
pub open spec fn eidr_defect(eidr: Seq<char>) -> Option<ValidationError> {
    if !(eidr.len() >= 3 && eidr[0] == '1' && eidr[1] == '0' && eidr[2] == '.') {
        Some(ValidationError::EidrPrefix)
    } else if occurrences(eidr, '/') != 1 {
        Some(ValidationError::EidrFormat)
    } else {
        None
    }
}

/// Whether `c` is one of `0` to `9`.
pub open spec fn is_decimal_digit(c: char) -> bool {
    '0' <= c <= '9'
}

/// What is wrong with an IMDb identifier, if anything.
pub open spec fn imdb_defect(id: Seq<char>) -> Option<ValidationError> {
    if !(id.len() >= 2 && id[0] == 't' && id[1] == 't') {
        Some(ValidationError::ImdbPrefix)
    } else if !(7 <= id.len() - 2 <= 10 && forall|i: int| 2 <= i < id.len() ==> is_decimal_digit(#[trigger] id[i])) {
        Some(ValidationError::ImdbDigits)
    } else {
        None
    }
}

/// Turns a defect into a verdict.
pub open spec fn verdict(defect: Option<ValidationError>) -> Result<(), ValidationError> {
    match defect {
        Some(e) => Err(e),
        None => Ok(()),
    }
}

/// Accepts the page sizes from 1 to 100.
pub fn validate_page_size(page_size: u32) -> (checked: Result<(), ValidationError>)
    ensures
        checked == verdict(page_size_defect(page_size)),
        checked is Ok <==> 1 <= page_size <= 100,
{
    if page_size < MIN_PAGE_SIZE {
        Err(ValidationError::PageSizeTooSmall)
    } else if page_size > MAX_PAGE_SIZE {
        Err(ValidationError::PageSizeTooLarge)
    } else {
        Ok(())
    }
}

/// Accepts the queries that keep 1 to 500 characters after trimming.
pub fn validate_query(query: &str) -> (checked: Result<(), ValidationError>)
    ensures
        checked == verdict(query_defect(query@)),
        checked is Ok <==> 1 <= trimmed(query@).len() <= 500,
{
    let chars = chars_of(query);
    let kept = trim_chars(&chars);
    if kept.len() == 0 {
        Err(ValidationError::EmptyQuery)
    } else if kept.len() > MAX_QUERY_LENGTH {
        Err(ValidationError::QueryTooLong)
    } else {
        Ok(())
    }
}

/// Accepts the ratings from 0 to 10, given in millionths.
pub fn validate_rating(rating: i64) -> (checked: Result<(), ValidationError>)
    ensures
        checked is Ok <==> 0 <= rating <= MAX_RATING,
        checked is Err ==> checked == Err::<(), ValidationError>(ValidationError::RatingOutOfRange),
{
    if rating < 0 || rating > MAX_RATING {
        Err(ValidationError::RatingOutOfRange)
    } else {
        Ok(())
    }
}

/// Counts the occurrences of a character.
pub fn count_char(s: &Vec<char>, c: char) -> (n: usize)
    ensures
        n == occurrences(s@, c),
{
    let mut n: usize = 0;
    let mut i: usize = 0;
    while i < s.len()
        invariant
            i <= s.len(),
            n <= i,
            n == occurrences(s@.take(i as int), c),
        decreases s.len() - i,
    {
        proof {
            assert(s@.take(i + 1).drop_last() =~= s@.take(i as int));
            assert(s@.take(i + 1).last() == s@[i as int]);
        }
        if s[i] == c {
            n += 1;
        }
        i += 1;
    }
    proof {
        assert(s@.take(s.len() as int) =~= s@);
    }
    n
}

/// Accepts an EIDR that starts with `10.` and has exactly one `/`.
pub fn validate_eidr(eidr: &str) -> (checked: Result<(), ValidationError>)
    ensures
        checked == verdict(eidr_defect(eidr@)),
{
    let chars = chars_of(eidr);
    if !(chars.len() >= 3 && chars[0] == '1' && chars[1] == '0' && chars[2] == '.') {
        return Err(ValidationError::EidrPrefix);
    }
    if count_char(&chars, '/') != 1 {
        return Err(ValidationError::EidrFormat);
    }
    Ok(())
}

/// Accepts an IMDb identifier: `tt` and then 7 to 10 decimal digits.
pub fn validate_imdb_id(id: &str) -> (checked: Result<(), ValidationError>)
    ensures
        checked == verdict(imdb_defect(id@)),
{
    let chars = chars_of(id);
    if !(chars.len() >= 2 && chars[0] == 't' && chars[1] == 't') {
        return Err(ValidationError::ImdbPrefix);
    }
    let digits: usize = chars.len() - 2;
    if digits < 7 || digits > 10 {
        return Err(ValidationError::ImdbDigits);
    }
    let mut i: usize = 2;
    while i < chars.len()
        invariant
            2 <= i <= chars.len(),
            chars@ == id@,
            chars@[0] == 't' && chars@[1] == 't',
            7 <= chars.len() - 2 <= 10,
            forall|j: int| 2 <= j < i ==> is_decimal_digit(#[trigger] chars@[j]),
        decreases chars.len() - i,
    {
        let c = chars[i];
        if !('0' <= c && c <= '9') {
            assert(!is_decimal_digit(id@[i as int]));
            return Err(ValidationError::ImdbDigits);
        }
        i += 1;
    }
    Ok(())
}

} // verus!
