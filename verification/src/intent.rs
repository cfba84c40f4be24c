//! From free text to a structured intent: a remote extraction that may fail,
//! and a local fallback that cannot.
//!
//! The confidence of an intent is carried in millionths.

use crate::text::{
    chars_of, split_words, string_of, strings_of, trim_chars, trimmed, unicode_lowercase, view_of,
    views, words,
};
use vstd::prelude::*;
use vstd::string::StringExecFns;

verus! {

/// The confidence the fallback gives its own result: 0.5.
pub const FALLBACK_CONFIDENCE: i64 = 500_000;

/// The highest confidence: 1.0.
pub const FULL_CONFIDENCE: i64 = 1_000_000;

/// Finds a title after the word "like".
pub const LIKE_PATTERN: &'static str = "like\\s+([A-Z][a-zA-Z0-9\\s]+)";

/// Finds a title after the words "similar to".
pub const SIMILAR_PATTERN: &'static str = "similar to\\s+([A-Z][a-zA-Z0-9\\s]+)";

/// The model that is asked to extract intents.
pub const INTENT_MODEL: &'static str = "gpt-4o-mini";

/// The system message sent along with every extraction request.
pub const INTENT_PARSER_SYSTEM_PROMPT: &'static str =
    "You are a media search intent parser.\nExtract structured information from user queries about movies and TV shows.\nFocus on mood, themes, references to other content, and filters.\nReturn valid JSON matching the specified schema.\nBe conservative with confidence scores - only give high scores when intent is very clear.";

/// What the extraction request says before the query.
pub const PROMPT_HEAD: &'static str =
    "Analyze this media search query and extract structured information:\n\nQuery: \"";

/// What the extraction request says after the query.
pub const PROMPT_TAIL: &'static str =
    "\"\n\nExtract:\n1. Mood/Vibes: emotional tone (e.g., \"dark\", \"uplifting\", \"tense\")\n2. Themes: main subjects (e.g., \"heist\", \"romance\", \"sci-fi\")\n3. References: \"similar to X\" or \"like Y\" mentions\n4. Filters: platform, genre, year constraints\n5. Confidence: 0.0-1.0 score for extraction quality\n\nReturn JSON:\n{\n  \"mood\": [\"mood1\", \"mood2\"],\n  \"themes\": [\"theme1\", \"theme2\"],\n  \"references\": [\"title1\", \"title2\"],\n  \"filters\": {\n    \"genre\": [\"genre1\"],\n    \"platform\": [\"platform1\"],\n    \"year_range\": {\"min\": 2020, \"max\": 2024}\n  },\n  \"fallback_query\": \"simplified query string\",\n  \"confidence\": 0.85\n}";

/// Filters read off a query.
#[derive(Debug, Clone)]
pub struct IntentFilters {
    pub genre: Vec<String>,
    pub platform: Vec<String>,
    /// Inclusive release-year range `(min, max)`.
    pub year_range: Option<(i32, i32)>,
}

impl Default for IntentFilters {
    fn default() -> (filters: Self)
        ensures
            filters.genre@.len() == 0,
            filters.platform@.len() == 0,
            filters.year_range is None,
    {
        IntentFilters { genre: Vec::new(), platform: Vec::new(), year_range: None }
    }
}

/// What kind of request a query is.
#[derive(Debug, Clone, Copy, PartialEq, Eq, Structural)]
pub enum IntentType {
    /// A direct search.
    Search,
    /// A request for recommendations.
    Recommendation,
    /// A question about content.
    Trivia,
}

/// The structured reading of a query.
#[derive(Debug, Clone)]
pub struct ParsedIntent {
    /// Mood keywords, in order.
    pub mood: Vec<String>,
    /// Theme keywords.
    pub themes: Vec<String>,
    /// Titles the query refers to ("like X").
    pub references: Vec<String>,
    pub filters: IntentFilters,
    /// The query to use verbatim when nothing structured was found.
    pub fallback_query: String,
    /// How much the extraction trusts itself, in millionths.
    pub confidence: i64,
}

/// Why the remote extraction gave no usable intent. Never shown to a caller
/// of `parse`: every failure ends in the fallback.
#[derive(Debug, Clone, Copy, PartialEq, Eq, Structural)]
pub enum IntentParseFailure {
    /// The request did not complete.
    Transport,
    /// The reply was not the expected envelope.
    InvalidResponse,
    /// The reply's content was not an intent.
    InvalidIntent,
    /// The intent's confidence lies outside 0 to 1.
    InvalidConfidence,
}

/// One row of a keyword table: a lowercase word and the canonical name it
/// stands for.
#[derive(Debug, Clone)]
pub struct Keyword {
    pub token: String,
    pub value: String,
}

/// A keyword table as pairs of word and canonical name.
pub open spec fn keyword_view(table: Seq<Keyword>) -> Seq<(Seq<char>, Seq<char>)> {
    table.map_values(|k: Keyword| (k.token@, k.value@))
}

/// The canonical name of `word`: that of the first row whose word it is.
pub open spec fn lookup(table: Seq<(Seq<char>, Seq<char>)>, word: Seq<char>) -> Option<Seq<char>>
    decreases table.len(),
{
    if table.len() == 0 {
        None
    } else if table[0].0 == word {
        Some(table[0].1)
    } else {
        lookup(table.drop_first(), word)
    }
}

/// The canonical names of the words that the table knows, in the order of
/// the words.
pub open spec fn hits(table: Seq<(Seq<char>, Seq<char>)>, tokens: Seq<Seq<char>>) -> Seq<Seq<char>>
    decreases tokens.len(),
{
    if tokens.len() == 0 {
        Seq::empty()
    } else {
        let rest = hits(table, tokens.drop_last());
        match lookup(table, tokens.last()) {
            Some(value) => rest.push(value),
            None => rest,
        }
    }
}

/// The genre words the fallback knows.
pub open spec fn genre_table() -> Seq<(Seq<char>, Seq<char>)> {
    seq![
        ("action"@, "action"@),
        ("comedy"@, "comedy"@),
        ("drama"@, "drama"@),
        ("horror"@, "horror"@),
        ("thriller"@, "thriller"@),
        ("romance"@, "romance"@),
        ("sci-fi"@, "science_fiction"@),
        ("scifi"@, "science_fiction"@),
        ("fantasy"@, "fantasy"@),
        ("documentary"@, "documentary"@),
    ]
}

/// The platform words the fallback knows.
pub open spec fn platform_table() -> Seq<(Seq<char>, Seq<char>)> {
    seq![
        ("netflix"@, "netflix"@),
        ("prime"@, "prime_video"@),
        ("hulu"@, "hulu"@),
        ("disney"@, "disney_plus"@),
        ("hbo"@, "hbo_max"@),
    ]
}

/// The referenced titles, given what each of the two patterns captured:
/// each capture trimmed, "like" before "similar to".
pub open spec fn references_from(like: Option<Seq<char>>, similar: Option<Seq<char>>) -> Seq<Seq<char>> {
    (match like {
        Some(title) => seq![trimmed(title)],
        None => Seq::empty(),
    }) + (match similar {
        Some(title) => seq![trimmed(title)],
        None => Seq::empty(),
    })
}

/// Whether a confidence lies in 0 to 1.
pub open spec fn confidence_in_range(confidence: i64) -> bool {
    0 <= confidence <= FULL_CONFIDENCE
}

/// What the first capture group holds in the leftmost match of a regular
/// expression in a text; `None` where the pattern does not compile, nothing
/// matches, or the group took no part.
pub uninterp spec fn regex_first_group(pattern: Seq<char>, haystack: Seq<char>) -> Option<Seq<char>>;

/// Compiles `pattern` with `regex::Regex::new`, searches `haystack` with
/// `Regex::captures` and copies out group 1 with `Captures::get` and
/// `Match::as_str`. The contract gives the outcome its name and claims no
/// more of it.
#[verifier::external_body]
fn first_capture(pattern: &str, haystack: &str) -> (capture: Option<String>)
    ensures
        view_of(capture) == regex_first_group(pattern@, haystack@),
{
    match regex::Regex::new(pattern) {
        Ok(re) => match re.captures(haystack) {
            Some(groups) => match groups.get(1) {
                Some(found) => Some(found.as_str().to_string()),
                None => None,
            },
            None => None,
        },
        Err(_) => None,
    }
}

/// A table row.
pub fn keyword(token: &str, value: &str) -> (row: Keyword)
    ensures
        row.token@ == token@,
        row.value@ == value@,
{
    Keyword { token: token.to_owned(), value: value.to_owned() }
}

/// The genre table of the fallback.
pub fn default_genre_keywords() -> (table: Vec<Keyword>)
    ensures
        keyword_view(table@) == genre_table(),
{
    let mut table: Vec<Keyword> = Vec::new();
    table.push(keyword("action", "action"));
    table.push(keyword("comedy", "comedy"));
    table.push(keyword("drama", "drama"));
    table.push(keyword("horror", "horror"));
    table.push(keyword("thriller", "thriller"));
    table.push(keyword("romance", "romance"));
    table.push(keyword("sci-fi", "science_fiction"));
    table.push(keyword("scifi", "science_fiction"));
    table.push(keyword("fantasy", "fantasy"));
    table.push(keyword("documentary", "documentary"));
    proof {
        assert(keyword_view(table@) =~= genre_table());
    }
    table
}

/// The platform table of the fallback.
pub fn default_platform_keywords() -> (table: Vec<Keyword>)
    ensures
        keyword_view(table@) == platform_table(),
{
    let mut table: Vec<Keyword> = Vec::new();
    table.push(keyword("netflix", "netflix"));
    table.push(keyword("prime", "prime_video"));
    table.push(keyword("hulu", "hulu"));
    table.push(keyword("disney", "disney_plus"));
    table.push(keyword("hbo", "hbo_max"));
    proof {
        assert(keyword_view(table@) =~= platform_table());
    }
    table
}

/// Looks a word up in a table.
pub fn lookup_keyword(table: &Vec<Keyword>, word: &String) -> (hit: Option<String>)
    ensures
        view_of(hit) == lookup(keyword_view(table@), word@),
{
    let ghost rows = keyword_view(table@);
    let mut i: usize = 0;
    proof {
        assert(rows.skip(0) =~= rows);
    }
    while i < table.len()
        invariant
            i <= table.len(),
            rows == keyword_view(table@),
            lookup(rows, word@) == lookup(rows.skip(i as int), word@),
        decreases table.len() - i,
    {
        proof {
            assert(rows.skip(i as int)[0] == rows[i as int]);
            assert(rows.skip(i as int).drop_first() =~= rows.skip(i + 1));
        }
        if table[i].token == *word {
            return Some(table[i].value.clone());
        }
        i += 1;
    }
    None
}

/// The canonical names of the words that `table` knows, in word order.
pub fn match_keywords(table: &Vec<Keyword>, tokens: &Vec<String>) -> (found: Vec<String>)
    ensures
        views(found@) == hits(keyword_view(table@), views(tokens@)),
{
    let ghost rows = keyword_view(table@);
    let ghost all = views(tokens@);
    let mut found: Vec<String> = Vec::new();
    let mut i: usize = 0;
    proof {
        assert(views(found@) =~= Seq::<Seq<char>>::empty());
    }
    while i < tokens.len()
        invariant
            i <= tokens.len(),
            rows == keyword_view(table@),
            all == views(tokens@),
            views(found@) == hits(rows, all.take(i as int)),
        decreases tokens.len() - i,
    {
        let ghost before = views(found@);
        proof {
            assert(all.take(i + 1).drop_last() =~= all.take(i as int));
            assert(all.take(i + 1).last() == tokens@[i as int]@);
        }
        match lookup_keyword(table, &tokens[i]) {
            Some(value) => {
                let ghost v = value@;
                found.push(value);
                proof {
                    assert(views(found@) =~= before.push(v));
                }
            },
            None => {},
        }
        i += 1;
    }
    proof {
        assert(all.take(tokens.len() as int) =~= all);
    }
    found
}

/// The referenced titles, from what the two patterns captured.
pub fn collect_references(like: Option<String>, similar: Option<String>) -> (references: Vec<String>)
    ensures
        views(references@) == references_from(view_of(like), view_of(similar)),
{
    let mut references: Vec<String> = Vec::new();
    if let Some(title) = like {
        let chars = chars_of(title.as_str());
        let kept = trim_chars(&chars);
        references.push(string_of(&kept));
    }
    if let Some(title) = similar {
        let chars = chars_of(title.as_str());
        let kept = trim_chars(&chars);
        references.push(string_of(&kept));
    }
    proof {
        assert(views(references@) =~= references_from(view_of(like), view_of(similar)));
    }
    references
}

/// Reads intents out of queries. The remote service is reached by the
/// caller; the parser says what to ask and what to make of the reply.
#[derive(Debug, Clone)]
pub struct IntentParser {
    pub api_url: String,
    pub api_key: String,
    /// Words that name a genre.
    pub genre_keywords: Vec<Keyword>,
    /// Words that name a platform.
    pub platform_keywords: Vec<Keyword>,
}

impl IntentParser {
    /// A parser with the built-in keyword tables.
    pub fn new(api_url: String, api_key: String) -> (parser: Self)
        ensures
            parser.api_url == api_url,
            parser.api_key == api_key,
            keyword_view(parser.genre_keywords@) == genre_table(),
            keyword_view(parser.platform_keywords@) == platform_table(),
    {
        IntentParser {
            api_url,
            api_key,
            genre_keywords: default_genre_keywords(),
            platform_keywords: default_platform_keywords(),
        }
    }

    /// Whether `intent` is what the fallback makes of `query`, given the
    /// lowercase form of the query and what the two title patterns captured
    /// in it.
    pub open spec fn is_fallback(
        &self,
        query: Seq<char>,
        lowered: Seq<char>,
        like: Option<Seq<char>>,
        similar: Option<Seq<char>>,
        intent: ParsedIntent,
    ) -> bool {
        &&& intent.mood@.len() == 0
        &&& intent.themes@.len() == 0
        &&& views(intent.references@) == references_from(like, similar)
        &&& views(intent.filters.genre@) == hits(keyword_view(self.genre_keywords@), words(lowered))
        &&& views(intent.filters.platform@) == hits(
            keyword_view(self.platform_keywords@),
            words(lowered),
        )
        &&& intent.filters.year_range is None
        &&& intent.fallback_query@ == query
        &&& intent.confidence == FALLBACK_CONFIDENCE
    }

    /// The text of the extraction request for `query`.
    pub fn build_prompt(&self, query: &str) -> (prompt: String)
        ensures
            prompt@ == PROMPT_HEAD@ + query@ + PROMPT_TAIL@,
    {
        let mut prompt = String::from_str(PROMPT_HEAD);
        prompt.append(query);
        prompt.append(PROMPT_TAIL);
        prompt
    }

    /// The genres that the words name.
    pub fn extract_genres(&self, tokens: &Vec<String>) -> (genres: Vec<String>)
        ensures
            views(genres@) == hits(keyword_view(self.genre_keywords@), views(tokens@)),
    {
        match_keywords(&self.genre_keywords, tokens)
    }

    /// The platforms that the words name.
    pub fn extract_platforms(&self, tokens: &Vec<String>) -> (platforms: Vec<String>)
        ensures
            views(platforms@) == hits(keyword_view(self.platform_keywords@), views(tokens@)),
    {
        match_keywords(&self.platform_keywords, tokens)
    }

    /// The titles that the query refers to with "like" or "similar to".
    pub fn extract_references(&self, query: &str) -> (references: Vec<String>)
        ensures
            views(references@) == references_from(
                regex_first_group(LIKE_PATTERN@, query@),
                regex_first_group(SIMILAR_PATTERN@, query@),
            ),
    {
        let like = first_capture(LIKE_PATTERN, query);
        let similar = first_capture(SIMILAR_PATTERN, query);
        collect_references(like, similar)
    }

    /// The fallback intent, from the query, its lowercase form and the two
    /// captures.
    pub fn fallback_from(
        &self,
        query: &str,
        lowered: &str,
        like: Option<String>,
        similar: Option<String>,
    ) -> (intent: ParsedIntent)
        ensures
            self.is_fallback(query@, lowered@, view_of(like), view_of(similar), intent),
    {
        let chars = chars_of(lowered);
        let split = split_words(&chars);
        let tokens = strings_of(&split);
        let genres = self.extract_genres(&tokens);
        let platforms = self.extract_platforms(&tokens);
        let references = collect_references(like, similar);
        ParsedIntent {
            mood: Vec::new(),
            themes: Vec::new(),
            references,
            filters: IntentFilters { genre: genres, platform: platforms, year_range: None },
            fallback_query: query.to_owned(),
            confidence: FALLBACK_CONFIDENCE,
        }
    }

    /// Reads what it can from the words of the query alone. Never fails.
    pub fn fallback_parse(&self, query: &str) -> (intent: ParsedIntent)
        ensures
            self.is_fallback(
                query@,
                unicode_lowercase(query@),
                regex_first_group(LIKE_PATTERN@, query@),
                regex_first_group(SIMILAR_PATTERN@, query@),
                intent,
            ),
    {
        let lowered = query.to_lowercase();
        let like = first_capture(LIKE_PATTERN, query);
        let similar = first_capture(SIMILAR_PATTERN, query);
        self.fallback_from(query, lowered.as_str(), like, similar)
    }

    /// What to make of the remote reply: an intent that was delivered is
    /// kept if its confidence is in range; every failure is passed on.
    pub fn parse_with_gpt(&self, reply: Result<ParsedIntent, IntentParseFailure>) -> (checked: Result<ParsedIntent, IntentParseFailure>)
        ensures
            checked == match reply {
                Ok(intent) => if confidence_in_range(intent.confidence) {
                    Ok(intent)
                } else {
                    Err(IntentParseFailure::InvalidConfidence)
                },
                Err(failure) => Err(failure),
            },
    {
        match reply {
            Ok(intent) => {
                if intent.confidence < 0 || intent.confidence > FULL_CONFIDENCE {
                    Err(IntentParseFailure::InvalidConfidence)
                } else {
                    Ok(intent)
                }
            },
            Err(failure) => Err(failure),
        }
    }

    /// The intent of `query`: the remote one where it was delivered and is
    /// valid, else the fallback.
    pub fn parse(&self, query: &str, reply: Result<ParsedIntent, IntentParseFailure>) -> (intent: ParsedIntent)
        ensures
            match reply {
                Ok(remote) if confidence_in_range(remote.confidence) => intent == remote,
                _ => self.is_fallback(
                    query@,
                    unicode_lowercase(query@),
                    regex_first_group(LIKE_PATTERN@, query@),
                    regex_first_group(SIMILAR_PATTERN@, query@),
                    intent,
                ),
            },
            confidence_in_range(intent.confidence),
    {
        match self.parse_with_gpt(reply) {
            Ok(intent) => intent,
            Err(_) => self.fallback_parse(query),
        }
    }
}

} // verus!
