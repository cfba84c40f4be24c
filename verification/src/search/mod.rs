//! Hybrid search: two ranked lists fused by reciprocal rank, then paginated.

pub mod filters;
pub mod fusion;
pub mod service;

use crate::search::fusion::Score;
use vstd::prelude::*;

verus! {

/// What a search result shows of a piece of content. Scores that a backend
/// hands over are carried in millionths and never recomputed.
#[derive(Debug, Clone)]
pub struct ContentSummary {
    /// The content identifier.
    pub id: u128,
    pub title: String,
    pub overview: String,
    pub release_year: i32,
    pub genres: Vec<String>,
    pub platforms: Vec<String>,
    /// Popularity, in millionths.
    pub popularity_score: i64,
}

/// One ranked item: as a backend returns it, and as the fused list holds it.
#[derive(Debug, Clone)]
pub struct SearchResult {
    pub content: ContentSummary,
    /// The relevance of the item; after fusion, its fused score.
    pub relevance_score: Score,
    /// Human-readable reasons for the match, in order.
    pub match_reasons: Vec<String>,
    /// The raw vector similarity, in millionths, where the vector backend
    /// produced the item.
    pub vector_similarity: Option<i64>,
    /// The raw graph score, in millionths.
    pub graph_score: Option<i64>,
    /// The raw keyword score, in millionths, where the keyword backend
    /// produced the item.
    pub keyword_score: Option<i64>,
}

/// The content identifiers of a ranked list, in rank order.
pub open spec fn ids(list: Seq<SearchResult>) -> Seq<u128> {
    list.map_values(|r: SearchResult| r.content.id)
}

/// `result` is `base` with nothing but the relevance score replaced.
pub open spec fn rescored(result: SearchResult, base: SearchResult) -> bool {
    result == (SearchResult { relevance_score: result.relevance_score, ..base })
}

} // verus!
