//! The orchestrator: validates a request, and once the intent and both
//! backends have answered, fuses, paginates and builds the response.
//!
//! The service performs no I/O. Its caller validates, asks the intent
//! service and both backends, and hands their outcomes to `search`.

use crate::intent::{IntentParser, ParsedIntent};
use crate::search::filters::SearchFilters;
use crate::search::fusion::{
    fuse, has_distinct_ids, is_fusion, ConfigError, SearchConfig, MAX_LIST_LEN, MAX_RRF_K,
};
use crate::search::{ids, SearchResult};
use crate::validation::{
    page_size_defect, query_defect, validate_page_size, validate_query, ValidationError,
};
use vstd::prelude::*;

verus! {

/// The service configuration.
#[derive(Debug, Clone, Copy, PartialEq, Eq, Structural)]
pub struct DiscoveryConfig {
    pub search: SearchConfig,
}

impl Default for DiscoveryConfig {
    fn default() -> (config: Self)
        ensures
            config.search.rrf_k == 60,
            config.search.weights.vector == 1_000_000,
            config.search.weights.keyword == 1_000_000,
            config.search.valid(),
    {
        DiscoveryConfig { search: SearchConfig::default() }
    }
}

/// A search as a client asks for it.
#[derive(Debug, Clone)]
pub struct SearchRequest {
    pub query: String,
    pub filters: Option<SearchFilters>,
    /// The page wanted; pages count from 1.
    pub page: u32,
    pub page_size: u32,
    /// Who asks; passed through, not used by the fusion.
    pub user_id: Option<u128>,
}

/// One page of fused results.
#[derive(Debug, Clone)]
pub struct SearchResponse {
    pub results: Vec<SearchResult>,
    /// How many results the fused list holds, over all pages.
    pub total_count: usize,
    pub page: u32,
    pub page_size: u32,
    pub query_parsed: ParsedIntent,
    pub search_time_ms: u64,
}

/// One of the two retrieval strategies.
#[derive(Debug, Clone, Copy, PartialEq, Eq, Structural)]
pub enum Backend {
    Vector,
    Keyword,
}

/// Why a search gave no response.
#[derive(Debug, Clone, PartialEq, Eq)]
pub enum SearchError {
    /// The request was refused before any backend was asked.
    InvalidRequest(ValidationError),
    /// A backend failed; nothing of the other's answer is returned.
    RetrievalFailed { backend: Backend, cause: String },
}

/// What is wrong with a request, if anything: the page size is judged first,
/// then the page number, then the query.
pub open spec fn request_defect(request: SearchRequest) -> Option<ValidationError> {
    if page_size_defect(request.page_size) is Some {
        page_size_defect(request.page_size)
    } else if request.page == 0 {
        Some(ValidationError::PageNumberZero)
    } else {
        query_defect(request.query@)
    }
}

/// Where a page starts in a list of `total` items.
pub open spec fn page_start(total: int, page: int, page_size: int) -> int {
    if (page - 1) * page_size < total {
        (page - 1) * page_size
    } else {
        total
    }
}

/// Where a page ends in a list of `total` items.
pub open spec fn page_end(total: int, page: int, page_size: int) -> int {
    if page_start(total, page, page_size) + page_size < total {
        page_start(total, page, page_size) + page_size
    } else {
        total
    }
}

/// The items of `list` that fall on a page. A page beyond the end is empty.
pub open spec fn page_of<T>(list: Seq<T>, page: int, page_size: int) -> Seq<T> {
    list.subrange(
        page_start(list.len() as int, page, page_size),
        page_end(list.len() as int, page, page_size),
    )
}

/// Whether `response` answers `request` with the requested page of the
/// fusion of the two ranked lists, and passes on the intent and the time.
pub open spec fn is_page_of_fusion(
    config: SearchConfig,
    request: SearchRequest,
    intent: ParsedIntent,
    vector: Seq<SearchResult>,
    keyword: Seq<SearchResult>,
    elapsed_ms: u64,
    response: SearchResponse,
) -> bool {
    &&& exists|fused: Seq<SearchResult>| #[trigger]
        is_fusion(config, vector, keyword, fused) && {
            &&& response.results@ == page_of(fused, request.page as int, request.page_size as int)
            &&& response.total_count == fused.len()
        }
    &&& response.page == request.page
    &&& response.page_size == request.page_size
    &&& response.query_parsed == intent
    &&& response.search_time_ms == elapsed_ms
}

/// Whether a ranked list can be fused: it is within the length limit and
/// names no identifier twice.
pub open spec fn well_ranked(list: Seq<SearchResult>) -> bool {
    list.len() <= MAX_LIST_LEN && ids(list).no_duplicates()
}

/// The cause given for a backend whose list cannot be fused.
pub const MALFORMED_LIST: &'static str = "ranked list is too long or names an identifier twice";

/// A page lies within the list and holds at most `page_size` items; the
/// pages follow each other without gap or overlap, and beyond the end of
/// the list they are empty.
pub proof fn lemma_pages_tile(total: int, page: int, page_size: int)
    requires
        total >= 0,
        page >= 1,
        page_size >= 0,
    ensures
        0 <= page_start(total, page, page_size) <= page_end(total, page, page_size) <= total,
        page_end(total, page, page_size) - page_start(total, page, page_size) <= page_size,
        page_start(total, 1, page_size) == 0,
        page_start(total, page + 1, page_size) == page_end(total, page, page_size),
        (page - 1) * page_size >= total ==> page_start(total, page, page_size) == page_end(
            total,
            page,
            page_size,
        ),
        page * page_size <= total ==> page_end(total, page, page_size) - page_start(
            total,
            page,
            page_size,
        ) == page_size,
{
    assert((page - 1) * page_size >= 0) by (nonlinear_arith)
        requires
            page >= 1,
            page_size >= 0,
    ;
    assert(page * page_size == (page - 1) * page_size + page_size) by (nonlinear_arith);
    assert((1 - 1) * page_size == 0) by (nonlinear_arith);
}

/// Cuts one page out of a list.
pub fn paginate(results: Vec<SearchResult>, page: u32, page_size: u32) -> (slice: Vec<SearchResult>)
    requires
        page >= 1,
    ensures
        slice@ == page_of(results@, page as int, page_size as int),
        slice.len() <= page_size,
{
    let ghost all = results@;
    let total: usize = results.len();
    let before: u64 = (page - 1) as u64;
    let size: u64 = page_size as u64;
    assert(before * size <= 0xffff_fffe_0000_0001) by (nonlinear_arith)
        requires
            before <= 0xffff_ffff,
            size <= 0xffff_ffff,
    ;
    let offset: u64 = before * size;
    let start: usize = if offset < total as u64 { offset as usize } else { total };
    let mut results = results;
    let mut slice = results.split_off(start);
    if slice.len() > page_size as usize {
        slice.truncate(page_size as usize);
    }
    proof {
        assert(slice@ =~= page_of(all, page as int, page_size as int));
    }
    slice
}

/// Checks a request the way `search` does.
pub fn validate_request(request: &SearchRequest) -> (checked: Result<(), ValidationError>)
    ensures
        checked == crate::validation::verdict(request_defect(*request)),
{
    match validate_page_size(request.page_size) {
        Err(e) => {
            return Err(e);
        },
        Ok(_) => {},
    }
    if request.page == 0 {
        return Err(ValidationError::PageNumberZero);
    }
    validate_query(request.query.as_str())
}

/// The hybrid search orchestrator.
pub struct HybridSearchService {
    config: DiscoveryConfig,
    intent_parser: IntentParser,
}

impl HybridSearchService {
    #[verifier::type_invariant]
    spec fn well_configured(self) -> bool {
        self.config.search.valid()
    }

    /// The configuration the service runs with.
    pub closed spec fn config(&self) -> DiscoveryConfig {
        self.config
    }

    /// The intent parser the service runs with.
    pub closed spec fn parser(&self) -> IntentParser {
        self.intent_parser
    }

    /// A service, unless the configuration is refused.
    pub fn new(config: DiscoveryConfig, intent_parser: IntentParser) -> (made: Result<Self, ConfigError>)
        ensures
            made is Ok <==> config.search.valid(),
            made matches Ok(service) ==> service.config() == config && service.parser() == intent_parser,
            made matches Err(e) ==> config.search.defect() == Some(e),
    {
        match config.search.validate() {
            Ok(_) => Ok(HybridSearchService { config, intent_parser }),
            Err(e) => Err(e),
        }
    }

    /// The fusion parameters in force.
    pub fn search_config(&self) -> (config: SearchConfig)
        ensures
            config == self.config().search,
            config.valid(),
    {
        proof {
            use_type_invariant(self);
        }
        self.config.search
    }

    /// The intent parser in use.
    pub fn intent_parser(&self) -> (parser: &IntentParser)
        ensures
            *parser == self.parser(),
    {
        &self.intent_parser
    }

    /// Checks a request; a request that fails here must reach no backend.
    pub fn validate(&self, request: &SearchRequest) -> (checked: Result<(), SearchError>)
        ensures
            match request_defect(*request) {
                Some(e) => checked == Err::<(), SearchError>(SearchError::InvalidRequest(e)),
                None => checked is Ok,
            },
    {
        match validate_request(request) {
            Ok(_) => Ok(()),
            Err(e) => Err(SearchError::InvalidRequest(e)),
        }
    }

    /// Fuses the two ranked lists with the configured weights and the given
    /// `k`.
    pub fn reciprocal_rank_fusion(
        &self,
        vector_results: Vec<SearchResult>,
        keyword_results: Vec<SearchResult>,
        k: u32,
    ) -> (fused: Vec<SearchResult>)
        requires
            k <= MAX_RRF_K,
            vector_results.len() <= MAX_LIST_LEN,
            keyword_results.len() <= MAX_LIST_LEN,
            ids(vector_results@).no_duplicates(),
            ids(keyword_results@).no_duplicates(),
        ensures
            is_fusion(
                SearchConfig { rrf_k: k, weights: self.config().search.weights },
                vector_results@,
                keyword_results@,
                fused@,
            ),
            fused.len() <= vector_results.len() + keyword_results.len(),
    {
        proof {
            use_type_invariant(self);
        }
        let config = SearchConfig { rrf_k: k, weights: self.config.search.weights };
        fuse(&config, vector_results, keyword_results)
    }

    /// What the response to `request` is, given the parsed intent, what
    /// each backend answered, and the time the search took.
    ///
    /// An invalid request is refused whatever the backends said. A failed
    /// backend fails the search, the vector backend first; no partial list
    /// is returned. Otherwise the response holds the requested page of the
    /// fused list.
    pub fn search(
        &self,
        request: SearchRequest,
        intent: ParsedIntent,
        vector_outcome: Result<Vec<SearchResult>, String>,
        keyword_outcome: Result<Vec<SearchResult>, String>,
        elapsed_ms: u64,
    ) -> (response: Result<SearchResponse, SearchError>)
        requires
            vector_outcome matches Ok(list) ==> well_ranked(list@),
            keyword_outcome matches Ok(list) ==> well_ranked(list@),
        ensures
            match (request_defect(request), vector_outcome, keyword_outcome) {
                (Some(e), _, _) => response == Err::<SearchResponse, SearchError>(
                    SearchError::InvalidRequest(e),
                ),
                (None, Err(cause), _) => response == Err::<SearchResponse, SearchError>(
                    SearchError::RetrievalFailed { backend: Backend::Vector, cause },
                ),
                (None, Ok(_), Err(cause)) => response == Err::<SearchResponse, SearchError>(
                    SearchError::RetrievalFailed { backend: Backend::Keyword, cause },
                ),
                (None, Ok(vector), Ok(keyword)) => response matches Ok(found) && is_page_of_fusion(
                    self.config().search,
                    request,
                    intent,
                    vector@,
                    keyword@,
                    elapsed_ms,
                    found,
                ),
            },
    {
        proof {
            use_type_invariant(self);
        }
        match validate_request(&request) {
            Err(e) => {
                return Err(SearchError::InvalidRequest(e));
            },
            Ok(_) => {},
        }
        let vector = match vector_outcome {
            Ok(list) => list,
            Err(cause) => {
                return Err(SearchError::RetrievalFailed { backend: Backend::Vector, cause });
            },
        };
        let keyword = match keyword_outcome {
            Ok(list) => list,
            Err(cause) => {
                return Err(SearchError::RetrievalFailed { backend: Backend::Keyword, cause });
            },
        };
        let config = self.config.search;
        let fused = fuse(&config, vector, keyword);
        let ghost all = fused@;
        let total_count = fused.len();
        let results = paginate(fused, request.page, request.page_size);
        let response = SearchResponse {
            results,
            total_count,
            page: request.page,
            page_size: request.page_size,
            query_parsed: intent,
            search_time_ms: elapsed_ms,
        };
        proof {
            assert(is_fusion(self.config().search, vector@, keyword@, all));
        }
        Ok(response)
    }

    /// `search` for outcomes as the backends deliver them: a list that
    /// cannot be fused counts as a failure of its backend, with the cause
    /// `MALFORMED_LIST`.
    pub fn search_checked(
        &self,
        request: SearchRequest,
        intent: ParsedIntent,
        vector_outcome: Result<Vec<SearchResult>, String>,
        keyword_outcome: Result<Vec<SearchResult>, String>,
        elapsed_ms: u64,
    ) -> (response: Result<SearchResponse, SearchError>)
        ensures
            match (request_defect(request), vector_outcome, keyword_outcome) {
                (Some(e), _, _) => response == Err::<SearchResponse, SearchError>(
                    SearchError::InvalidRequest(e),
                ),
                (None, Err(cause), _) => response == Err::<SearchResponse, SearchError>(
                    SearchError::RetrievalFailed { backend: Backend::Vector, cause },
                ),
                (None, Ok(vector), _) if !well_ranked(vector@) => response matches Err(
                    SearchError::RetrievalFailed { backend: Backend::Vector, cause },
                ) && cause@ == MALFORMED_LIST@,
                (None, Ok(_), Err(cause)) => response == Err::<SearchResponse, SearchError>(
                    SearchError::RetrievalFailed { backend: Backend::Keyword, cause },
                ),
                (None, Ok(_), Ok(keyword)) if !well_ranked(keyword@) => response matches Err(
                    SearchError::RetrievalFailed { backend: Backend::Keyword, cause },
                ) && cause@ == MALFORMED_LIST@,
                (None, Ok(vector), Ok(keyword)) => response matches Ok(found) && is_page_of_fusion(
                    self.config().search,
                    request,
                    intent,
                    vector@,
                    keyword@,
                    elapsed_ms,
                    found,
                ),
            },
    {
        match validate_request(&request) {
            Err(e) => {
                return Err(SearchError::InvalidRequest(e));
            },
            Ok(_) => {},
        }
        let vector = match vector_outcome {
            Ok(list) => {
                if list.len() > MAX_LIST_LEN || !has_distinct_ids(&list) {
                    return Err(
                        SearchError::RetrievalFailed {
                            backend: Backend::Vector,
                            cause: MALFORMED_LIST.to_owned(),
                        },
                    );
                }
                list
            },
            Err(cause) => {
                return Err(SearchError::RetrievalFailed { backend: Backend::Vector, cause });
            },
        };
        let keyword = match keyword_outcome {
            Ok(list) => {
                if list.len() > MAX_LIST_LEN || !has_distinct_ids(&list) {
                    return Err(
                        SearchError::RetrievalFailed {
                            backend: Backend::Keyword,
                            cause: MALFORMED_LIST.to_owned(),
                        },
                    );
                }
                list
            },
            Err(cause) => {
                return Err(SearchError::RetrievalFailed { backend: Backend::Keyword, cause });
            },
        };
        self.search(request, intent, Ok(vector), Ok(keyword), elapsed_ms)
    }
}

} // verus!
