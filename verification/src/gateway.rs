//! The gateway's routing table: for every route, which service answers it
//! and under which path, what is passed on, and who may call it.

use crate::text::{format_decimal, string_of};
use vstd::prelude::*;
use vstd::string::StringExecFns;

verus! {

/// The name under which callers without identity are counted.
pub const ANONYMOUS: &'static str = "anonymous";

/// A route of the gateway.
#[derive(Debug, Clone, Copy, PartialEq, Eq, Structural)]
pub enum Route {
    /// Opens a playback session.
    CreateSession,
    /// Reads a playback session.
    GetSession,
    /// Ends a playback session.
    DeleteSession,
    /// Moves the position of a playback session.
    UpdatePosition,
    /// Lists the playback sessions of a user.
    GetUserSessions,
    /// Searches by meaning and by words.
    HybridSearch,
    /// Searches by meaning only.
    SemanticSearch,
    /// Completes a query.
    Autocomplete,
    /// Asks for recommendations.
    GetRecommendations,
    /// Scores content for a viewer.
    ScorePersonalization,
    /// Reads the metrics of an experiment.
    GetExperimentMetrics,
    /// Synchronizes the watchlist.
    SyncWatchlist,
    /// Synchronizes watch progress.
    SyncProgress,
    /// Lists the devices of a user.
    ListDevices,
    /// Hands playback over to another device.
    DeviceHandoff,
    /// Reads the profile of the caller.
    GetProfile,
    /// Changes the preferences of the caller.
    UpdatePreferences,
    /// Reads the watchlist of the caller.
    GetWatchlist,
    /// Adds to the watchlist of the caller.
    AddToWatchlist,
    /// Removes from the watchlist of the caller.
    RemoveFromWatchlist,
    /// Reads the viewing history of the caller.
    GetHistory,
}

/// What a route asks of the identity of its caller.
#[derive(Debug, Clone, Copy, PartialEq, Eq, Structural)]
pub enum IdentityRule {
    /// The identity is not looked at.
    Ignored,
    /// A caller without identity counts as anonymous.
    Optional,
    /// A caller without identity is refused.
    Required,
}

/// What a route does with the query string of the request.
#[derive(Debug, Clone, Copy, PartialEq, Eq, Structural)]
pub enum QueryRule {
    /// It is passed on as it came.
    Passed,
    /// It is not passed on.
    Dropped,
    /// An empty one is passed on where the request has none or an empty
    /// one; any other is not passed on.
    EmptyOnly,
}

/// Where a request is forwarded to.
#[derive(Debug, Clone, PartialEq, Eq)]
pub struct ProxyTarget {
    pub service: String,
    pub path: String,
}

/// Who calls, and in which tier.
#[derive(Debug, Clone, PartialEq, Eq)]
pub struct UserContext {
    pub user_id: String,
    pub tier: String,
}

/// What the rate limiter allows a caller.
#[derive(Debug, Clone, Copy, PartialEq, Eq, Structural)]
pub struct RateLimitInfo {
    pub limit: u64,
    pub remaining: u64,
    pub reset: u64,
}

impl Route {
    /// The service that answers the route.
    pub open spec fn service(&self) -> Seq<char> {
        match self {
            Route::CreateSession | Route::GetSession | Route::DeleteSession | Route::UpdatePosition | Route::GetUserSessions => "playback"@,
            Route::HybridSearch | Route::SemanticSearch | Route::Autocomplete => "discovery"@,
            Route::GetRecommendations | Route::ScorePersonalization | Route::GetExperimentMetrics => "sona"@,
            Route::SyncWatchlist | Route::SyncProgress | Route::ListDevices | Route::DeviceHandoff | Route::GetWatchlist | Route::AddToWatchlist | Route::RemoveFromWatchlist | Route::GetHistory => "sync"@,
            Route::GetProfile | Route::UpdatePreferences => "auth"@,
        }
    }

    /// The path up to the parameter, or the whole path of a route without
    /// parameter.
    pub open spec fn path_prefix(&self) -> Seq<char> {
        match self {
            Route::CreateSession => "/api/v1/sessions"@,
            Route::GetSession | Route::DeleteSession | Route::UpdatePosition => "/api/v1/sessions/"@,
            Route::GetUserSessions => "/api/v1/users/"@,
            Route::HybridSearch => "/api/v1/search"@,
            Route::SemanticSearch => "/api/v1/search/semantic"@,
            Route::Autocomplete => "/api/v1/search/autocomplete"@,
            Route::GetRecommendations => "/recommendations"@,
            Route::ScorePersonalization => "/personalization/score"@,
            Route::GetExperimentMetrics => "/experiments/"@,
            Route::SyncWatchlist => "/api/v1/sync/watchlist"@,
            Route::SyncProgress => "/api/v1/sync/progress"@,
            Route::ListDevices => "/api/v1/devices"@,
            Route::DeviceHandoff => "/api/v1/devices/handoff"@,
            Route::GetProfile => "/api/v1/user/profile"@,
            Route::UpdatePreferences => "/api/v1/user/preferences"@,
            Route::GetWatchlist | Route::AddToWatchlist => "/api/v1/user/watchlist"@,
            Route::RemoveFromWatchlist => "/api/v1/user/watchlist/"@,
            Route::GetHistory => "/api/v1/user/history"@,
        }
    }

    /// The path after the parameter; `None` for a route without parameter.
    pub open spec fn path_suffix(&self) -> Option<Seq<char>> {
        match self {
            Route::CreateSession | Route::HybridSearch | Route::SemanticSearch | Route::Autocomplete | Route::GetRecommendations | Route::ScorePersonalization | Route::SyncWatchlist | Route::SyncProgress | Route::ListDevices | Route::DeviceHandoff | Route::GetProfile | Route::UpdatePreferences | Route::GetWatchlist | Route::AddToWatchlist | Route::GetHistory => None,
            Route::GetSession | Route::DeleteSession | Route::RemoveFromWatchlist => Some(""@),
            Route::UpdatePosition => Some("/position"@),
            Route::GetUserSessions => Some("/sessions"@),
            Route::GetExperimentMetrics => Some("/metrics"@),
        }
    }

    /// The path under which the service answers, for the parameter of the
    /// request.
    pub open spec fn path(&self, parameter: Seq<char>) -> Seq<char> {
        match self.path_suffix() {
            Some(suffix) => self.path_prefix() + parameter + suffix,
            None => self.path_prefix(),
        }
    }

    /// What the route asks of the identity of its caller.
    pub open spec fn identity(&self) -> IdentityRule {
        match self {
            Route::CreateSession | Route::GetSession | Route::DeleteSession | Route::UpdatePosition | Route::GetUserSessions => IdentityRule::Ignored,
            Route::HybridSearch | Route::SemanticSearch | Route::Autocomplete | Route::GetRecommendations | Route::ScorePersonalization | Route::GetExperimentMetrics | Route::SyncWatchlist | Route::SyncProgress | Route::ListDevices | Route::DeviceHandoff => IdentityRule::Optional,
            Route::GetProfile | Route::UpdatePreferences | Route::GetWatchlist | Route::AddToWatchlist | Route::RemoveFromWatchlist | Route::GetHistory => IdentityRule::Required,
        }
    }

    /// What the route does with the query string.
    pub open spec fn query(&self) -> QueryRule {
        match self {
            Route::CreateSession | Route::GetSession | Route::DeleteSession | Route::UpdatePosition | Route::GetUserSessions | Route::GetRecommendations | Route::ScorePersonalization | Route::GetExperimentMetrics | Route::SyncWatchlist | Route::SyncProgress | Route::ListDevices | Route::DeviceHandoff => QueryRule::Passed,
            Route::HybridSearch | Route::SemanticSearch | Route::GetProfile | Route::UpdatePreferences | Route::AddToWatchlist | Route::RemoveFromWatchlist => QueryRule::Dropped,
            Route::Autocomplete | Route::GetWatchlist | Route::GetHistory => QueryRule::EmptyOnly,
        }
    }

    /// Whether the body of the request is passed on.
    pub open spec fn passes_body(&self) -> bool {
        match self {
            Route::CreateSession | Route::UpdatePosition | Route::HybridSearch | Route::SemanticSearch | Route::GetRecommendations | Route::ScorePersonalization | Route::SyncWatchlist | Route::SyncProgress | Route::DeviceHandoff | Route::UpdatePreferences | Route::AddToWatchlist => true,
            Route::GetSession | Route::DeleteSession | Route::GetUserSessions | Route::Autocomplete | Route::GetExperimentMetrics | Route::ListDevices | Route::GetProfile | Route::GetWatchlist | Route::RemoveFromWatchlist | Route::GetHistory => false,
        }
    }

    /// Whether calls count against the rate limit of the caller.
    pub open spec fn limited(&self) -> bool {
        self.identity() != IdentityRule::Ignored
    }

    fn service_name(&self) -> (name: &'static str)
        ensures
            name@ == self.service(),
    {
        match self {
            Route::CreateSession | Route::GetSession | Route::DeleteSession | Route::UpdatePosition | Route::GetUserSessions => "playback",
            Route::HybridSearch | Route::SemanticSearch | Route::Autocomplete => "discovery",
            Route::GetRecommendations | Route::ScorePersonalization | Route::GetExperimentMetrics => "sona",
            Route::SyncWatchlist | Route::SyncProgress | Route::ListDevices | Route::DeviceHandoff | Route::GetWatchlist | Route::AddToWatchlist | Route::RemoveFromWatchlist | Route::GetHistory => "sync",
            Route::GetProfile | Route::UpdatePreferences => "auth",
        }
    }

    fn prefix(&self) -> (prefix: &'static str)
        ensures
            prefix@ == self.path_prefix(),
    {
        match self {
            Route::CreateSession => "/api/v1/sessions",
            Route::GetSession | Route::DeleteSession | Route::UpdatePosition => "/api/v1/sessions/",
            Route::GetUserSessions => "/api/v1/users/",
            Route::HybridSearch => "/api/v1/search",
            Route::SemanticSearch => "/api/v1/search/semantic",
            Route::Autocomplete => "/api/v1/search/autocomplete",
            Route::GetRecommendations => "/recommendations",
            Route::ScorePersonalization => "/personalization/score",
            Route::GetExperimentMetrics => "/experiments/",
            Route::SyncWatchlist => "/api/v1/sync/watchlist",
            Route::SyncProgress => "/api/v1/sync/progress",
            Route::ListDevices => "/api/v1/devices",
            Route::DeviceHandoff => "/api/v1/devices/handoff",
            Route::GetProfile => "/api/v1/user/profile",
            Route::UpdatePreferences => "/api/v1/user/preferences",
            Route::GetWatchlist | Route::AddToWatchlist => "/api/v1/user/watchlist",
            Route::RemoveFromWatchlist => "/api/v1/user/watchlist/",
            Route::GetHistory => "/api/v1/user/history",
        }
    }

    fn suffix(&self) -> (suffix: Option<&'static str>)
        ensures
            match suffix {
                Some(s) => self.path_suffix() == Some(s@),
                None => self.path_suffix() is None,
            },
    {
        match self {
            Route::CreateSession | Route::HybridSearch | Route::SemanticSearch | Route::Autocomplete | Route::GetRecommendations | Route::ScorePersonalization | Route::SyncWatchlist | Route::SyncProgress | Route::ListDevices | Route::DeviceHandoff | Route::GetProfile | Route::UpdatePreferences | Route::GetWatchlist | Route::AddToWatchlist | Route::GetHistory => None,
            Route::GetSession | Route::DeleteSession | Route::RemoveFromWatchlist => Some(""),
            Route::UpdatePosition => Some("/position"),
            Route::GetUserSessions => Some("/sessions"),
            Route::GetExperimentMetrics => Some("/metrics"),
        }
    }

    /// Where a request on the route is forwarded to. `parameter` is the
    /// parameter in the path of the request; a route without parameter
    /// ignores it.
    pub fn target(&self, parameter: &str) -> (target: ProxyTarget)
        ensures
            target.service@ == self.service(),
            target.path@ == self.path(parameter@),
    {
        let mut path = String::from_str(self.prefix());
        match self.suffix() {
            Some(suffix) => {
                path.append(parameter);
                path.append(suffix);
            },
            None => {},
        }
        ProxyTarget { service: String::from_str(self.service_name()), path }
    }

    /// What the route asks of the identity of its caller.
    pub fn identity_rule(&self) -> (rule: IdentityRule)
        ensures
            rule == self.identity(),
    {
        match self {
            Route::CreateSession | Route::GetSession | Route::DeleteSession | Route::UpdatePosition | Route::GetUserSessions => IdentityRule::Ignored,
            Route::HybridSearch | Route::SemanticSearch | Route::Autocomplete | Route::GetRecommendations | Route::ScorePersonalization | Route::GetExperimentMetrics | Route::SyncWatchlist | Route::SyncProgress | Route::ListDevices | Route::DeviceHandoff => IdentityRule::Optional,
            Route::GetProfile | Route::UpdatePreferences | Route::GetWatchlist | Route::AddToWatchlist | Route::RemoveFromWatchlist | Route::GetHistory => IdentityRule::Required,
        }
    }

    /// What the route does with the query string.
    pub fn query_rule(&self) -> (rule: QueryRule)
        ensures
            rule == self.query(),
    {
        match self {
            Route::CreateSession | Route::GetSession | Route::DeleteSession | Route::UpdatePosition | Route::GetUserSessions | Route::GetRecommendations | Route::ScorePersonalization | Route::GetExperimentMetrics | Route::SyncWatchlist | Route::SyncProgress | Route::ListDevices | Route::DeviceHandoff => QueryRule::Passed,
            Route::HybridSearch | Route::SemanticSearch | Route::GetProfile | Route::UpdatePreferences | Route::AddToWatchlist | Route::RemoveFromWatchlist => QueryRule::Dropped,
            Route::Autocomplete | Route::GetWatchlist | Route::GetHistory => QueryRule::EmptyOnly,
        }
    }

    /// Whether the body of the request is passed on.
    pub fn forwards_body(&self) -> (passed: bool)
        ensures
            passed == self.passes_body(),
    {
        match self {
            Route::CreateSession | Route::UpdatePosition | Route::HybridSearch | Route::SemanticSearch | Route::GetRecommendations | Route::ScorePersonalization | Route::SyncWatchlist | Route::SyncProgress | Route::DeviceHandoff | Route::UpdatePreferences | Route::AddToWatchlist => true,
            Route::GetSession | Route::DeleteSession | Route::GetUserSessions | Route::Autocomplete | Route::GetExperimentMetrics | Route::ListDevices | Route::GetProfile | Route::GetWatchlist | Route::RemoveFromWatchlist | Route::GetHistory => false,
        }
    }

    /// Whether calls count against the rate limit of the caller.
    pub fn rate_limited(&self) -> (limited: bool)
        ensures
            limited == self.limited(),
    {
        match self.identity_rule() {
            IdentityRule::Ignored => false,
            _ => true,
        }
    }

    /// The query string that is passed on, for the one that came. Under
    /// `QueryRule::EmptyOnly` a request without query string, or with an
    /// empty one, passes on an empty one.
    pub fn forwarded_query(&self, query: Option<String>) -> (passed: Option<String>)
        ensures
            match self.query() {
                QueryRule::Passed => passed == query,
                QueryRule::Dropped => passed is None,
                QueryRule::EmptyOnly => match query {
                    Some(text) if text@.len() > 0 => passed is None,
                    _ => passed matches Some(empty) && empty@.len() == 0,
                },
            },
    {
        match self.query_rule() {
            QueryRule::Passed => query,
            QueryRule::Dropped => None,
            QueryRule::EmptyOnly => match query {
                Some(text) => if text.as_str().is_empty() {
                    Some(text)
                } else {
                    None
                },
                None => Some(String::new()),
            },
        }
    }

    /// Who the caller counts as, or `None` where the route refuses a
    /// caller without identity. A route that does not look at the identity
    /// counts every caller as anonymous.
    pub fn caller(&self, user: Option<UserContext>) -> (counted: Option<UserContext>)
        ensures
            match (self.identity(), user) {
                (IdentityRule::Required, None) => counted is None,
                (IdentityRule::Required, Some(known)) => counted == Some(known),
                (IdentityRule::Optional, Some(known)) => counted == Some(known),
                _ => counted matches Some(c) && c.user_id@ == ANONYMOUS@ && c.tier@ == ANONYMOUS@,
            },
    {
        match (self.identity_rule(), user) {
            (IdentityRule::Required, None) => None,
            (IdentityRule::Required, Some(known)) => Some(known),
            (IdentityRule::Optional, Some(known)) => Some(known),
            _ => Some(
                UserContext { user_id: ANONYMOUS.to_owned(), tier: ANONYMOUS.to_owned() },
            ),
        }
    }
}

/// The headers that tell a caller where its rate limit stands.
pub open spec fn limit_headers(info: RateLimitInfo) -> Seq<(Seq<char>, Seq<char>)> {
    seq![
        ("X-RateLimit-Limit"@, crate::text::decimal(info.limit as nat)),
        ("X-RateLimit-Remaining"@, crate::text::decimal(info.remaining as nat)),
        ("X-RateLimit-Reset"@, crate::text::decimal(info.reset as nat)),
    ]
}

/// Names and values as pairs of character sequences.
pub open spec fn header_views(headers: Seq<(&'static str, String)>) -> Seq<(Seq<char>, Seq<char>)> {
    headers.map_values(|h: (&'static str, String)| (h.0@, h.1@))
}

/// The headers that tell a caller where its rate limit stands.
pub fn rate_limit_headers(info: &RateLimitInfo) -> (headers: Vec<(&'static str, String)>)
    ensures
        header_views(headers@) == limit_headers(*info),
{
    let mut headers: Vec<(&'static str, String)> = Vec::new();
    headers.push(("X-RateLimit-Limit", string_of(&format_decimal(info.limit))));
    headers.push(("X-RateLimit-Remaining", string_of(&format_decimal(info.remaining))));
    headers.push(("X-RateLimit-Reset", string_of(&format_decimal(info.reset))));
    proof {
        assert(header_views(headers@) =~= limit_headers(*info));
    }
    headers
}

/// Whether the gateway can serve, and the status it answers a readiness
/// probe with: 200 where both the database and the cache are configured,
/// else 503.
pub fn readiness(database_configured: bool, cache_configured: bool) -> (answer: (bool, u16))
    ensures
        answer.0 == (database_configured && cache_configured),
        answer.1 == if answer.0 { 200u16 } else { 503u16 },
{
    let ready = database_configured && cache_configured;
    (ready, if ready { 200 } else { 503 })
}

} // verus!
