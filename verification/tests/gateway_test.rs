use media_gateway::gateway::{
    rate_limit_headers, readiness, IdentityRule, ProxyTarget, QueryRule, RateLimitInfo, Route,
    UserContext,
};

fn target(service: &str, path: &str) -> ProxyTarget {
    ProxyTarget { service: service.to_string(), path: path.to_string() }
}

fn user(id: &str, tier: &str) -> UserContext {
    UserContext { user_id: id.to_string(), tier: tier.to_string() }
}

#[test]
fn routes_without_parameter_have_fixed_targets() {
    let table = [
        (Route::CreateSession, "playback", "/api/v1/sessions"),
        (Route::HybridSearch, "discovery", "/api/v1/search"),
        (Route::SemanticSearch, "discovery", "/api/v1/search/semantic"),
        (Route::Autocomplete, "discovery", "/api/v1/search/autocomplete"),
        (Route::GetRecommendations, "sona", "/recommendations"),
        (Route::ScorePersonalization, "sona", "/personalization/score"),
        (Route::SyncWatchlist, "sync", "/api/v1/sync/watchlist"),
        (Route::SyncProgress, "sync", "/api/v1/sync/progress"),
        (Route::ListDevices, "sync", "/api/v1/devices"),
        (Route::DeviceHandoff, "sync", "/api/v1/devices/handoff"),
        (Route::GetProfile, "auth", "/api/v1/user/profile"),
        (Route::UpdatePreferences, "auth", "/api/v1/user/preferences"),
        (Route::GetWatchlist, "sync", "/api/v1/user/watchlist"),
        (Route::AddToWatchlist, "sync", "/api/v1/user/watchlist"),
        (Route::GetHistory, "sync", "/api/v1/user/history"),
    ];
    for (route, service, path) in table {
        assert_eq!(route.target("ignored"), target(service, path));
        assert_eq!(route.target(""), target(service, path));
    }
}

#[test]
fn routes_with_parameter_put_it_into_the_path() {
    assert_eq!(Route::GetSession.target("s1"), target("playback", "/api/v1/sessions/s1"));
    assert_eq!(Route::DeleteSession.target("s1"), target("playback", "/api/v1/sessions/s1"));
    assert_eq!(
        Route::UpdatePosition.target("s1"),
        target("playback", "/api/v1/sessions/s1/position")
    );
    assert_eq!(
        Route::GetUserSessions.target("u7"),
        target("playback", "/api/v1/users/u7/sessions")
    );
    assert_eq!(
        Route::GetExperimentMetrics.target("exp"),
        target("sona", "/experiments/exp/metrics")
    );
    assert_eq!(
        Route::RemoveFromWatchlist.target("c9"),
        target("sync", "/api/v1/user/watchlist/c9")
    );
    assert_eq!(Route::GetSession.target(""), target("playback", "/api/v1/sessions/"));
}

#[test]
fn identity_and_rate_limit_follow_the_scope() {
    for route in [Route::CreateSession, Route::GetSession, Route::GetUserSessions] {
        assert_eq!(route.identity_rule(), IdentityRule::Ignored);
        assert!(!route.rate_limited());
        assert_eq!(route.caller(None), Some(user("anonymous", "anonymous")));
        assert_eq!(route.caller(Some(user("u", "pro"))), Some(user("anonymous", "anonymous")));
    }
    for route in [Route::HybridSearch, Route::GetRecommendations, Route::ListDevices] {
        assert_eq!(route.identity_rule(), IdentityRule::Optional);
        assert!(route.rate_limited());
        assert_eq!(route.caller(None), Some(user("anonymous", "anonymous")));
        assert_eq!(route.caller(Some(user("u", "pro"))), Some(user("u", "pro")));
    }
    for route in [Route::GetProfile, Route::AddToWatchlist, Route::GetHistory] {
        assert_eq!(route.identity_rule(), IdentityRule::Required);
        assert!(route.rate_limited());
        assert_eq!(route.caller(None), None);
        assert_eq!(route.caller(Some(user("u", "pro"))), Some(user("u", "pro")));
    }
}

#[test]
fn bodies_and_queries_are_passed_on_by_rule() {
    assert!(Route::CreateSession.forwards_body());
    assert!(Route::UpdatePreferences.forwards_body());
    assert!(!Route::GetProfile.forwards_body());
    assert!(!Route::Autocomplete.forwards_body());
    let q = || Some("a=1".to_string());
    assert_eq!(Route::SyncWatchlist.query_rule(), QueryRule::Passed);
    assert_eq!(Route::SyncWatchlist.forwarded_query(q()), q());
    assert_eq!(Route::SyncWatchlist.forwarded_query(None), None);
    assert_eq!(Route::HybridSearch.query_rule(), QueryRule::Dropped);
    assert_eq!(Route::HybridSearch.forwarded_query(q()), None);
    assert_eq!(Route::Autocomplete.query_rule(), QueryRule::EmptyOnly);
    assert_eq!(Route::Autocomplete.forwarded_query(q()), None);
    assert_eq!(Route::Autocomplete.forwarded_query(Some(String::new())), Some(String::new()));
    assert_eq!(Route::GetHistory.forwarded_query(None), Some(String::new()));
}

#[test]
fn rate_limit_headers_carry_the_numbers() {
    let info = RateLimitInfo { limit: 100, remaining: 0, reset: 1_700_000_000 };
    assert_eq!(
        rate_limit_headers(&info),
        vec![
            ("X-RateLimit-Limit", "100".to_string()),
            ("X-RateLimit-Remaining", "0".to_string()),
            ("X-RateLimit-Reset", "1700000000".to_string())
        ]
    );
}

#[test]
fn readiness_needs_database_and_cache() {
    assert_eq!(readiness(true, true), (true, 200));
    assert_eq!(readiness(true, false), (false, 503));
    assert_eq!(readiness(false, true), (false, 503));
    assert_eq!(readiness(false, false), (false, 503));
}
