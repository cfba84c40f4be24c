use media_gateway::circuit_breaker::{
    Admission, CallError, CircuitBreaker, CircuitBreakerManager, CircuitBreakerServiceConfig,
    CircuitState, ServiceSettings,
};

fn config(failure_threshold: u32, timeout_seconds: u64) -> CircuitBreakerServiceConfig {
    CircuitBreakerServiceConfig { failure_threshold, timeout_seconds, error_rate_threshold: 500_000 }
}

fn manager(enabled: bool) -> CircuitBreakerManager {
    CircuitBreakerManager::new(
        enabled,
        vec![ServiceSettings { service: "discovery".to_string(), config: config(2, 30) }],
    )
}

#[test]
fn test_circuit_breaker_disabled() {
    let mut manager = manager(false);

    let result = manager.call("test", 0, || Ok::<_, std::io::Error>("success"));

    assert!(result.is_ok());
}

#[test]
fn test_circuit_breaker_success() {
    let mut manager = manager(true);

    let result = manager.call("discovery", 0, || Ok::<_, std::io::Error>("success"));

    assert!(result.is_ok());
    assert_eq!(result.unwrap(), "success");
}

#[test]
fn a_disabled_manager_records_nothing() {
    let mut m = manager(false);
    assert!(!m.is_enabled());
    for now in 0..20 {
        assert_eq!(m.before_call("test", now), Admission::Allowed);
        m.after_call("test", false, now);
        assert_eq!(m.call("test", now, || Err::<u8, _>("down")), Err(CallError::ProxyError("down")));
    }
    assert_eq!(m.get_state("test"), None);
    assert!(m.get_all_states().is_empty());
}

#[test]
fn an_open_breaker_refuses_without_running_the_operation() {
    let mut m = manager(true);
    let mut runs = 0;
    for now in 0..2 {
        let failed = m.call("discovery", now, || {
            runs += 1;
            Err::<u8, _>("down")
        });
        assert_eq!(failed, Err(CallError::ProxyError("down")));
    }
    assert_eq!(m.get_state("discovery"), Some("open".to_string()));
    let refused = m.call("discovery", 2, || {
        runs += 1;
        Ok::<u8, &str>(1)
    });
    assert_eq!(refused, Err(CallError::CircuitBreakerOpen));
    assert_eq!(runs, 2);
    // After the timeout one call is tried, and its success closes the breaker.
    let tried = m.call("discovery", 31, || {
        runs += 1;
        Ok::<u8, &str>(7)
    });
    assert_eq!(tried, Ok(7));
    assert_eq!(runs, 3);
    assert_eq!(m.get_state("discovery"), Some("closed".to_string()));
}

#[test]
fn a_successful_call_leaves_the_breaker_closed() {
    let mut m = manager(true);
    assert_eq!(m.before_call("test", 0), Admission::Allowed);
    m.after_call("test", true, 0);
    assert_eq!(m.get_state("test"), Some("closed".to_string()));
}

#[test]
fn breaker_opens_at_the_threshold_and_recovers_after_the_timeout() {
    let mut m = manager(true);
    assert_eq!(m.before_call("discovery", 100), Admission::Allowed);
    m.after_call("discovery", false, 100);
    assert_eq!(m.get_state("discovery"), Some("closed".to_string()));
    assert_eq!(m.before_call("discovery", 101), Admission::Allowed);
    m.after_call("discovery", false, 101);
    assert_eq!(m.get_state("discovery"), Some("open".to_string()));
    assert_eq!(m.before_call("discovery", 102), Admission::Refused);
    assert_eq!(m.before_call("discovery", 130), Admission::Refused);
    // 30 seconds after it opened the breaker lets one call through.
    assert_eq!(m.before_call("discovery", 131), Admission::Allowed);
    assert_eq!(m.get_state("discovery"), Some("half_open".to_string()));
    m.after_call("discovery", false, 131);
    assert_eq!(m.get_state("discovery"), Some("open".to_string()));
    assert_eq!(m.before_call("discovery", 160), Admission::Refused);
    assert_eq!(m.before_call("discovery", 161), Admission::Allowed);
    m.after_call("discovery", true, 161);
    assert_eq!(m.get_state("discovery"), Some("closed".to_string()));
    // The counts start over: one failure does not open it again.
    assert_eq!(m.before_call("discovery", 162), Admission::Allowed);
    m.after_call("discovery", false, 162);
    assert_eq!(m.get_state("discovery"), Some("closed".to_string()));
}

#[test]
fn a_success_resets_the_failures_of_a_closed_breaker() {
    let mut breaker = CircuitBreaker::new(config(3, 5));
    breaker.record_failure(1);
    breaker.record_failure(2);
    assert_eq!(breaker.failure_count, 2);
    breaker.record_success();
    assert_eq!(breaker.failure_count, 0);
    assert_eq!(breaker.success_count, 1);
    breaker.record_failure(3);
    breaker.record_failure(4);
    assert!(!breaker.is_open());
    breaker.record_failure(5);
    assert!(breaker.is_open());
    assert_eq!(breaker.state, CircuitState::Open { opened_at: 5 });
    assert_eq!(breaker.get_state_string(), "open");
}

#[test]
fn an_open_breaker_waits_for_its_timeout() {
    let mut breaker = CircuitBreaker::new(config(1, 10));
    breaker.record_failure(100);
    assert!(breaker.is_open());
    breaker.check_and_update_state(109);
    assert!(breaker.is_open());
    // A clock that ran backwards changes nothing.
    breaker.check_and_update_state(50);
    assert!(breaker.is_open());
    breaker.check_and_update_state(110);
    assert!(breaker.is_half_open());
    assert_eq!(breaker.get_state_string(), "half_open");
    breaker.check_and_update_state(1_000);
    assert!(breaker.is_half_open());
    breaker.record_success();
    assert_eq!(breaker, CircuitBreaker::new(config(1, 10)));
    assert_eq!(breaker.get_state_string(), "closed");
}

#[test]
fn counts_stop_at_the_largest_number() {
    let mut breaker = CircuitBreaker::new(config(u32::MAX, 1));
    breaker.failure_count = u32::MAX - 1;
    breaker.success_count = u32::MAX;
    breaker.state = CircuitState::Open { opened_at: 0 };
    breaker.record_failure(7);
    assert_eq!(breaker.failure_count, u32::MAX);
    breaker.record_failure(8);
    assert_eq!(breaker.failure_count, u32::MAX);
    breaker.record_success();
    assert_eq!(breaker.success_count, u32::MAX);
    assert_eq!(breaker.state, CircuitState::Open { opened_at: 0 });
}

#[test]
fn services_get_their_settings_or_the_defaults() {
    let mut m = manager(true);
    assert_eq!(m.create_circuit_breaker("discovery").config, config(2, 30));
    assert_eq!(
        m.create_circuit_breaker("sona").config,
        CircuitBreakerServiceConfig::default()
    );
    assert_eq!(m.create_circuit_breaker("sona").config, config(10, 2));
    let made = m.get_or_create("sona");
    assert_eq!(made, CircuitBreaker::new(config(10, 2)));
    m.after_call("sona", false, 1);
    assert_eq!(m.get_or_create("sona").failure_count, 1);
    m.get_or_create("discovery");
    assert_eq!(
        m.get_all_states(),
        vec![
            ("sona".to_string(), "closed".to_string()),
            ("discovery".to_string(), "closed".to_string())
        ]
    );
    // Without a breaker nothing is recorded.
    m.after_call("sync", false, 1);
    assert_eq!(m.get_state("sync"), None);
}
