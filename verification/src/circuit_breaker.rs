//! Circuit breakers: after too many failures a service is left alone for a
//! while, then tried once, and trusted again if that try succeeds.
//!
//! The breaker reads no clock. Its caller says what time it is, in seconds
//! on any clock that does not run backwards.

use crate::text::str_equal;
use vstd::prelude::*;

verus! {

/// The failures that open a breaker where nothing is configured.
pub const DEFAULT_FAILURE_THRESHOLD: u32 = 10;

/// The seconds a breaker stays open where nothing is configured.
pub const DEFAULT_TIMEOUT_SECONDS: u64 = 2;

/// The error rate that is configured where nothing is, in millionths: 0.5.
pub const DEFAULT_ERROR_RATE_THRESHOLD: u32 = 500_000;

/// How the breaker of one service behaves.
#[derive(Debug, Clone, Copy, PartialEq, Eq, Structural)]
pub struct CircuitBreakerServiceConfig {
    /// How many failures in a row open the breaker.
    pub failure_threshold: u32,
    /// How long the breaker stays open, in seconds.
    pub timeout_seconds: u64,
    /// The error rate that counts as failing, in millionths.
    pub error_rate_threshold: u32,
}

impl Default for CircuitBreakerServiceConfig {
    fn default() -> (config: Self)
        ensures
            config.failure_threshold == DEFAULT_FAILURE_THRESHOLD,
            config.timeout_seconds == DEFAULT_TIMEOUT_SECONDS,
            config.error_rate_threshold == DEFAULT_ERROR_RATE_THRESHOLD,
    {
        CircuitBreakerServiceConfig {
            failure_threshold: DEFAULT_FAILURE_THRESHOLD,
            timeout_seconds: DEFAULT_TIMEOUT_SECONDS,
            error_rate_threshold: DEFAULT_ERROR_RATE_THRESHOLD,
        }
    }
}

/// What a breaker lets through.
#[derive(Debug, Clone, Copy, PartialEq, Eq, Structural)]
pub enum CircuitState {
    /// Calls go through.
    Closed,
    /// Calls are refused; the breaker opened at the second `opened_at`.
    Open { opened_at: u64 },
    /// One call is let through to see whether the service is back.
    HalfOpen,
}

/// The breaker of one service.
#[derive(Debug, Clone, Copy, PartialEq, Eq, Structural)]
pub struct CircuitBreaker {
    pub state: CircuitState,
    /// Failures since the last success; stops counting at `u32::MAX`.
    pub failure_count: u32,
    /// Successes since the breaker last closed; stops counting at
    /// `u32::MAX`.
    pub success_count: u32,
    pub config: CircuitBreakerServiceConfig,
}

/// `count + 1`, but no more than `u32::MAX`.
pub open spec fn bumped(count: u32) -> u32 {
    if count < u32::MAX {
        (count + 1) as u32
    } else {
        count
    }
}

/// The state at the second `now`: an open breaker whose timeout has passed
/// is half open.
pub open spec fn state_at(breaker: CircuitBreaker, now: u64) -> CircuitState {
    match breaker.state {
        CircuitState::Open { opened_at } => if now - opened_at >= breaker.config.timeout_seconds {
            CircuitState::HalfOpen
        } else {
            breaker.state
        },
        _ => breaker.state,
    }
}

/// The breaker after a success.
pub open spec fn after_success(breaker: CircuitBreaker) -> CircuitBreaker {
    match breaker.state {
        CircuitState::HalfOpen => CircuitBreaker {
            state: CircuitState::Closed,
            failure_count: 0,
            success_count: 0,
            ..breaker
        },
        CircuitState::Closed => CircuitBreaker {
            failure_count: 0,
            success_count: bumped(breaker.success_count),
            ..breaker
        },
        CircuitState::Open { .. } => CircuitBreaker {
            success_count: bumped(breaker.success_count),
            ..breaker
        },
    }
}

/// The breaker after a failure at the second `now`.
pub open spec fn after_failure(breaker: CircuitBreaker, now: u64) -> CircuitBreaker {
    let failures = bumped(breaker.failure_count);
    match breaker.state {
        CircuitState::Closed => CircuitBreaker {
            state: if failures >= breaker.config.failure_threshold {
                CircuitState::Open { opened_at: now }
            } else {
                CircuitState::Closed
            },
            failure_count: failures,
            ..breaker
        },
        CircuitState::HalfOpen => CircuitBreaker {
            state: CircuitState::Open { opened_at: now },
            failure_count: failures,
            ..breaker
        },
        CircuitState::Open { .. } => CircuitBreaker { failure_count: failures, ..breaker },
    }
}

impl CircuitBreaker {
    /// A closed breaker that has counted nothing.
    pub fn new(config: CircuitBreakerServiceConfig) -> (breaker: Self)
        ensures
            breaker == (CircuitBreaker {
                state: CircuitState::Closed,
                failure_count: 0,
                success_count: 0,
                config,
            }),
    {
        CircuitBreaker { state: CircuitState::Closed, failure_count: 0, success_count: 0, config }
    }

    /// Whether calls are refused.
    pub fn is_open(&self) -> (open: bool)
        ensures
            open == (self.state is Open),
    {
        match self.state {
            CircuitState::Open { .. } => true,
            _ => false,
        }
    }

    /// Whether the next call is a trial.
    pub fn is_half_open(&self) -> (half_open: bool)
        ensures
            half_open == (self.state is HalfOpen),
    {
        match self.state {
            CircuitState::HalfOpen => true,
            _ => false,
        }
    }

    /// Lets an open breaker become half open once its timeout has passed.
    /// A clock that ran backwards counts as no time passed.
    pub fn check_and_update_state(&mut self, now: u64)
        ensures
            final(self).state == state_at(*old(self), now),
            final(self).failure_count == old(self).failure_count,
            final(self).success_count == old(self).success_count,
            final(self).config == old(self).config,
    {
        match self.state {
            CircuitState::Open { opened_at } => {
                if now >= opened_at && now - opened_at >= self.config.timeout_seconds {
                    self.state = CircuitState::HalfOpen;
                }
            },
            _ => {},
        }
    }

    /// Counts a success: a half-open breaker closes and forgets its counts,
    /// a closed one forgets its failures.
    pub fn record_success(&mut self)
        ensures
            *final(self) == after_success(*old(self)),
    {
        let successes: u32 = if self.success_count < u32::MAX {
            self.success_count + 1
        } else {
            self.success_count
        };
        match self.state {
            CircuitState::HalfOpen => {
                self.state = CircuitState::Closed;
                self.failure_count = 0;
                self.success_count = 0;
            },
            CircuitState::Closed => {
                self.failure_count = 0;
                self.success_count = successes;
            },
            CircuitState::Open { .. } => {
                self.success_count = successes;
            },
        }
    }

    /// Counts a failure at the second `now`: a closed breaker opens when
    /// the failures reach the threshold, a half-open one opens again.
    pub fn record_failure(&mut self, now: u64)
        ensures
            *final(self) == after_failure(*old(self), now),
    {
        let failures: u32 = if self.failure_count < u32::MAX {
            self.failure_count + 1
        } else {
            self.failure_count
        };
        self.failure_count = failures;
        match self.state {
            CircuitState::Closed => {
                if failures >= self.config.failure_threshold {
                    self.state = CircuitState::Open { opened_at: now };
                }
            },
            CircuitState::HalfOpen => {
                self.state = CircuitState::Open { opened_at: now };
            },
            CircuitState::Open { .. } => {},
        }
    }

    /// The name of the state.
    pub open spec fn state_name(&self) -> Seq<char> {
        match self.state {
            CircuitState::Closed => "closed"@,
            CircuitState::Open { .. } => "open"@,
            CircuitState::HalfOpen => "half_open"@,
        }
    }

    /// The name of the state: `closed`, `open` or `half_open`.
    pub fn get_state_string(&self) -> (name: String)
        ensures
            name@ == self.state_name(),
    {
        match self.state {
            CircuitState::Closed => "closed".to_owned(),
            CircuitState::Open { .. } => "open".to_owned(),
            CircuitState::HalfOpen => "half_open".to_owned(),
        }
    }
}

/// Whether a call may be made, and what the breaker is afterwards.
#[derive(Debug, Clone, Copy, PartialEq, Eq, Structural)]
pub enum Admission {
    /// Make the call and report how it went.
    Allowed,
    /// The breaker is open: make no call.
    Refused,
}

/// Why a guarded call gave no result.
#[derive(Debug, Clone, PartialEq, Eq)]
pub enum CallError<E> {
    /// The breaker of the service is open; the operation was not run.
    CircuitBreakerOpen,
    /// The operation ran and failed.
    ProxyError(E),
}

/// A service and its breaker.
#[derive(Debug, Clone)]
pub struct NamedBreaker {
    pub service: String,
    pub breaker: CircuitBreaker,
}

/// The breaker settings of one service.
#[derive(Debug, Clone)]
pub struct ServiceSettings {
    pub service: String,
    pub config: CircuitBreakerServiceConfig,
}

/// The settings of the first entry for `service`, or the defaults.
pub open spec fn settings_for(settings: Seq<ServiceSettings>, service: Seq<char>) -> CircuitBreakerServiceConfig
    decreases settings.len(),
{
    if settings.len() == 0 {
        CircuitBreakerServiceConfig {
            failure_threshold: DEFAULT_FAILURE_THRESHOLD,
            timeout_seconds: DEFAULT_TIMEOUT_SECONDS,
            error_rate_threshold: DEFAULT_ERROR_RATE_THRESHOLD,
        }
    } else if settings[0].service@ == service {
        settings[0].config
    } else {
        settings_for(settings.drop_first(), service)
    }
}

/// The index of the breaker of `service`, if it has one.
pub open spec fn breaker_index(breakers: Seq<NamedBreaker>, service: Seq<char>) -> Option<int> {
    if exists|i: int| 0 <= i < breakers.len() && #[trigger] breakers[i].service@ == service {
        Some(choose|i: int| 0 <= i < breakers.len() && #[trigger] breakers[i].service@ == service)
    } else {
        None
    }
}

/// The breakers of all services that were called.
pub struct CircuitBreakerManager {
    breakers: Vec<NamedBreaker>,
    settings: Vec<ServiceSettings>,
    enabled: bool,
}

impl CircuitBreakerManager {
    #[verifier::type_invariant]
    spec fn one_breaker_per_service(self) -> bool {
        forall|i: int, j: int| 0 <= i < j < self.breakers@.len() ==> (#[trigger] self.breakers@[i]).service@ != (#[trigger] self.breakers@[j]).service@
    }

    /// The breakers, in the order the services were first called.
    pub closed spec fn breakers(&self) -> Seq<NamedBreaker> {
        self.breakers@
    }

    /// The configured settings.
    pub closed spec fn settings(&self) -> Seq<ServiceSettings> {
        self.settings@
    }

    /// Whether breakers are in use at all.
    pub closed spec fn enabled(&self) -> bool {
        self.enabled
    }

    /// The breaker of `service`, if it has one.
    pub open spec fn breaker_of(&self, service: Seq<char>) -> Option<CircuitBreaker> {
        match breaker_index(self.breakers(), service) {
            Some(i) => Some(self.breakers()[i].breaker),
            None => None,
        }
    }

    /// A manager without breakers yet.
    pub fn new(enabled: bool, settings: Vec<ServiceSettings>) -> (manager: Self)
        ensures
            manager.breakers().len() == 0,
            manager.settings() == settings@,
            manager.enabled() == enabled,
    {
        CircuitBreakerManager { breakers: Vec::new(), settings, enabled }
    }

    /// Whether breakers are in use at all.
    pub fn is_enabled(&self) -> (enabled: bool)
        ensures
            enabled == self.enabled(),
    {
        self.enabled
    }

    /// A fresh breaker for `service`, with its settings or the defaults.
    pub fn create_circuit_breaker(&self, service: &str) -> (breaker: CircuitBreaker)
        ensures
            breaker == (CircuitBreaker {
                state: CircuitState::Closed,
                failure_count: 0,
                success_count: 0,
                config: settings_for(self.settings(), service@),
            }),
    {
        let mut i: usize = 0;
        proof {
            assert(self.settings@.skip(0) =~= self.settings@);
        }
        while i < self.settings.len()
            invariant
                i <= self.settings.len(),
                settings_for(self.settings@, service@) == settings_for(
                    self.settings@.skip(i as int),
                    service@,
                ),
            decreases self.settings.len() - i,
        {
            proof {
                assert(self.settings@.skip(i as int)[0] == self.settings@[i as int]);
                assert(self.settings@.skip(i as int).drop_first() =~= self.settings@.skip(i + 1));
            }
            if str_equal(self.settings[i].service.as_str(), service) {
                return CircuitBreaker::new(self.settings[i].config);
            }
            i += 1;
        }
        CircuitBreaker::new(CircuitBreakerServiceConfig::default())
    }

    fn find(&self, service: &str) -> (found: Option<usize>)
        ensures
            match found {
                Some(i) => i < self.breakers().len() && self.breakers()[i as int].service@ == service@
                    && breaker_index(self.breakers(), service@) == Some(i as int),
                None => breaker_index(self.breakers(), service@) is None,
            },
    {
        proof {
            use_type_invariant(self);
        }
        let mut i: usize = 0;
        while i < self.breakers.len()
            invariant
                i <= self.breakers.len(),
                forall|a: int, b: int| 0 <= a < b < self.breakers@.len() ==> (#[trigger] self.breakers@[a]).service@ != (#[trigger] self.breakers@[b]).service@,
                forall|j: int| 0 <= j < i ==> (#[trigger] self.breakers@[j]).service@ != service@,
            decreases self.breakers.len() - i,
        {
            if str_equal(self.breakers[i].service.as_str(), service) {
                proof {
                    let k = choose|k: int| 0 <= k < self.breakers@.len() && #[trigger] self.breakers@[k].service@ == service@;
                    if k < i {
                        assert(self.breakers@[k].service@ != self.breakers@[i as int].service@);
                    } else if k > i {
                        assert(self.breakers@[i as int].service@ != self.breakers@[k].service@);
                    }
                }
                return Some(i);
            }
            i += 1;
        }
        None
    }

    /// The breaker of `service`; one is made where it had none.
    pub fn get_or_create(&mut self, service: &str) -> (breaker: CircuitBreaker)
        ensures
            final(self).settings() == old(self).settings(),
            final(self).enabled() == old(self).enabled(),
            final(self).breaker_of(service@) == Some(breaker),
            match old(self).breaker_of(service@) {
                Some(known) => breaker == known && final(self).breakers() == old(self).breakers(),
                None => breaker == (CircuitBreaker {
                    state: CircuitState::Closed,
                    failure_count: 0,
                    success_count: 0,
                    config: settings_for(old(self).settings(), service@),
                }) && final(self).breakers() == old(self).breakers().push(
                    NamedBreaker { service: final(self).breakers().last().service, breaker },
                ) && final(self).breakers().last().service@ == service@,
            },
    {
        proof {
            use_type_invariant(&*self);
        }
        match self.find(service) {
            Some(i) => self.breakers[i].breaker,
            None => {
                let breaker = self.create_circuit_breaker(service);
                let ghost before = self.breakers@;
                let named = NamedBreaker { service: service.to_owned(), breaker };
                let mut breakers: Vec<NamedBreaker> = Vec::new();
                core::mem::swap(&mut breakers, &mut self.breakers);
                breakers.push(named);
                proof {
                    assert forall|i: int, j: int| 0 <= i < j < breakers@.len() implies (#[trigger] breakers@[i]).service@ != (#[trigger] breakers@[j]).service@ by {
                        if j == before.len() {
                            assert(before[i].service@ != service@);
                        }
                    }
                    assert(breakers@[before.len() as int].service@ == service@);
                }
                self.breakers = breakers;
                proof {
                    let k = choose|k: int| 0 <= k < self.breakers@.len() && #[trigger] self.breakers@[k].service@ == service@;
                    if k < before.len() {
                        assert(before[k].service@ != service@);
                    }
                }
                breaker
            },
        }
    }

    /// The name of the state of the breaker of `service`, if it has one.
    pub fn get_state(&self, service: &str) -> (name: Option<String>)
        ensures
            match self.breaker_of(service@) {
                Some(breaker) => name matches Some(text) && text@ == breaker.state_name(),
                None => name is None,
            },
    {
        match self.find(service) {
            Some(i) => Some(self.breakers[i].breaker.get_state_string()),
            None => None,
        }
    }

    /// Every service with the name of the state of its breaker.
    pub fn get_all_states(&self) -> (states: Vec<(String, String)>)
        ensures
            states@.len() == self.breakers().len(),
            forall|i: int| 0 <= i < states@.len() ==> (#[trigger] states@[i]).0@ == self.breakers()[i].service@
                && states@[i].1@ == self.breakers()[i].breaker.state_name(),
    {
        let mut states: Vec<(String, String)> = Vec::new();
        let mut i: usize = 0;
        while i < self.breakers.len()
            invariant
                i <= self.breakers.len(),
                states@.len() == i,
                forall|j: int| 0 <= j < i ==> (#[trigger] states@[j]).0@ == self.breakers@[j].service@
                    && states@[j].1@ == self.breakers@[j].breaker.state_name(),
            decreases self.breakers.len() - i,
        {
            let name = self.breakers[i].service.clone();
            let state = self.breakers[i].breaker.get_state_string();
            states.push((name, state));
            i += 1;
        }
        states
    }

    fn store(&mut self, index: usize, breaker: CircuitBreaker)
        requires
            index < old(self).breakers().len(),
        ensures
            final(self).settings() == old(self).settings(),
            final(self).enabled() == old(self).enabled(),
            final(self).breakers().len() == old(self).breakers().len(),
            final(self).breakers()[index as int].breaker == breaker,
            forall|i: int| 0 <= i < old(self).breakers().len() ==> (#[trigger] final(self).breakers()[i]).service
                == old(self).breakers()[i].service,
            forall|i: int| 0 <= i < old(self).breakers().len() && i != index ==> (#[trigger] final(self).breakers()[i])
                == old(self).breakers()[i],
    {
        proof {
            use_type_invariant(&*self);
        }
        let ghost before = self.breakers@;
        let mut breakers: Vec<NamedBreaker> = Vec::new();
        core::mem::swap(&mut breakers, &mut self.breakers);
        let current = breakers.remove(index);
        breakers.insert(index, NamedBreaker { service: current.service, breaker });
        proof {
            assert forall|i: int| 0 <= i < before.len() implies (#[trigger] breakers@[i]).service == before[i].service by {}
            assert forall|i: int, j: int| 0 <= i < j < breakers@.len() implies (#[trigger] breakers@[i]).service@ != (#[trigger] breakers@[j]).service@ by {
                assert(breakers@[i].service == before[i].service);
                assert(breakers@[j].service == before[j].service);
            }
        }
        self.breakers = breakers;
    }

    /// Decides at the second `now` whether `service` may be called. With
    /// breakers disabled every call is allowed and nothing is recorded.
    /// Otherwise the breaker of the service is made if need be, brought up
    /// to date, and the call refused exactly if the breaker is then open.
    pub fn before_call(&mut self, service: &str, now: u64) -> (admission: Admission)
        ensures
            final(self).settings() == old(self).settings(),
            final(self).enabled() == old(self).enabled(),
            !old(self).enabled() ==> admission == Admission::Allowed && final(self).breakers() == old(
                self,
            ).breakers(),
            old(self).enabled() ==> {
                let known = match old(self).breaker_of(service@) {
                    Some(breaker) => breaker,
                    None => CircuitBreaker {
                        state: CircuitState::Closed,
                        failure_count: 0,
                        success_count: 0,
                        config: settings_for(old(self).settings(), service@),
                    },
                };
                &&& final(self).breaker_of(service@) == Some(
                    CircuitBreaker { state: state_at(known, now), ..known },
                )
                &&& admission == if state_at(known, now) is Open {
                    Admission::Refused
                } else {
                    Admission::Allowed
                }
            },
    {
        if !self.enabled {
            return Admission::Allowed;
        }
        let mut breaker = self.get_or_create(service);
        breaker.check_and_update_state(now);
        let index = self.find(service);
        match index {
            Some(i) => {
                self.store(i, breaker);
                proof {
                    use_type_invariant(&*self);
                    let k = choose|k: int| 0 <= k < self.breakers@.len() && #[trigger] self.breakers@[k].service@ == service@;
                    assert(self.breakers@[i as int].service@ == service@);
                    if k < i {
                        assert(self.breakers@[k].service@ != self.breakers@[i as int].service@);
                    } else if k > i {
                        assert(self.breakers@[i as int].service@ != self.breakers@[k].service@);
                    }
                }
            },
            None => {},
        }
        if breaker.is_open() {
            Admission::Refused
        } else {
            Admission::Allowed
        }
    }

    /// Records at the second `now` how an allowed call of `service` went.
    /// With breakers disabled, or for a service without breaker, nothing
    /// is recorded.
    pub fn after_call(&mut self, service: &str, succeeded: bool, now: u64)
        ensures
            final(self).settings() == old(self).settings(),
            final(self).enabled() == old(self).enabled(),
            match old(self).breaker_of(service@) {
                Some(breaker) if old(self).enabled() => final(self).breaker_of(service@) == Some(
                    if succeeded {
                        after_success(breaker)
                    } else {
                        after_failure(breaker, now)
                    },
                ),
                _ => final(self).breakers() == old(self).breakers(),
            },
    {
        if !self.enabled {
            return ;
        }
        match self.find(service) {
            Some(i) => {
                let mut breaker = self.breakers[i].breaker;
                if succeeded {
                    breaker.record_success();
                } else {
                    breaker.record_failure(now);
                }
                self.store(i, breaker);
                proof {
                    use_type_invariant(&*self);
                    let k = choose|k: int| 0 <= k < self.breakers@.len() && #[trigger] self.breakers@[k].service@ == service@;
                    assert(self.breakers@[i as int].service@ == service@);
                    if k < i {
                        assert(self.breakers@[k].service@ != self.breakers@[i as int].service@);
                    } else if k > i {
                        assert(self.breakers@[i as int].service@ != self.breakers@[k].service@);
                    }
                }
            },
            None => {},
        }
    }

    /// The breaker that `service` has once it was asked for: its own, or a
    /// fresh one with its settings.
    pub open spec fn known_breaker(&self, service: Seq<char>) -> CircuitBreaker {
        match self.breaker_of(service) {
            Some(breaker) => breaker,
            None => CircuitBreaker {
                state: CircuitState::Closed,
                failure_count: 0,
                success_count: 0,
                config: settings_for(self.settings(), service),
            },
        }
    }

    /// Runs `operation` under the breaker of `service`, at the second
    /// `now`. With breakers disabled the operation is run and nothing is
    /// recorded. Otherwise an open breaker refuses the call without running
    /// the operation; else the operation is run, and its success or failure
    /// is recorded.
    pub fn call<T, E, F: FnOnce() -> Result<T, E>>(&mut self, service: &str, now: u64, operation: F) -> (outcome: Result<T, CallError<E>>)
        requires
            operation.requires(()),
        ensures
            final(self).settings() == old(self).settings(),
            final(self).enabled() == old(self).enabled(),
            match outcome {
                Ok(value) => operation.ensures((), Ok(value)),
                Err(CallError::ProxyError(error)) => operation.ensures((), Err(error)),
                Err(CallError::CircuitBreakerOpen) => old(self).enabled() && state_at(
                    old(self).known_breaker(service@),
                    now,
                ) is Open,
            },
            !old(self).enabled() ==> final(self).breakers() == old(self).breakers(),
            old(self).enabled() ==> {
                let known = old(self).known_breaker(service@);
                let current = CircuitBreaker { state: state_at(known, now), ..known };
                final(self).breaker_of(service@) == Some(
                    match outcome {
                        Ok(_) => after_success(current),
                        Err(CallError::ProxyError(_)) => after_failure(current, now),
                        Err(CallError::CircuitBreakerOpen) => current,
                    },
                )
            },
    {
        match self.before_call(service, now) {
            Admission::Refused => Err(CallError::CircuitBreakerOpen),
            Admission::Allowed => match operation() {
                Ok(value) => {
                    self.after_call(service, true, now);
                    Ok(value)
                },
                Err(error) => {
                    self.after_call(service, false, now);
                    Err(CallError::ProxyError(error))
                },
            },
        }
    }
}

} // verus!
