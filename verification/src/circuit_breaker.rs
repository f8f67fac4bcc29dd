//! The circuit breaker: for each route a machine of three states that
//! decides whether a request may go upstream, and learns from how it ended.

use vstd::prelude::*;
use crate::config::CircuitBreakerConfig;
use crate::constants::CIRCUIT_BREAKER_DEFAULT_TTL_SECONDS;
use crate::duration::{duration_of, parse_duration};
use crate::errors::AppError;
use crate::tables::{
    circuit_entries, circuits_get, circuits_insert, circuits_keys, circuits_len, circuits_new,
    circuits_remove, CircuitTable,
};
use crate::text::owned;
use crate::time::{elapsed, has_elapsed, is_older_than};

verus! {

/// The state of one circuit. Instants are nanoseconds on a monotonic clock.
#[derive(Debug, Clone, Copy, PartialEq, Eq, Structural)]
pub enum State {
    /// Requests pass; counts the failures since the last success.
    Closed { consecutive_failures: u32 },
    /// Requests are rejected until the open time has passed since `opened_at`.
    Open { opened_at: u64 },
    /// Requests pass as trials; counts the successes since the circuit half-opened.
    HalfOpen { consecutive_successes: u32 },
}

/// One circuit with the instant it was last used.
#[derive(Debug, Clone, Copy, PartialEq, Eq, Structural)]
pub struct CircuitState {
    pub state: State,
    pub last_access: u64,
}

/// The thresholds of a circuit, with the open time in seconds.
#[derive(Debug, Clone, Copy, PartialEq, Eq, Structural)]
pub struct BreakerPolicy {
    pub failure_threshold: u32,
    pub success_threshold: u32,
    pub open_seconds: u64,
}

/// Whether the status is a server error, which counts as a failure.
pub open spec fn is_failure(status: u16) -> bool {
    500 <= status < 600
}

/// Whether the status is a server error, which counts as a failure.
pub fn status_is_failure(status: u16) -> (r: bool)
    ensures
        r == is_failure(status),
{
    500 <= status && status < 600
}

impl State {
    /// The state of a circuit that has seen nothing.
    pub open spec fn initial() -> State {
        State::Closed { consecutive_failures: 0 }
    }

    /// Whether a request that arrives at `now` may go upstream.
    pub open spec fn admits(self, policy: BreakerPolicy, now: u64) -> bool {
        match self {
            State::Open { opened_at } => elapsed(opened_at, now) >= policy.open_seconds
                * 1_000_000_000,
            _ => true,
        }
    }

    /// The state after a request has arrived at `now`: an open circuit whose
    /// open time has passed becomes half-open, and nothing else changes.
    pub open spec fn on_request(self, policy: BreakerPolicy, now: u64) -> State {
        match self {
            State::Open { opened_at } => if self.admits(policy, now) {
                State::HalfOpen { consecutive_successes: 0 }
            } else {
                self
            },
            _ => self,
        }
    }

    /// The state after an upstream call has ended at `now`, with a failure
    /// or not. An open circuit stays as it is.
    pub open spec fn on_outcome(self, policy: BreakerPolicy, failed: bool, now: u64) -> State {
        match self {
            State::Closed { consecutive_failures } => if failed {
                if consecutive_failures + 1 >= policy.failure_threshold {
                    State::Open { opened_at: now }
                } else {
                    State::Closed { consecutive_failures: (consecutive_failures + 1) as u32 }
                }
            } else {
                State::Closed { consecutive_failures: 0 }
            },
            State::HalfOpen { consecutive_successes } => if failed {
                State::Open { opened_at: now }
            } else if consecutive_successes + 1 >= policy.success_threshold {
                State::Closed { consecutive_failures: 0 }
            } else {
                State::HalfOpen { consecutive_successes: (consecutive_successes + 1) as u32 }
            },
            State::Open { opened_at } => self,
        }
    }

    /// Decides on a request that arrives at `now`: the state it leaves the
    /// circuit in, and whether it may go upstream.
    pub fn arrive(self, policy: &BreakerPolicy, now: u64) -> (r: (State, bool))
        ensures
            r.0 == self.on_request(*policy, now),
            r.1 == self.admits(*policy, now),
    {
        match self {
            State::Open { opened_at } => {
                if has_elapsed(opened_at, now, policy.open_seconds) {
                    (State::HalfOpen { consecutive_successes: 0 }, true)
                } else {
                    (self, false)
                }
            },
            _ => (self, true),
        }
    }

    /// The state after an upstream call has ended at `now`.
    pub fn record(self, policy: &BreakerPolicy, failed: bool, now: u64) -> (r: State)
        ensures
            r == self.on_outcome(*policy, failed, now),
    {
        match self {
            State::Closed { consecutive_failures } => {
                if failed {
                    if consecutive_failures >= policy.failure_threshold || consecutive_failures
                        + 1 >= policy.failure_threshold {
                        State::Open { opened_at: now }
                    } else {
                        State::Closed { consecutive_failures: consecutive_failures + 1 }
                    }
                } else {
                    State::Closed { consecutive_failures: 0 }
                }
            },
            State::HalfOpen { consecutive_successes } => {
                if failed {
                    State::Open { opened_at: now }
                } else if consecutive_successes >= policy.success_threshold
                    || consecutive_successes + 1 >= policy.success_threshold {
                    State::Closed { consecutive_failures: 0 }
                } else {
                    State::HalfOpen { consecutive_successes: consecutive_successes + 1 }
                }
            },
            State::Open { opened_at } => self,
        }
    }
}

/// The state after a run of calls that all end alike: call `i` arrives and
/// ends at `times[i]`, with a failure if `failed`.
pub open spec fn after_calls(start: State, policy: BreakerPolicy, failed: bool, times: Seq<u64>) -> State
    decreases times.len(),
{
    if times.len() == 0 {
        start
    } else {
        after_calls(start, policy, failed, times.drop_last()).on_request(
            policy,
            times.last(),
        ).on_outcome(policy, failed, times.last())
    }
}

/// Fewer failures in a row than the threshold leave a new circuit closed,
/// with the failures counted.
pub proof fn lemma_failures_are_counted(policy: BreakerPolicy, times: Seq<u64>)
    requires
        times.len() < policy.failure_threshold,
    ensures
        after_calls(State::initial(), policy, true, times) == (State::Closed {
            consecutive_failures: times.len() as u32,
        }),
    decreases times.len(),
{
    if times.len() > 0 {
        lemma_failures_are_counted(policy, times.drop_last());
    }
}

/// As many failures in a row as the failure threshold open a new circuit at
/// the last of them, and a request that arrives before the open time has
/// passed is rejected and leaves the circuit open.
pub proof fn lemma_failures_open_the_circuit(policy: BreakerPolicy, times: Seq<u64>, now: u64)
    requires
        policy.failure_threshold >= 1,
        times.len() == policy.failure_threshold,
        elapsed(times.last(), now) < policy.open_seconds * 1_000_000_000,
    ensures
        after_calls(State::initial(), policy, true, times) == (State::Open {
            opened_at: times.last(),
        }),
        !after_calls(State::initial(), policy, true, times).admits(policy, now),
        after_calls(State::initial(), policy, true, times).on_request(policy, now) == after_calls(
            State::initial(),
            policy,
            true,
            times,
        ),
{
    lemma_failures_are_counted(policy, times.drop_last());
}

/// Once the open time has passed, the next request is let through as a
/// trial and half-opens the circuit; it is the only request that does so,
/// since a half-open circuit is no longer open.
pub proof fn lemma_trial_after_open_time(policy: BreakerPolicy, opened_at: u64, now: u64)
    requires
        elapsed(opened_at, now) >= policy.open_seconds * 1_000_000_000,
    ensures
        (State::Open { opened_at }).admits(policy, now),
        (State::Open { opened_at }).on_request(policy, now) == (State::HalfOpen {
            consecutive_successes: 0,
        }),
        forall|later: u64|
            (State::HalfOpen { consecutive_successes: 0 }).on_request(policy, later) == (
            State::HalfOpen { consecutive_successes: 0 }),
{
}

/// Fewer trial successes in a row than the threshold leave the circuit
/// half-open, with the successes counted.
pub proof fn lemma_successes_are_counted(policy: BreakerPolicy, times: Seq<u64>)
    requires
        times.len() < policy.success_threshold,
    ensures
        after_calls(State::HalfOpen { consecutive_successes: 0 }, policy, false, times) == (
        State::HalfOpen { consecutive_successes: times.len() as u32 }),
    decreases times.len(),
{
    if times.len() > 0 {
        lemma_successes_are_counted(policy, times.drop_last());
    }
}

/// As many trial successes in a row as the success threshold close the
/// circuit, and a closed circuit lets every request through and stays
/// closed while calls succeed.
pub proof fn lemma_successes_close_the_circuit(policy: BreakerPolicy, times: Seq<u64>)
    requires
        policy.success_threshold >= 1,
        times.len() == policy.success_threshold,
    ensures
        after_calls(State::HalfOpen { consecutive_successes: 0 }, policy, false, times)
            == State::initial(),
        forall|now: u64| State::initial().admits(policy, now),
        forall|now: u64| #[trigger]
            State::initial().on_request(policy, now).on_outcome(policy, false, now)
                == State::initial(),
{
    lemma_successes_are_counted(policy, times.drop_last());
}

/// The policy that a route's configuration stands for. An open time that
/// cannot be read counts as none.
pub open spec fn policy_of(config: CircuitBreakerConfig) -> BreakerPolicy {
    BreakerPolicy {
        failure_threshold: config.failure_threshold,
        success_threshold: config.success_threshold,
        open_seconds: match duration_of(config.open_duration@) {
            Ok(seconds) => seconds,
            Err(_) => 0,
        },
    }
}

/// Reads the policy out of a route's configuration.
pub fn breaker_policy(config: &CircuitBreakerConfig) -> (policy: BreakerPolicy)
    ensures
        policy == policy_of(*config),
{
    let open_seconds = match parse_duration(config.open_duration.as_str()) {
        Ok(seconds) => seconds,
        Err(_) => 0,
    };
    BreakerPolicy {
        failure_threshold: config.failure_threshold,
        success_threshold: config.success_threshold,
        open_seconds,
    }
}

/// The circuits of all routes, by route name.
pub struct CircuitBreakerStore {
    circuits: CircuitTable,
    ttl_seconds: u64,
}

impl CircuitBreakerStore {
    /// The circuits that the store holds.
    pub closed spec fn circuits(self) -> Map<Seq<char>, CircuitState> {
        circuit_entries(self.circuits)
    }

    /// The seconds without use after which a circuit may be dropped.
    pub closed spec fn ttl(self) -> u64 {
        self.ttl_seconds
    }

    /// The state of a route's circuit: the initial state where the store
    /// holds none.
    pub open spec fn state_of(self, route_name: Seq<char>) -> State {
        if self.circuits().contains_key(route_name) {
            self.circuits()[route_name].state
        } else {
            State::initial()
        }
    }

    /// An empty store whose circuits expire after an hour without use.
    pub fn new() -> (store: Self)
        ensures
            store.circuits() == Map::<Seq<char>, CircuitState>::empty(),
            store.ttl() == CIRCUIT_BREAKER_DEFAULT_TTL_SECONDS,
    {
        Self::with_ttl(CIRCUIT_BREAKER_DEFAULT_TTL_SECONDS)
    }

    /// An empty store whose circuits expire after `ttl_seconds` without use.
    pub fn with_ttl(ttl_seconds: u64) -> (store: Self)
        ensures
            store.circuits() == Map::<Seq<char>, CircuitState>::empty(),
            store.ttl() == ttl_seconds,
    {
        let store = CircuitBreakerStore { circuits: circuits_new(), ttl_seconds };
        assert(store.circuits() =~= Map::<Seq<char>, CircuitState>::empty());
        store
    }

    /// The circuit of a route, made closed and put in the store where there
    /// was none. A circuit that was there is left as it is.
    pub fn get_or_insert(&mut self, route_name: &str, now: u64) -> (circuit: CircuitState)
        ensures
            final(self).ttl() == old(self).ttl(),
            old(self).circuits().contains_key(route_name@) ==> circuit == old(self).circuits()[route_name@]
                && final(self).circuits() == old(self).circuits(),
            !old(self).circuits().contains_key(route_name@) ==> circuit == (CircuitState {
                state: State::initial(),
                last_access: now,
            }) && final(self).circuits() == old(self).circuits().insert(route_name@, circuit),
    {
        match circuits_get(&self.circuits, route_name) {
            Some(circuit) => circuit,
            None => {
                let circuit = CircuitState {
                    state: State::Closed { consecutive_failures: 0 },
                    last_access: now,
                };
                circuits_insert(&mut self.circuits, owned(route_name), circuit);
                circuit
            },
        }
    }

    /// Decides whether a request for the route may go upstream at `now`, and
    /// notes the request in the route's circuit.
    ///
    /// A request on an open circuit is rejected until the open time has
    /// passed; the first request after that half-opens the circuit and goes
    /// through.
    pub fn allow(&mut self, route_name: &str, policy: &BreakerPolicy, now: u64) -> (r: Result<
        (),
        AppError,
    >)
        ensures
            final(self).ttl() == old(self).ttl(),
            r is Ok <==> old(self).state_of(route_name@).admits(*policy, now),
            r matches Err(e) ==> e == AppError::ServiceUnavailable,
            final(self).circuits() == old(self).circuits().insert(
                route_name@,
                CircuitState {
                    state: old(self).state_of(route_name@).on_request(*policy, now),
                    last_access: now,
                },
            ),
            final(self).circuits().dom().finite(),
    {
        let circuit = self.get_or_insert(route_name, now);
        let (state, admitted) = circuit.state.arrive(policy, now);
        circuits_insert(
            &mut self.circuits,
            owned(route_name),
            CircuitState { state, last_access: now },
        );
        assert(final(self).circuits() =~= old(self).circuits().insert(
            route_name@,
            CircuitState { state, last_access: now },
        ));
        if admitted {
            Ok(())
        } else {
            Err(AppError::ServiceUnavailable)
        }
    }

    /// Notes in the route's circuit how an upstream call ended at `now`:
    /// with the status `status`, a server error counting as a failure. The
    /// circuit is read anew: what happened to it during the call counts.
    pub fn record(&mut self, route_name: &str, policy: &BreakerPolicy, status: u16, now: u64)
        ensures
            final(self).ttl() == old(self).ttl(),
            final(self).circuits() == old(self).circuits().insert(
                route_name@,
                CircuitState {
                    state: old(self).state_of(route_name@).on_outcome(
                        *policy,
                        is_failure(status),
                        now,
                    ),
                    last_access: now,
                },
            ),
            final(self).circuits().dom().finite(),
    {
        let circuit = self.get_or_insert(route_name, now);
        let state = circuit.state.record(policy, status_is_failure(status), now);
        circuits_insert(
            &mut self.circuits,
            owned(route_name),
            CircuitState { state, last_access: now },
        );
        assert(final(self).circuits() =~= old(self).circuits().insert(
            route_name@,
            CircuitState { state, last_access: now },
        ));
    }

    /// Whether a circuit last used at `last_access` has expired at `now`.
    pub open spec fn expired(self, last_access: u64, now: u64) -> bool {
        elapsed(last_access, now) > self.ttl() * 1_000_000_000
    }

    /// Drops every circuit that has not been used for longer than the
    /// store's time to live, and keeps the others as they are.
    pub fn cleanup_expired_circuits(&mut self, now: u64)
        ensures
            final(self).ttl() == old(self).ttl(),
            forall|k: Seq<char>|
                final(self).circuits().contains_key(k) <==> old(self).circuits().contains_key(k)
                    && !old(self).expired(old(self).circuits()[k].last_access, now),
            forall|k: Seq<char>|
                final(self).circuits().contains_key(k) ==> final(self).circuits()[k] == old(
                    self,
                ).circuits()[k],
            final(self).circuits().dom().finite(),
    {
        let keys = circuits_keys(&self.circuits);
        let mut i: usize = 0;
        while i < keys.len()
            invariant
                i <= keys.len(),
                self.ttl_seconds == old(self).ttl_seconds,
                self.circuits().dom().finite(),
                forall|k: Seq<char>|
                    self.circuits().contains_key(k) ==> old(self).circuits().contains_key(k)
                        && self.circuits()[k] == old(self).circuits()[k],
                forall|k: Seq<char>|
                    old(self).circuits().contains_key(k) && !self.circuits().contains_key(k)
                        ==> old(self).expired(old(self).circuits()[k].last_access, now),
                forall|k: Seq<char>|
                    self.circuits().contains_key(k) && old(self).expired(
                        old(self).circuits()[k].last_access,
                        now,
                    ) ==> exists|j: int| i <= j < keys@.len() && #[trigger] keys@[j]@ == k,
            decreases keys.len() - i,
        {
            let key = keys[i].as_str();
            let ghost before = self.circuits();
            match circuits_get(&self.circuits, key) {
                Some(circuit) => {
                    if is_older_than(circuit.last_access, now, self.ttl_seconds) {
                        circuits_remove(&mut self.circuits, key);
                        assert(self.circuits() == before.remove(key@));
                    }
                },
                None => {},
            }
            assert forall|k: Seq<char>| self.circuits().contains_key(k) implies before.contains_key(
                k,
            ) && self.circuits()[k] == before[k] by {}
            i += 1;
        }
    }

    /// The number of circuits in the store, which holds finitely many.
    pub fn get_active_circuits_count(&self) -> (n: usize)
        ensures
            self.circuits().dom().finite(),
            n == self.circuits().len(),
    {
        circuits_len(&self.circuits)
    }
}

} // verus!
