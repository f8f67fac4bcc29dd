//! The request pipeline: the stages that every request passes, in their
//! order, over the stores that they share.
//!
//! A request is taken in two steps, with the upstream call between them.
//! `begin` resolves the route and runs authentication, rate limiting, the
//! cache lookup, the circuit breaker, the request transformation and the
//! proxy's planning; it ends in a response or in a plan of what to send
//! upstream. `complete` takes what the upstream answered and runs the
//! stages on the way back.

use std::sync::Arc;
use vstd::prelude::*;
use vstd::string::StrSliceExecFns;
use crate::auth::{auth_result, authenticate, Claims, ClaimsView, JwtOutcome};
use crate::cache::{
    cache_after, cache_before, cache_key_of, is_fresh, is_safe_method, is_success, ttl_of,
    CacheDecision, ResponseCache, ResponseView,
};
use crate::circuit_breaker::{
    breaker_policy, is_failure, policy_of, CircuitBreakerStore, CircuitState, State,
};
use crate::config::{ApiKeyStore, GatewayConfig, RouteConfig};
use crate::errors::{AppError, ErrorView};
use crate::constants::{CIRCUIT_BREAKER_DEFAULT_TTL_SECONDS, RATE_LIMITER_DEFAULT_TTL_SECONDS};
use crate::health_check::{DestinationHealth, HealthCheckStore};
use crate::message::{
    header_views, lemma_set_header_is_found, set_header, value_of, with_header, Header,
};
use crate::proxy::{
    destination_allowed, error_response, forward_outcome, plan_forward, request_id_header, upstream_response,
    ForwardPlan, GatewayResponse, PlanView, ReplyView,
};
use crate::rate_limiter::{
    allows, bucket_after, check_rate_limit, rate_of, Bucket, InMemoryRateLimitState,
};
use crate::text::{owned, views};
use crate::transform::{transform_request, transform_response, transformed};

verus! {

/// What the pipeline reads of a request.
#[derive(Debug, Clone, PartialEq, Eq)]
pub struct Request {
    pub method: String,
    /// The path that the route is resolved by.
    pub path: String,
    /// The whole URI, which the cache key is derived from.
    pub uri: String,
    pub headers: Vec<Header>,
    /// The text of the `Authorization` header, if the request has one.
    pub authorization: Option<String>,
    /// The key of the client's rate-limit bucket: its address.
    pub client: String,
    /// The length of the body, in bytes.
    pub body_len: usize,
}

/// How the upstream call ended.
#[derive(Debug, Clone, PartialEq, Eq)]
pub enum UpstreamOutcome {
    /// The upstream answered.
    Answered { status: u16, headers: Vec<Header>, body: Vec<u8> },
    /// The upstream could not be reached or its answer not be read; holds why.
    Failed(String),
}

/// A request that is on its way upstream. It holds its route: a
/// configuration that is put in place meanwhile does not change it.
#[derive(Debug, Clone)]
pub struct InFlight {
    pub route: Arc<RouteConfig>,
    pub request_id: String,
    /// The principal, if the route asks for authentication.
    pub claims: Option<Claims>,
    /// The key to store the response under, if the request may be cached.
    pub cache_key: Option<String>,
    /// What to send upstream.
    pub plan: ForwardPlan,
}

/// How the first half of the pipeline ends.
#[derive(Debug, Clone)]
pub enum Step {
    /// The cache has answered the request.
    Respond(GatewayResponse),
    /// A stage has refused the request: the error, and the response that
    /// tells the client of it.
    Refuse(AppError, GatewayResponse),
    /// The request goes upstream.
    Forward(InFlight),
}

/// Whether `step` is the refusal of a request with the error `e` and the
/// response `reply`.
pub open spec fn refused(step: Step, e: ErrorView, reply: ReplyView) -> bool {
    step matches Step::Refuse(error, response) && error@ == e && response@ == reply
}

/// The gateway: its configuration and the stores of its stages.
pub struct Gateway {
    pub config: GatewayConfig,
    pub key_store: ApiKeyStore,
    pub rate_limit_store: InMemoryRateLimitState,
    pub cache: ResponseCache,
    pub circuit_breaker_store: CircuitBreakerStore,
    pub health: HealthCheckStore,
}

/// The request id as the bytes of a header value.
pub open spec fn id_bytes(request_id: Seq<char>) -> Seq<u8> {
    vstd::utf8::encode_utf8(request_id)
}

/// The response with the request id among its headers.
pub open spec fn sealed(reply: ReplyView, request_id: Seq<char>) -> ReplyView {
    ReplyView {
        status: reply.status,
        headers: with_header(reply.headers, request_id_header(), id_bytes(request_id)),
        body: reply.body,
    }
}

/// The response that tells the client of the error `e`.
pub open spec fn error_reply(e: ErrorView, request_id: Seq<char>) -> ReplyView {
    ReplyView {
        status: e.status(),
        headers: seq![(request_id_header(), id_bytes(request_id))],
        body: vstd::utf8::encode_utf8(e.reply_text()),
    }
}

/// The response that a cached entry stands for.
pub open spec fn reply_of(entry: ResponseView) -> ReplyView {
    ReplyView { status: entry.status, headers: entry.headers, body: entry.body }
}

/// The response as it comes from the upstream call, before the stages on
/// the way back: what the upstream answered with the request id set, or
/// the error that tells of a failed call.
pub open spec fn inner_reply(upstream: UpstreamOutcome, request_id: Seq<char>) -> ReplyView {
    match upstream {
        UpstreamOutcome::Answered { status, headers, body } => sealed(
            ReplyView { status, headers: header_views(headers@), body: body@ },
            request_id,
        ),
        UpstreamOutcome::Failed(why) => error_reply(ErrorView::ProxyError(why@), request_id),
    }
}

/// The response after the transformation stage on the way back.
pub open spec fn outer_reply(inner: ReplyView, route: RouteConfig) -> ReplyView {
    ReplyView {
        status: inner.status,
        headers: transformed(inner.headers, route.transform, true),
        body: inner.body,
    }
}

/// The circuits after a request on the route has arrived at `now`.
pub open spec fn circuits_after_request(
    circuits: Map<Seq<char>, CircuitState>,
    route: RouteConfig,
    now: u64,
) -> Map<Seq<char>, CircuitState> {
    match route.circuit_breaker {
        Some(c) => circuits.insert(
            route.name@,
            CircuitState {
                state: state_in(circuits, route.name@).on_request(policy_of(c), now),
                last_access: now,
            },
        ),
        None => circuits,
    }
}

/// The circuits after a call on the route has ended at `now` with `status`.
pub open spec fn circuits_after_outcome(
    circuits: Map<Seq<char>, CircuitState>,
    route: RouteConfig,
    status: u16,
    now: u64,
) -> Map<Seq<char>, CircuitState> {
    match route.circuit_breaker {
        Some(c) => circuits.insert(
            route.name@,
            CircuitState {
                state: state_in(circuits, route.name@).on_outcome(
                    policy_of(c),
                    is_failure(status),
                    now,
                ),
                last_access: now,
            },
        ),
        None => circuits,
    }
}

/// The state of a route's circuit among `circuits`: the initial state
/// where there is none.
pub open spec fn state_in(circuits: Map<Seq<char>, CircuitState>, name: Seq<char>) -> State {
    if circuits.contains_key(name) {
        circuits[name].state
    } else {
        State::initial()
    }
}

/// Whether the circuit of the route lets a request through at `now`.
pub open spec fn breaker_admits(
    circuits: Map<Seq<char>, CircuitState>,
    route: RouteConfig,
    now: u64,
) -> bool {
    match route.circuit_breaker {
        Some(c) => state_in(circuits, route.name@).admits(policy_of(c), now),
        None => true,
    }
}

/// The cached entries after a response has come back: with the response
/// under `key` if it is a success and the request may be cached.
pub open spec fn cached_after(
    cached: Map<Seq<char>, ResponseView>,
    key: Option<String>,
    reply: ReplyView,
    now: u64,
) -> Map<Seq<char>, ResponseView> {
    match key {
        Some(k) => if is_success(reply.status) {
            cached.insert(
                k@,
                ResponseView {
                    status: reply.status,
                    headers: reply.headers,
                    body: reply.body,
                    inserted_at: now,
                },
            )
        } else {
            cached
        },
        None => cached,
    }
}

/// Whether the request's response may come from and go to the cache.
pub open spec fn cacheable(route: RouteConfig, method: Seq<char>) -> bool {
    route.cache is Some && is_safe_method(method)
}

/// The cached entries after the cache stage has let a request pass: as
/// they were, but for nothing under the request's key if the request may
/// be cached.
pub open spec fn cached_after_miss(
    cached: Map<Seq<char>, ResponseView>,
    route: RouteConfig,
    request: Request,
) -> Map<Seq<char>, ResponseView> {
    if cacheable(route, request.method@) {
        cached.remove(cache_key_of(request.uri@))
    } else {
        cached
    }
}

/// How the second half of the pipeline ends: the response, and what the
/// circuit breaker and the cache hold afterwards.
pub struct Completion {
    pub reply: ReplyView,
    pub circuits: Map<Seq<char>, CircuitState>,
    pub cached: Map<Seq<char>, ResponseView>,
}

impl Gateway {
    /// How the request `flight` ends at `now`, given how its upstream call
    /// ended.
    ///
    /// The response is what the upstream answered, or the error for a
    /// failed call, under the route's rules for responses and with the
    /// request id. The circuit of the route notes the outcome. A success
    /// is kept in the cache if the request may be cached. All of it goes
    /// by the route that the flight holds.
    pub open spec fn completion(self, flight: InFlight, upstream: UpstreamOutcome, now: u64) -> Completion {
        let inner = inner_reply(upstream, flight.request_id@);
        let outer = outer_reply(inner, *flight.route);
        Completion {
            reply: sealed(outer, flight.request_id@),
            circuits: circuits_after_outcome(self.circuits(), *flight.route, inner.status, now),
            cached: cached_after(self.cached(), flight.cache_key, outer, now),
        }
    }

    /// The buckets of the rate limiter.
    pub open spec fn buckets(self) -> Map<Seq<char>, Bucket> {
        self.rate_limit_store.buckets()
    }

    /// The circuits of the circuit breaker.
    pub open spec fn circuits(self) -> Map<Seq<char>, CircuitState> {
        self.circuit_breaker_store.circuits()
    }

    /// The entries of the response cache.
    pub open spec fn cached(self) -> Map<Seq<char>, ResponseView> {
        self.cache.entries()
    }

    /// What the authentication stage decides for the request: no
    /// principal on a route without authentication.
    pub open spec fn auth_of(self, route: RouteConfig, request: Request, decoded: JwtOutcome) -> Result<
        Option<ClaimsView>,
        ErrorView,
    > {
        match route.auth {
            None => Ok(None),
            Some(auth) => match auth_result(
                match request.authorization {
                    Some(text) => Some(text@),
                    None => None,
                },
                auth,
                decoded,
                self.key_store.keys@,
            ) {
                Ok(claims) => Ok(Some(claims)),
                Err(e) => Err(e),
            },
        }
    }

    /// Whether the rate-limit stage serves the request.
    pub open spec fn rate_allows(self, route: RouteConfig, request: Request, now: u64) -> bool {
        match route.rate_limit {
            Some(limit) => allows(
                self.rate_limit_store.bucket_of(request.client@),
                limit.requests,
                rate_of(limit),
                now,
            ),
            None => true,
        }
    }

    /// The buckets after the rate-limit stage.
    pub open spec fn buckets_after(self, route: RouteConfig, request: Request, now: u64) -> Map<
        Seq<char>,
        Bucket,
    > {
        match route.rate_limit {
            Some(limit) => self.buckets().insert(
                request.client@,
                bucket_after(
                    self.rate_limit_store.bucket_of(request.client@),
                    limit.requests,
                    rate_of(limit),
                    now,
                ),
            ),
            None => self.buckets(),
        }
    }

    /// What the proxy step plans for the request, after the request
    /// transformation.
    pub open spec fn planned(self, route: RouteConfig, request: Request, request_id: Seq<char>) -> Result<
        PlanView,
        ErrorView,
    > {
        forward_outcome(
            route,
            request.path@,
            request_id,
            transformed(header_views(request.headers@), route.transform, false),
            request.body_len,
            self.config.security,
            self.health,
        )
    }

    /// A gateway with the given configuration and keys, and empty stores:
    /// no bucket, no circuit, no cached response and no health record.
    /// Buckets and circuits expire after an hour without use.
    pub fn new(config: GatewayConfig, key_store: ApiKeyStore) -> (gateway: Self)
        ensures
            gateway.config == config,
            gateway.key_store == key_store,
            gateway.buckets() == Map::<Seq<char>, Bucket>::empty(),
            gateway.circuits() == Map::<Seq<char>, CircuitState>::empty(),
            gateway.cached() == Map::<Seq<char>, ResponseView>::empty(),
            gateway.health.records() == Map::<Seq<char>, DestinationHealth>::empty(),
            gateway.rate_limit_store.ttl() == RATE_LIMITER_DEFAULT_TTL_SECONDS,
            gateway.circuit_breaker_store.ttl() == CIRCUIT_BREAKER_DEFAULT_TTL_SECONDS,
    {
        Gateway {
            config,
            key_store,
            rate_limit_store: InMemoryRateLimitState::new(),
            cache: ResponseCache::new(),
            circuit_breaker_store: CircuitBreakerStore::new(),
            health: HealthCheckStore::new(),
        }
    }

    /// The stages on the way back, for the response `inner` of a request
    /// on `route`: the response transformation, the circuit breaker's
    /// note of the outcome, the cache's keeping of a success, and the
    /// request id.
    fn finish(
        &mut self,
        route: &RouteConfig,
        request_id: &str,
        cache_key: Option<String>,
        inner: GatewayResponse,
        now: u64,
    ) -> (reply: GatewayResponse)
        ensures
            reply@ == sealed(outer_reply(inner@, *route), request_id@),
            final(self).config == old(self).config,
            final(self).key_store == old(self).key_store,
            final(self).health == old(self).health,
            final(self).buckets() == old(self).buckets(),
            final(self).rate_limit_store.ttl() == old(self).rate_limit_store.ttl(),
            final(self).circuit_breaker_store.ttl() == old(self).circuit_breaker_store.ttl(),
            final(self).circuits() == circuits_after_outcome(
                old(self).circuits(),
                *route,
                inner.status,
                now,
            ),
            final(self).cached() == cached_after(
                old(self).cached(),
                cache_key,
                outer_reply(inner@, *route),
                now,
            ),
    {
        let status = inner.status;
        let headers = transform_response(&inner.headers, &route.transform);
        if let Some(c) = &route.circuit_breaker {
            let policy = breaker_policy(c);
            self.circuit_breaker_store.record(route.name.as_str(), &policy, status, now);
        }
        let sealed_headers = set_header(&headers, "x-request-id", request_id.as_bytes_vec());
        let body = inner.body;
        match cache_key {
            Some(key) => {
                let copy = vstd::slice::slice_to_vec(body.as_slice());
                cache_after(&mut self.cache, key, status, headers, copy, now);
            },
            None => {},
        }
        GatewayResponse { status, headers: sealed_headers, body }
    }

    /// The first half of the pipeline, for a request that arrives at `now`.
    ///
    /// The stages run in this order, and the first that refuses the
    /// request answers it: route resolution, authentication, rate
    /// limiting, cache lookup, circuit breaker, request transformation,
    /// proxy planning. `decoded` is what the token decoder reported of
    /// the request's bearer token.
    ///
    /// Whether the cache answers is the one thing that the inputs do not
    /// settle: it does only with a fresh response that it holds, and where
    /// it does not, nothing is left under the request's key. Every
    /// response carries the request id.
    pub fn begin(&mut self, request: &Request, request_id: &str, decoded: JwtOutcome, now: u64) -> (step:
        Step)
        ensures
            final(self).config == old(self).config,
            final(self).key_store == old(self).key_store,
            final(self).health == old(self).health,
            final(self).rate_limit_store.ttl() == old(self).rate_limit_store.ttl(),
            final(self).circuit_breaker_store.ttl() == old(self).circuit_breaker_store.ttl(),
            step matches Step::Respond(reply) ==> value_of(reply@.headers, request_id_header())
                == Some(id_bytes(request_id@)),
            step matches Step::Refuse(_, reply) ==> value_of(reply@.headers, request_id_header())
                == Some(id_bytes(request_id@)),
            step matches Step::Forward(flight) ==> destination_allowed(
                flight.plan.url@,
                views(old(self).config.security.allowed_domains@),
            ),
            match old(self).config.route_for(request.path@) {
                None => {
                    &&& refused(
                        step,
                        ErrorView::RouteNotFound,
                        error_reply(ErrorView::RouteNotFound, request_id@),
                    )
                    &&& final(self).buckets() == old(self).buckets()
                    &&& final(self).circuits() == old(self).circuits()
                    &&& final(self).cached() == old(self).cached()
                },
                Some(route) => match old(self).auth_of(*route, *request, decoded) {
                    Err(e) => {
                        &&& refused(step, e, error_reply(e, request_id@))
                        &&& final(self).buckets() == old(self).buckets()
                        &&& final(self).circuits() == old(self).circuits()
                        &&& final(self).cached() == old(self).cached()
                    },
                    Ok(claims) => {
                        &&& final(self).buckets() == old(self).buckets_after(*route, *request, now)
                        &&& if !old(self).rate_allows(*route, *request, now) {
                            &&& refused(
                                step,
                                ErrorView::RateLimited,
                                error_reply(ErrorView::RateLimited, request_id@),
                            )
                            &&& final(self).circuits() == old(self).circuits()
                            &&& final(self).cached() == old(self).cached()
                        } else {
                            match step {
                                Step::Respond(reply) => {
                                    let key = cache_key_of(request.uri@);
                                    &&& cacheable(*route, request.method@)
                                    &&& old(self).cached().contains_key(key)
                                    &&& is_fresh(
                                        old(self).cached()[key].inserted_at,
                                        ttl_of(route.cache->0),
                                        now,
                                    )
                                    &&& reply@ == sealed(
                                        reply_of(old(self).cached()[key]),
                                        request_id@,
                                    )
                                    &&& final(self).circuits() == old(self).circuits()
                                    &&& final(self).cached() == old(self).cached()
                                },
                                Step::Refuse(error, reply) => {
                                    &&& final(self).cached() == cached_after_miss(
                                        old(self).cached(),
                                        *route,
                                        *request,
                                    )
                                    &&& if !breaker_admits(old(self).circuits(), *route, now) {
                                        &&& error@ == ErrorView::ServiceUnavailable
                                        &&& reply@ == error_reply(
                                            ErrorView::ServiceUnavailable,
                                            request_id@,
                                        )
                                        &&& final(self).circuits() == circuits_after_request(
                                            old(self).circuits(),
                                            *route,
                                            now,
                                        )
                                    } else {
                                        &&& old(self).planned(*route, *request, request_id@)
                                            == Err::<PlanView, ErrorView>(error@)
                                        &&& reply@ == sealed(
                                            outer_reply(error_reply(error@, request_id@), *route),
                                            request_id@,
                                        )
                                        &&& final(self).circuits() == circuits_after_outcome(
                                            circuits_after_request(
                                                old(self).circuits(),
                                                *route,
                                                now,
                                            ),
                                            *route,
                                            error@.status(),
                                            now,
                                        )
                                    }
                                },
                                Step::Forward(flight) => {
                                    &&& breaker_admits(old(self).circuits(), *route, now)
                                    &&& old(self).planned(*route, *request, request_id@) == Ok::<
                                        PlanView,
                                        ErrorView,
                                    >(flight.plan@)
                                    &&& flight.route == route
                                    &&& flight.request_id@ == request_id@
                                    &&& match flight.claims {
                                        Some(c) => claims == Some(c@),
                                        None => claims is None,
                                    }
                                    &&& match flight.cache_key {
                                        Some(k) => cacheable(*route, request.method@) && k@
                                            == cache_key_of(request.uri@),
                                        None => !cacheable(*route, request.method@),
                                    }
                                    &&& final(self).circuits() == circuits_after_request(
                                        old(self).circuits(),
                                        *route,
                                        now,
                                    )
                                    &&& final(self).cached() == cached_after_miss(
                                        old(self).cached(),
                                        *route,
                                        *request,
                                    )
                                },
                            }
                        }
                    },
                },
            },
    {
        proof {
            lemma_reply_carries_id(request_id@);
        }
        let route = match self.config.find_route_for_path(request.path.as_str()) {
            Some(route) => route,
            None => {
                let reply = error_response(&AppError::RouteNotFound, request_id);
                return Step::Refuse(AppError::RouteNotFound, reply);
            },
        };
        let authorization: Option<&str> = match &request.authorization {
            Some(text) => Some(text.as_str()),
            None => None,
        };
        let claims = match &route.auth {
            Some(auth) => match authenticate(authorization, auth, decoded, &self.key_store) {
                Ok(claims) => Some(claims),
                Err(e) => {
                    let reply = error_response(&e, request_id);
                    return Step::Refuse(e, reply);
                },
            },
            None => None,
        };
        match check_rate_limit(
            &mut self.rate_limit_store,
            &route.rate_limit,
            request.client.as_str(),
            now,
        ) {
            Ok(()) => {},
            Err(e) => {
                let reply = error_response(&e, request_id);
                return Step::Refuse(e, reply);
            },
        }
        let decision = cache_before(
            &mut self.cache,
            &route.cache,
            request.method.as_str(),
            request.uri.as_str(),
            now,
        );
        let cache_key = match decision {
            CacheDecision::Hit(found) => {
                let headers = set_header(&found.headers, "x-request-id", request_id.as_bytes_vec());
                let reply = GatewayResponse { status: found.status, headers, body: found.body };
                assert(reply@ == sealed(reply_of(found@), request_id@));
                return Step::Respond(reply);
            },
            CacheDecision::Miss(key) => Some(key),
            CacheDecision::Bypass => None,
        };
        if let Some(c) = &route.circuit_breaker {
            let policy = breaker_policy(c);
            match self.circuit_breaker_store.allow(route.name.as_str(), &policy, now) {
                Ok(()) => {},
                Err(e) => {
                    let reply = error_response(&e, request_id);
                    return Step::Refuse(e, reply);
                },
            }
        }
        let headers = transform_request(&request.headers, &route.transform);
        match plan_forward(
            &route,
            request.path.as_str(),
            request_id,
            &headers,
            request.body_len,
            &self.config.security,
            &self.health,
        ) {
            Ok(plan) => Step::Forward(
                InFlight { route, request_id: owned(request_id), claims, cache_key, plan },
            ),
            Err(e) => {
                let inner = error_response(&e, request_id);
                let reply = self.finish(&route, request_id, None, inner, now);
                Step::Refuse(e, reply)
            },
        }
    }

    /// The second half of the pipeline, for a request whose upstream call
    /// has ended at `now`.
    ///
    /// The response and what the stores learn go by the route that the
    /// request resolved when it began, whatever configuration the gateway
    /// holds by now. The circuit is read anew. A success is kept in the
    /// cache if the request may be cached. The response carries the
    /// request id.
    pub fn complete(&mut self, flight: InFlight, upstream: UpstreamOutcome, now: u64) -> (reply:
        GatewayResponse)
        ensures
            reply@ == old(self).completion(flight, upstream, now).reply,
            final(self).circuits() == old(self).completion(flight, upstream, now).circuits,
            final(self).cached() == old(self).completion(flight, upstream, now).cached,
            value_of(reply@.headers, request_id_header()) == Some(id_bytes(flight.request_id@)),
            final(self).config == old(self).config,
            final(self).key_store == old(self).key_store,
            final(self).health == old(self).health,
            final(self).buckets() == old(self).buckets(),
            final(self).rate_limit_store.ttl() == old(self).rate_limit_store.ttl(),
            final(self).circuit_breaker_store.ttl() == old(self).circuit_breaker_store.ttl(),
    {
        proof {
            lemma_reply_carries_id(flight.request_id@);
        }
        let id = flight.request_id.as_str();
        let inner = match upstream {
            UpstreamOutcome::Answered { status, headers, body } => upstream_response(
                status,
                &headers,
                body,
                id,
            ),
            UpstreamOutcome::Failed(why) => error_response(&AppError::ProxyError(why), id),
        };
        self.finish(&flight.route, id, flight.cache_key, inner, now)
    }
}

/// A response that has been given the request id carries it: the header
/// `x-request-id` is found, with the id as its value.
pub proof fn lemma_reply_carries_id(request_id: Seq<char>)
    ensures
        forall|reply: ReplyView|
            value_of(#[trigger] sealed(reply, request_id).headers, request_id_header()) == Some(
                id_bytes(request_id),
            ),
        forall|e: ErrorView|
            value_of(#[trigger] error_reply(e, request_id).headers, request_id_header()) == Some(
                id_bytes(request_id),
            ),
{
    assert forall|reply: ReplyView|
        value_of(#[trigger] sealed(reply, request_id).headers, request_id_header()) == Some(
            id_bytes(request_id),
        ) by {
        lemma_set_header_is_found(reply.headers, request_id_header(), id_bytes(request_id));
    }
    assert forall|e: ErrorView|
        value_of(#[trigger] error_reply(e, request_id).headers, request_id_header()) == Some(
            id_bytes(request_id),
        ) by {
        let hs = error_reply(e, request_id).headers;
        assert(hs.drop_first().len() == 0);
    }
}

/// A request that is in flight ends by its own route: a gateway whose
/// configuration or keys have been replaced since the request began
/// completes it as the gateway that began it would have.
pub proof fn lemma_completion_goes_by_the_flights_route(
    began: Gateway,
    reloaded: Gateway,
    flight: InFlight,
    upstream: UpstreamOutcome,
    now: u64,
)
    requires
        reloaded.circuits() == began.circuits(),
        reloaded.cached() == began.cached(),
    ensures
        reloaded.completion(flight, upstream, now) == began.completion(flight, upstream, now),
{
}

/// A success that has come back for a request that may be cached is found
/// in the cache under the request's key, and what the cache stage answers a
/// later request of that key with is that response: the same status and
/// body, and the same headers but for the request id. It does so for as
/// long as the entry is fresh, and as far as the store behind the cache
/// still holds the entry.
pub proof fn lemma_cached_reply_is_the_stored_reply(
    cached: Map<Seq<char>, ResponseView>,
    key: String,
    reply: ReplyView,
    stored_at: u64,
    ttl_seconds: u64,
    now: u64,
    request_id: Seq<char>,
)
    requires
        is_success(reply.status),
        crate::time::elapsed(stored_at, now) < ttl_seconds * 1_000_000_000,
    ensures
        cached_after(cached, Some(key), reply, stored_at).contains_key(key@),
        is_fresh(cached_after(cached, Some(key), reply, stored_at)[key@].inserted_at, ttl_seconds, now),
        reply_of(cached_after(cached, Some(key), reply, stored_at)[key@]) == reply,
        sealed(reply_of(cached_after(cached, Some(key), reply, stored_at)[key@]), request_id)
            == sealed(reply, request_id),
{
}

} // verus!
