use rustway::auth::{Claims, JwtOutcome};
use rustway::config::{
    ApiKeyDetails, ApiKeyStore, AuthConfig, AuthType, CacheConfig, CircuitBreakerConfig,
    GatewayConfig, HeaderRules, IdentityConfig, LoadBalancingConfig, MetricsConfig,
    ObservabilityConfig, RateLimitConfig, RouteConfig, SecurityConfig, ServerConfig,
    TransformConfig,
};
use rustway::circuit_breaker::State;
use rustway::errors::AppError;
use rustway::gateway::{Gateway, InFlight, Request, Step, UpstreamOutcome};
use rustway::hot_reload::reload_config;
use rustway::message::{header_value, Header};
use rustway::proxy::GatewayResponse;
use std::sync::Arc;

const S: u64 = 1_000_000_000;

fn header(name: &str, value: &str) -> Header {
    Header { name: name.to_string(), value: value.as_bytes().to_vec() }
}

fn route(name: &str) -> RouteConfig {
    RouteConfig {
        name: name.to_string(),
        path: format!("/test/{}", name),
        destinations: vec![],
        destination: "http://localhost:8000".to_string(),
        auth: None,
        rate_limit: None,
        cache: None,
        circuit_breaker: None,
        load_balancing: LoadBalancingConfig { strategy: "round_robin".to_string(), enabled: false },
        health_check: None,
        transform: None,
        timeout: "30s".to_string(),
    }
}

fn gateway() -> Gateway {
    let mut jwt = route("jwt");
    jwt.auth = Some(AuthConfig { auth_type: AuthType::Jwt, roles: Some(vec!["admin".to_string()]) });
    let mut apikey = route("apikey");
    apikey.auth = Some(AuthConfig { auth_type: AuthType::ApiKey, roles: None });
    let mut ratelimit = route("ratelimit");
    ratelimit.rate_limit = Some(RateLimitConfig { requests: 3, period: "1m".to_string() });
    let mut cache = route("cache");
    cache.cache = Some(CacheConfig { ttl: "5s".to_string() });
    let mut breaker = route("breaker");
    breaker.circuit_breaker =
        Some(CircuitBreakerConfig { failure_threshold: 2, success_threshold: 2, open_duration: "5s".to_string() });
    let mut evil = route("evil");
    evil.destination = "http://169.254.169.254".to_string();
    evil.circuit_breaker =
        Some(CircuitBreakerConfig { failure_threshold: 1, success_threshold: 1, open_duration: "5s".to_string() });
    let mut shaped = route("shaped");
    shaped.transform = Some(TransformConfig {
        request_headers: HeaderRules { add: vec![("accept".to_string(), "text/plain".to_string())], remove: vec![] },
        response_headers: HeaderRules {
            add: vec![("x-served-by".to_string(), "rustway".to_string())],
            remove: vec!["server".to_string(), "x-request-id".to_string()],
        },
    });
    let config = GatewayConfig {
        server: ServerConfig { addr: "127.0.0.1:8081".to_string() },
        routes: vec![route("public"), jwt, apikey, ratelimit, cache, breaker, evil, shaped]
            .into_iter()
            .map(Arc::new)
            .collect(),
        observability: ObservabilityConfig { metrics: MetricsConfig { enabled: false } },
        identity: IdentityConfig { api_key_store_path: "./api_keys.yaml".to_string() },
        security: SecurityConfig {
            allowed_domains: vec!["localhost".to_string(), "127.0.0.1".to_string()],
            max_request_size: 10 * 1024 * 1024,
        },
    };
    assert_eq!(config.validate(), Ok(()));
    let mut keys = ApiKeyStore::new();
    keys.insert(
        "user-key-for-alice".to_string(),
        ApiKeyDetails { user_id: "alice".to_string(), roles: vec!["user".to_string()], status: "active".to_string() },
    );
    Gateway::new(config, keys)
}

fn request(method: &str, path: &str) -> Request {
    Request {
        method: method.to_string(),
        path: path.to_string(),
        uri: path.to_string(),
        headers: vec![header("accept", "*/*"), header("cookie", "secret")],
        authorization: None,
        client: "127.0.0.1".to_string(),
        body_len: 0,
    }
}

fn with_auth(mut r: Request, text: &str) -> Request {
    r.authorization = Some(text.to_string());
    r
}

fn claims(role: &str) -> JwtOutcome {
    JwtOutcome::Valid(Claims { sub: "u".to_string(), roles: vec![role.to_string()], exp: 4102444800 })
}

fn answered(status: u16, body: &str) -> UpstreamOutcome {
    UpstreamOutcome::Answered {
        status,
        headers: vec![header("content-type", "application/json"), header("server", "backend")],
        body: body.as_bytes().to_vec(),
    }
}

fn respond(step: Step) -> GatewayResponse {
    match step {
        Step::Respond(reply) => reply,
        Step::Refuse(_, reply) => reply,
        Step::Forward(flight) => panic!("forwarded to {}", flight.plan.url),
    }
}

fn refusal(step: Step) -> (AppError, GatewayResponse) {
    match step {
        Step::Refuse(error, reply) => (error, reply),
        Step::Respond(reply) => panic!("answered with {}", reply.status),
        Step::Forward(flight) => panic!("forwarded to {}", flight.plan.url),
    }
}

fn forward(step: Step) -> InFlight {
    match step {
        Step::Forward(flight) => flight,
        Step::Respond(reply) => panic!("answered with {}", reply.status),
        Step::Refuse(error, _) => panic!("refused with {:?}", error),
    }
}

fn call(g: &mut Gateway, r: &Request, id: &str, decoded: JwtOutcome, now: u64, upstream: UpstreamOutcome) -> GatewayResponse {
    match g.begin(r, id, decoded, now) {
        Step::Respond(reply) => reply,
        Step::Refuse(_, reply) => reply,
        Step::Forward(flight) => g.complete(flight, upstream, now),
    }
}

fn id_of(reply: &GatewayResponse) -> Option<&Vec<u8>> {
    header_value(&reply.headers, "x-request-id")
}

#[test]
fn a_public_request_goes_upstream_and_comes_back() {
    let mut g = gateway();
    let flight = forward(g.begin(&request("POST", "/test/public/items/3"), "req-1", JwtOutcome::Invalid, 0));
    assert_eq!(flight.plan.url, "http://localhost:8000/items/3");
    assert_eq!(flight.plan.headers, vec![header("accept", "*/*"), header("x-request-id", "req-1")]);
    assert_eq!(flight.plan.timeout_seconds, 30);
    assert_eq!(flight.route.name, "public");
    assert_eq!(flight.request_id, "req-1");
    assert!(flight.claims.is_none());
    assert!(flight.cache_key.is_none());
    let reply = g.complete(flight, answered(201, "made"), 1);
    assert_eq!(reply.status, 201);
    assert_eq!(reply.body, b"made".to_vec());
    assert_eq!(
        reply.headers,
        vec![header("content-type", "application/json"), header("server", "backend"), header("x-request-id", "req-1")]
    );
}

#[test]
fn an_unknown_path_is_not_found() {
    let mut g = gateway();
    let reply = respond(g.begin(&request("GET", "/nonexistent/route"), "id", JwtOutcome::Invalid, 0));
    assert_eq!(reply.status, 404);
    assert_eq!(reply.body, b"Route not found".to_vec());
    assert_eq!(id_of(&reply), Some(&b"id".to_vec()));
}

#[test]
fn gateway_signed_token_scenario() {
    let mut g = gateway();
    let r = with_auth(request("GET", "/test/jwt"), "Bearer token");
    let flight = forward(g.begin(&r, "a", claims("admin"), 0));
    assert_eq!(flight.claims.as_ref().unwrap().roles, vec!["admin".to_string()]);
    assert_eq!(g.complete(flight, answered(200, "ok"), 0).status, 200);
    assert_eq!(respond(g.begin(&r, "b", claims("user"), 0)).status, 403);
    let bad = with_auth(request("GET", "/test/jwt"), "Bearer invalid");
    let reply = respond(g.begin(&bad, "c", JwtOutcome::Invalid, 0));
    assert_eq!(reply.status, 401);
    assert_eq!(reply.body, b"Authentication failed: Invalid JWT.".to_vec());
    let reply = respond(g.begin(&request("GET", "/test/jwt"), "d", JwtOutcome::Invalid, 0));
    assert_eq!(reply.status, 401);
    assert_eq!(reply.body, b"Missing 'Authorization' header".to_vec());
    let reply = respond(g.begin(&with_auth(request("GET", "/test/jwt"), "InvalidFormat token"), "e", JwtOutcome::Invalid, 0));
    assert_eq!(reply.status, 401);
    assert!(String::from_utf8(reply.body).unwrap().contains("Invalid"));
    let reply = respond(g.begin(&r, "f", JwtOutcome::Expired, 0));
    assert_eq!(reply.status, 401);
    assert_eq!(reply.body, b"Token has expired".to_vec());
}

#[test]
fn gateway_api_key_scenario() {
    let mut g = gateway();
    let good = with_auth(request("GET", "/test/apikey"), "Bearer user-key-for-alice");
    let flight = forward(g.begin(&good, "a", JwtOutcome::Invalid, 0));
    assert_eq!(flight.claims.as_ref().unwrap().sub, "alice");
    let bad = with_auth(request("GET", "/test/apikey"), "Bearer invalid-api-key");
    let reply = respond(g.begin(&bad, "b", JwtOutcome::Invalid, 0));
    assert_eq!(reply.status, 401);
    assert_eq!(reply.body, b"Authentication failed: Invalid API Key.".to_vec());
}

#[test]
fn gateway_rate_limit_scenario() {
    let mut g = gateway();
    let r = request("GET", "/test/ratelimit");
    let mut statuses = vec![];
    for i in 0..4u64 {
        statuses.push(call(&mut g, &r, "id", JwtOutcome::Invalid, i * S, answered(200, "ok")).status);
    }
    statuses.sort();
    assert_eq!(statuses, vec![200, 200, 200, 429]);
    let mut other = request("GET", "/test/ratelimit");
    other.client = "10.0.0.9".to_string();
    assert_eq!(call(&mut g, &other, "id", JwtOutcome::Invalid, 4 * S, answered(200, "ok")).status, 200);
    let reply = respond(g.begin(&r, "id-7", JwtOutcome::Invalid, 5 * S));
    assert_eq!(reply.status, 429);
    assert_eq!(reply.body, b"Too many requests".to_vec());
    assert_eq!(id_of(&reply), Some(&b"id-7".to_vec()));
}

#[test]
fn gateway_cache_scenario() {
    let mut g = gateway();
    let r = request("GET", "/test/cache");
    let flight = forward(g.begin(&r, "first", JwtOutcome::Invalid, 0));
    assert_eq!(flight.cache_key.as_deref(), Some("_test_cache"));
    let t1 = g.complete(flight, answered(200, "{\"timestamp\": 1}"), 0);
    let hit = respond(g.begin(&r, "second", JwtOutcome::Invalid, 2 * S));
    assert_eq!(hit.status, t1.status);
    assert_eq!(hit.body, t1.body);
    assert_eq!(
        hit.headers,
        vec![header("content-type", "application/json"), header("server", "backend"), header("x-request-id", "second")]
    );
    let flight = forward(g.begin(&r, "third", JwtOutcome::Invalid, 6 * S));
    let t2 = g.complete(flight, answered(200, "{\"timestamp\": 2}"), 6 * S);
    assert_ne!(t2.body, t1.body);
    assert_eq!(respond(g.begin(&r, "fourth", JwtOutcome::Invalid, 7 * S)).body, t2.body);
}

#[test]
fn unsafe_methods_and_failures_stay_out_of_the_cache() {
    let mut g = gateway();
    let post = request("POST", "/test/cache");
    let flight = forward(g.begin(&post, "a", JwtOutcome::Invalid, 0));
    assert!(flight.cache_key.is_none());
    g.complete(flight, answered(200, "posted"), 0);
    let get = request("GET", "/test/cache");
    let flight = forward(g.begin(&get, "b", JwtOutcome::Invalid, 1));
    g.complete(flight, answered(500, "broken"), 1);
    let flight = forward(g.begin(&get, "c", JwtOutcome::Invalid, 2));
    g.complete(flight, UpstreamOutcome::Failed("refused".to_string()), 2);
    forward(g.begin(&get, "d", JwtOutcome::Invalid, 3));
}

#[test]
fn gateway_breaker_scenario() {
    let mut g = gateway();
    let r = request("GET", "/test/breaker");
    assert_eq!(call(&mut g, &r, "1", JwtOutcome::Invalid, 1 * S, answered(500, "down")).status, 500);
    assert_eq!(call(&mut g, &r, "2", JwtOutcome::Invalid, 2 * S, answered(503, "down")).status, 503);
    let reply = respond(g.begin(&r, "3", JwtOutcome::Invalid, 3 * S));
    assert_eq!(reply.status, 503);
    assert_eq!(reply.body, b"Service Unavailable".to_vec());
    assert_eq!(id_of(&reply), Some(&b"3".to_vec()));
    assert_eq!(respond(g.begin(&r, "4", JwtOutcome::Invalid, 7 * S - 1)).status, 503);
    assert_eq!(call(&mut g, &r, "5", JwtOutcome::Invalid, 7 * S, answered(200, "up")).status, 200);
    assert_eq!(call(&mut g, &r, "6", JwtOutcome::Invalid, 8 * S, answered(200, "up")).status, 200);
    assert_eq!(
        g.circuit_breaker_store.get_or_insert("breaker", 9 * S).state,
        State::Closed { consecutive_failures: 0 }
    );
    assert_eq!(call(&mut g, &r, "7", JwtOutcome::Invalid, 9 * S, answered(200, "up")).status, 200);
}

#[test]
fn a_failed_upstream_call_is_a_bad_gateway_and_a_failure() {
    let mut g = gateway();
    let r = request("GET", "/test/breaker");
    let reply = call(&mut g, &r, "1", JwtOutcome::Invalid, 0, UpstreamOutcome::Failed("timed out".to_string()));
    assert_eq!(reply.status, 502);
    assert_eq!(reply.body, b"Error proxying request".to_vec());
    assert_eq!(id_of(&reply), Some(&b"1".to_vec()));
    assert_eq!(
        g.circuit_breaker_store.get_or_insert("breaker", 0).state,
        State::Closed { consecutive_failures: 1 }
    );
}

#[test]
fn gateway_ssrf_scenario() {
    let mut g = gateway();
    let reply = respond(g.begin(&request("GET", "/test/evil/latest/meta-data"), "id", JwtOutcome::Invalid, 0));
    assert_eq!(reply.status, 500);
    assert_eq!(reply.body, b"Invalid gateway configuration".to_vec());
    assert_eq!(id_of(&reply), Some(&b"id".to_vec()));
    assert_eq!(g.circuit_breaker_store.get_or_insert("evil", 0).state, State::Open { opened_at: 0 });
}

#[test]
fn gateway_oversize_scenario() {
    let mut g = gateway();
    let mut r = request("POST", "/test/public/x");
    r.body_len = 11 * 1024 * 1024;
    let reply = respond(g.begin(&r, "id", JwtOutcome::Invalid, 0));
    assert_eq!(reply.status, 413);
    assert_eq!(reply.body, b"Request too large".to_vec());
    r.body_len = 10 * 1024 * 1024;
    forward(g.begin(&r, "id", JwtOutcome::Invalid, 0));
}

#[test]
fn every_response_carries_the_request_id() {
    let mut g = gateway();
    let shaped = request("GET", "/test/shaped");
    let flight = forward(g.begin(&shaped, "keep-me", JwtOutcome::Invalid, 0));
    assert_eq!(flight.plan.headers, vec![header("accept", "text/plain"), header("x-request-id", "keep-me")]);
    let reply = g.complete(flight, answered(200, "ok"), 0);
    assert_eq!(
        reply.headers,
        vec![header("content-type", "application/json"), header("x-served-by", "rustway"), header("x-request-id", "keep-me")]
    );
    for (r, outcome) in [
        (request("GET", "/test/public"), answered(200, "ok")),
        (request("GET", "/test/public"), answered(404, "no")),
        (request("GET", "/test/public"), UpstreamOutcome::Failed("x".to_string())),
        (request("GET", "/nowhere"), answered(200, "ok")),
        (request("GET", "/test/jwt"), answered(200, "ok")),
        (request("GET", "/test/evil"), answered(200, "ok")),
    ] {
        let reply = call(&mut g, &r, "the-id", JwtOutcome::Invalid, 0, outcome);
        assert_eq!(id_of(&reply), Some(&b"the-id".to_vec()));
    }
}

#[test]
fn a_request_in_flight_keeps_its_route_through_a_reload() {
    let mut g = gateway();
    let r = request("GET", "/test/cache");
    let flight = forward(g.begin(&r, "before", JwtOutcome::Invalid, 0));
    let mut next = route("fresh");
    next.path = "/fresh".to_string();
    let replacement = GatewayConfig {
        server: ServerConfig { addr: "127.0.0.1:9".to_string() },
        routes: vec![Arc::new(next)],
        observability: ObservabilityConfig { metrics: MetricsConfig { enabled: true } },
        identity: IdentityConfig { api_key_store_path: "k".to_string() },
        security: SecurityConfig { allowed_domains: vec![], max_request_size: 1 },
    };
    assert_eq!(reload_config(&mut g.config, Ok(replacement)), Ok(()));
    assert_eq!(respond(g.begin(&r, "after", JwtOutcome::Invalid, 1)).status, 404);
    let reply = g.complete(flight, answered(200, "served"), 2);
    assert_eq!(reply.status, 200);
    assert_eq!(reply.body, b"served".to_vec());
    assert_eq!(id_of(&reply), Some(&b"before".to_vec()));
    assert_eq!(g.cache.lookup("_test_cache", 5, 3).unwrap().body, b"served".to_vec());
}

#[test]
fn the_stages_run_in_their_order() {
    let mut g = gateway();
    let mut both = route("both");
    both.auth = Some(AuthConfig { auth_type: AuthType::ApiKey, roles: None });
    both.rate_limit = Some(RateLimitConfig { requests: 1, period: "1h".to_string() });
    both.cache = Some(CacheConfig { ttl: "1h".to_string() });
    both.circuit_breaker =
        Some(CircuitBreakerConfig { failure_threshold: 1, success_threshold: 1, open_duration: "1h".to_string() });
    g.config.routes.push(Arc::new(both));
    let anonymous = request("GET", "/test/both");
    let known = with_auth(request("GET", "/test/both"), "Bearer user-key-for-alice");
    assert_eq!(respond(g.begin(&anonymous, "1", JwtOutcome::Invalid, 0)).status, 401);
    assert_eq!(g.rate_limit_store.get_active_buckets_count(), 0);
    let flight = forward(g.begin(&known, "2", JwtOutcome::Invalid, 0));
    assert_eq!(g.complete(flight, answered(200, "cached"), 0).status, 200);
    assert_eq!(respond(g.begin(&known, "3", JwtOutcome::Invalid, 1)).status, 429);
    let mut elsewhere = known.clone();
    elsewhere.client = "10.1.1.1".to_string();
    let hit = respond(g.begin(&elsewhere, "4", JwtOutcome::Invalid, 2));
    assert_eq!(hit.status, 200);
    assert_eq!(hit.body, b"cached".to_vec());
    elsewhere.client = "10.1.1.2".to_string();
    elsewhere.uri = "/test/both?fail".to_string();
    let flight = forward(g.begin(&elsewhere, "5", JwtOutcome::Invalid, 3));
    assert_eq!(g.complete(flight, answered(500, "down"), 3).status, 500);
    elsewhere.client = "10.1.1.3".to_string();
    assert_eq!(respond(g.begin(&elsewhere, "6", JwtOutcome::Invalid, 4)).status, 503);
    elsewhere.client = "10.1.1.4".to_string();
    elsewhere.uri = "/test/both".to_string();
    assert_eq!(respond(g.begin(&elsewhere, "7", JwtOutcome::Invalid, 5)).body, b"cached".to_vec());
}

#[test]
fn a_refusal_names_its_error() {
    let mut g = gateway();
    let (e, reply) = refusal(g.begin(&request("GET", "/nowhere"), "1", JwtOutcome::Invalid, 0));
    assert_eq!(e, AppError::RouteNotFound);
    assert_eq!(reply.status, 404);
    let (e, _) = refusal(g.begin(&request("GET", "/test/jwt"), "2", JwtOutcome::Invalid, 0));
    assert_eq!(e, AppError::MissingAuthToken);
    let (e, reply) = refusal(g.begin(&request("GET", "/test/evil/x"), "3", JwtOutcome::Invalid, 0));
    assert_eq!(
        e,
        AppError::InvalidDestination(
            "Host '169.254.169.254' not in allowed domains: [\"localhost\", \"127.0.0.1\"]".to_string()
        )
    );
    assert_eq!(reply.status, 500);
    let (e, _) = refusal(g.begin(&request("GET", "/test/evil/x"), "4", JwtOutcome::Invalid, 1));
    assert_eq!(e, AppError::ServiceUnavailable);
    let mut big = request("POST", "/test/public");
    big.body_len = usize::MAX;
    let (e, reply) = refusal(g.begin(&big, "5", JwtOutcome::Invalid, 0));
    assert_eq!(e, AppError::RequestTooLarge);
    assert_eq!(reply.status, 413);
    let r = request("GET", "/test/ratelimit");
    for i in 0..3 {
        forward(g.begin(&r, "6", JwtOutcome::Invalid, i));
    }
    let (e, reply) = refusal(g.begin(&r, "7", JwtOutcome::Invalid, 3));
    assert_eq!(e, AppError::RateLimited);
    assert_eq!(id_of(&reply), Some(&b"7".to_vec()));
}

#[test]
fn a_cache_hit_is_an_answer_and_no_refusal() {
    let mut g = gateway();
    let r = request("GET", "/test/cache");
    let flight = forward(g.begin(&r, "1", JwtOutcome::Invalid, 0));
    g.complete(flight, answered(200, "kept"), 0);
    match g.begin(&r, "2", JwtOutcome::Invalid, 1) {
        Step::Respond(reply) => assert_eq!(reply.body, b"kept".to_vec()),
        other => panic!("{:?}", other),
    }
}

#[test]
fn a_new_gateway_has_empty_stores() {
    let mut g = gateway();
    assert_eq!(g.rate_limit_store.get_active_buckets_count(), 0);
    assert_eq!(g.circuit_breaker_store.get_active_circuits_count(), 0);
    assert!(g.cache.lookup("_test_cache", 5, 0).is_none());
    assert!(g.health.is_healthy("http://localhost:8000"));
    g.rate_limit_store.check_and_update(
        "fresh",
        1,
        rustway::rate_limiter::RefillRate { tokens: 1, per_seconds: 1 },
        3_600_000_000_000,
    );
    g.circuit_breaker_store.get_or_insert("fresh", 3_600_000_000_000);
    g.rate_limit_store.cleanup_expired_buckets(7_200_000_000_000);
    g.circuit_breaker_store.cleanup_expired_circuits(7_200_000_000_000);
    assert_eq!(g.rate_limit_store.get_active_buckets_count(), 1);
    assert_eq!(g.circuit_breaker_store.get_active_circuits_count(), 1);
    g.rate_limit_store.cleanup_expired_buckets(7_200_000_000_001);
    g.circuit_breaker_store.cleanup_expired_circuits(7_200_000_000_001);
    assert_eq!(g.rate_limit_store.get_active_buckets_count(), 0);
    assert_eq!(g.circuit_breaker_store.get_active_circuits_count(), 0);
}
