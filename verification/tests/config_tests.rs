use rustway::config::{
    default_allowed_domains, default_destination, default_health_interval, default_health_path,
    default_health_timeout, default_healthy_threshold, default_max_request_size,
    default_request_timeout, default_status, default_strategy, default_unhealthy_threshold,
    AuthConfig, AuthType, ConfigError, GatewayConfig, IdentityConfig, LoadBalancingConfig,
    MetricsConfig, ObservabilityConfig, RateLimitConfig, RouteConfig, SecurityConfig,
    ServerConfig,
};
use std::sync::Arc;

fn route(name: &str, path: &str, destination: &str) -> RouteConfig {
    RouteConfig {
        name: name.to_string(),
        path: path.to_string(),
        destinations: vec![],
        destination: destination.to_string(),
        auth: None,
        rate_limit: None,
        cache: None,
        circuit_breaker: None,
        load_balancing: LoadBalancingConfig { strategy: default_strategy(), enabled: false },
        health_check: None,
        transform: None,
        timeout: default_request_timeout(),
    }
}

fn config(routes: Vec<RouteConfig>) -> GatewayConfig {
    GatewayConfig {
        server: ServerConfig { addr: "0.0.0.0:3000".to_string() },
        routes: routes.into_iter().map(Arc::new).collect(),
        observability: ObservabilityConfig { metrics: MetricsConfig { enabled: false } },
        identity: IdentityConfig { api_key_store_path: "./api_keys.yaml".to_string() },
        security: SecurityConfig {
            allowed_domains: default_allowed_domains(),
            max_request_size: default_max_request_size(),
        },
    }
}

#[test]
fn defaults_have_their_values() {
    assert_eq!(default_allowed_domains(), vec!["localhost".to_string(), "127.0.0.1".to_string()]);
    assert_eq!(default_max_request_size(), 10 * 1024 * 1024);
    assert_eq!(default_destination(), "");
    assert_eq!(default_strategy(), "round_robin");
    assert_eq!(default_request_timeout(), "30s");
    assert_eq!(default_health_path(), "/health");
    assert_eq!(default_health_interval(), "30s");
    assert_eq!(default_health_timeout(), "5s");
    assert_eq!(default_unhealthy_threshold(), 3);
    assert_eq!(default_healthy_threshold(), 2);
    assert_eq!(default_status(), "active");
}

#[test]
fn accepts_a_well_formed_config() {
    let c = config(vec![route("a", "/a", "http://localhost:1"), route("b", "/b", "http://localhost:2")]);
    assert_eq!(c.validate(), Ok(()));
}

#[test]
fn rejects_an_empty_server_address() {
    let mut c = config(vec![route("a", "/a", "http://localhost:1")]);
    c.server.addr = String::new();
    assert_eq!(c.validate(), Err(ConfigError::EmptyServerAddress));
    assert_eq!(ConfigError::EmptyServerAddress.message(), "Server address cannot be empty");
}

#[test]
fn rejects_a_config_without_routes() {
    let c = config(vec![]);
    assert_eq!(c.validate(), Err(ConfigError::NoRoutes));
    assert_eq!(ConfigError::NoRoutes.message(), "At least one route must be configured");
}

#[test]
fn rejects_duplicate_names_and_paths() {
    let c = config(vec![route("a", "/a", "http://localhost:1"), route("a", "/b", "http://localhost:2")]);
    let e = c.validate().unwrap_err();
    assert_eq!(e, ConfigError::DuplicateRouteName("a".to_string()));
    assert_eq!(e.message(), "Duplicate route name: a");
    let c = config(vec![route("a", "/a", "http://localhost:1"), route("b", "/a", "http://localhost:2")]);
    let e = c.validate().unwrap_err();
    assert_eq!(e, ConfigError::DuplicateRoutePath("/a".to_string()));
    assert_eq!(e.message(), "Duplicate route path: /a");
}

#[test]
fn reports_a_duplicate_before_a_blank_name() {
    let c = config(vec![route(" ", "/a", "http://localhost:1"), route(" ", "/b", "http://localhost:2")]);
    assert_eq!(c.validate(), Err(ConfigError::EmptyRouteName));
    let c = config(vec![route("a", "/a", "http://localhost:1"), route("b", "/b", ""), route("a", "/c", "")]);
    assert_eq!(c.validate(), Err(ConfigError::MissingDestination("b".to_string())));
}

#[test]
fn rejects_blank_names_and_paths() {
    let c = config(vec![route("  ", "/a", "http://localhost:1")]);
    assert_eq!(c.validate(), Err(ConfigError::EmptyRouteName));
    assert_eq!(ConfigError::EmptyRouteName.message(), "Route name cannot be empty");
    let c = config(vec![route("a", "\t", "http://localhost:1")]);
    assert_eq!(c.validate(), Err(ConfigError::EmptyRoutePath));
    assert_eq!(ConfigError::EmptyRoutePath.message(), "Route path cannot be empty");
}

#[test]
fn rejects_a_route_without_destination() {
    let c = config(vec![route("a", "/a", "")]);
    let e = c.validate().unwrap_err();
    assert_eq!(e, ConfigError::MissingDestination("a".to_string()));
    assert_eq!(e.message(), "Route 'a' must have either destinations or destination");
    let mut r = route("a", "/a", "");
    r.destinations = vec!["http://localhost:1".to_string()];
    assert_eq!(config(vec![r]).validate(), Ok(()));
}

#[test]
fn rejects_empty_roles_and_zero_rate_limit() {
    let mut r = route("a", "/a", "http://localhost:1");
    r.auth = Some(AuthConfig { auth_type: AuthType::Jwt, roles: Some(vec![]) });
    let e = config(vec![r]).validate().unwrap_err();
    assert_eq!(e, ConfigError::EmptyRoles("a".to_string()));
    assert_eq!(e.message(), "Route 'a' has empty roles array");
    let mut r = route("a", "/a", "http://localhost:1");
    r.auth = Some(AuthConfig { auth_type: AuthType::ApiKey, roles: None });
    r.rate_limit = Some(RateLimitConfig { requests: 0, period: "1m".to_string() });
    let e = config(vec![r]).validate().unwrap_err();
    assert_eq!(e, ConfigError::InvalidRateLimit("a".to_string()));
    assert_eq!(e.message(), "Route 'a' has invalid rate limit requests: must be > 0");
}

#[test]
fn rejects_zero_request_size_and_blank_key_store_path() {
    let mut c = config(vec![route("a", "/a", "http://localhost:1")]);
    c.security.max_request_size = 0;
    assert_eq!(c.validate(), Err(ConfigError::ZeroMaxRequestSize));
    assert_eq!(ConfigError::ZeroMaxRequestSize.message(), "Max request size must be greater than 0");
    let mut c = config(vec![route("a", "/a", "http://localhost:1")]);
    c.identity.api_key_store_path = "  ".to_string();
    assert_eq!(c.validate(), Err(ConfigError::EmptyApiKeyStorePath));
    assert_eq!(ConfigError::EmptyApiKeyStorePath.message(), "API key store path cannot be empty");
}

#[test]
fn finds_the_longest_matching_prefix() {
    let c = config(vec![
        route("root", "/api", "http://localhost:1"),
        route("users", "/api/users", "http://localhost:2"),
        route("other", "/other", "http://localhost:3"),
    ]);
    assert_eq!(c.find_route_for_path("/api/users/7").unwrap().name, "users");
    assert_eq!(c.find_route_for_path("/api/orders").unwrap().name, "root");
    assert_eq!(c.find_route_for_path("/api").unwrap().name, "root");
    assert_eq!(c.find_route_for_path("/other/x").unwrap().name, "other");
    assert!(c.find_route_for_path("/nonexistent").is_none());
    assert!(c.find_route_for_path("/ap").is_none());
    assert!(c.find_route_for_path("").is_none());
}

#[test]
fn finds_the_later_of_two_equal_prefixes() {
    let c = config(vec![route("first", "/a", "http://localhost:1"), route("second", "/a", "http://localhost:2")]);
    assert_eq!(c.find_route_for_path("/a/b").unwrap().name, "second");
}

#[test]
fn matches_prefixes_by_characters() {
    let c = config(vec![route("a", "/caf\u{e9}", "http://localhost:1"), route("b", "/caf", "http://localhost:2")]);
    assert_eq!(c.find_route_for_path("/caf\u{e9}/x").unwrap().name, "a");
    assert_eq!(c.find_route_for_path("/cafe").unwrap().name, "b");
}
