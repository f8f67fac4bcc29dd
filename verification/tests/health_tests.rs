use rustway::config::{
    GatewayConfig, HealthCheckConfig, IdentityConfig, LoadBalancingConfig, MetricsConfig,
    ObservabilityConfig, RouteConfig, SecurityConfig, ServerConfig,
};
use rustway::health_check::{
    health_targets, health_url, probe_target, DestinationHealth, HealthCheckStore, HealthStatus,
    ProbeTarget,
};
use std::sync::Arc;

fn fresh() -> DestinationHealth {
    DestinationHealth { status: HealthStatus::Unknown, consecutive_failures: 0, consecutive_successes: 0 }
}

fn check(path: &str, interval: &str, timeout: &str) -> HealthCheckConfig {
    HealthCheckConfig {
        path: path.to_string(),
        interval: interval.to_string(),
        timeout: timeout.to_string(),
        unhealthy_threshold: 3,
        healthy_threshold: 2,
    }
}

fn route(name: &str, destinations: &[&str], destination: &str, health: Option<HealthCheckConfig>) -> Arc<RouteConfig> {
    Arc::new(RouteConfig {
        name: name.to_string(),
        path: format!("/{}", name),
        destinations: destinations.iter().map(|d| d.to_string()).collect(),
        destination: destination.to_string(),
        auth: None,
        rate_limit: None,
        cache: None,
        circuit_breaker: None,
        load_balancing: LoadBalancingConfig { strategy: "round_robin".to_string(), enabled: false },
        health_check: health,
        transform: None,
        timeout: "30s".to_string(),
    })
}

fn target(destination: &str) -> ProbeTarget {
    probe_target(destination, &check("/health", "30s", "5s"))
}

#[test]
fn successes_make_healthy_at_the_threshold() {
    let h = fresh().succeed(2);
    assert_eq!(h, DestinationHealth { status: HealthStatus::Unknown, consecutive_failures: 0, consecutive_successes: 1 });
    let h = h.succeed(2);
    assert_eq!(h, DestinationHealth { status: HealthStatus::Healthy, consecutive_failures: 0, consecutive_successes: 2 });
    assert_eq!(fresh().succeed(1).status, HealthStatus::Healthy);
}

#[test]
fn failures_make_unhealthy_at_the_threshold() {
    let h = fresh().fail(3).fail(3);
    assert_eq!(h, DestinationHealth { status: HealthStatus::Unknown, consecutive_failures: 2, consecutive_successes: 0 });
    let h = h.fail(3);
    assert_eq!(h, DestinationHealth { status: HealthStatus::Unhealthy, consecutive_failures: 3, consecutive_successes: 0 });
    let h = h.succeed(2);
    assert_eq!(h, DestinationHealth { status: HealthStatus::Unhealthy, consecutive_failures: 0, consecutive_successes: 1 });
    assert_eq!(h.succeed(2).status, HealthStatus::Healthy);
}

#[test]
fn counters_stop_at_their_limit() {
    let full = DestinationHealth { status: HealthStatus::Healthy, consecutive_failures: u32::MAX, consecutive_successes: u32::MAX };
    assert_eq!(full.succeed(2).consecutive_successes, u32::MAX);
    assert_eq!(full.fail(2).consecutive_failures, u32::MAX);
}

#[test]
fn an_unprobed_destination_is_used() {
    let mut store = HealthCheckStore::new();
    assert!(store.is_healthy("http://a"));
    store.record_failure("http://a", 2);
    assert!(store.is_healthy("http://a"));
    store.record_failure("http://a", 2);
    assert!(!store.is_healthy("http://a"));
    assert!(store.is_healthy("http://b"));
    store.record_success("http://a", 2);
    assert!(!store.is_healthy("http://a"));
    store.record_success("http://a", 2);
    assert!(store.is_healthy("http://a"));
}

#[test]
fn anything_but_a_success_status_is_a_failed_probe() {
    let mut store = HealthCheckStore::new();
    let mut t = target("http://a");
    t.unhealthy_threshold = 3;
    store.record_probe(&t, None);
    store.record_probe(&t, Some(500));
    assert!(store.is_healthy("http://a"));
    store.record_probe(&t, Some(404));
    assert!(!store.is_healthy("http://a"));
    store.record_probe(&t, Some(200));
    store.record_probe(&t, Some(299));
    assert!(store.is_healthy("http://a"));
    store.record_probe(&t, Some(300));
    store.record_probe(&t, Some(199));
    store.record_probe(&t, None);
    assert!(!store.is_healthy("http://a"));
}

#[test]
fn the_probe_goes_to_the_destination_and_the_health_path() {
    assert_eq!(health_url("http://localhost:8000", "/health"), "http://localhost:8000/health");
    assert_eq!(health_url("http://localhost:8000/", "/health"), "http://localhost:8000/health");
    assert_eq!(health_url("http://localhost:8000///", "/ok"), "http://localhost:8000/ok");
    assert_eq!(health_url("///", "/ok"), "/ok");
    assert_eq!(health_url("", ""), "");
}

#[test]
fn times_that_cannot_be_read_take_their_defaults() {
    let t = probe_target("http://a/", &check("/h", "10s", "2s"));
    assert_eq!(
        t,
        ProbeTarget {
            destination: "http://a/".to_string(),
            url: "http://a/h".to_string(),
            interval_seconds: 10,
            timeout_seconds: 2,
            unhealthy_threshold: 3,
            healthy_threshold: 2,
        }
    );
    let t = probe_target("http://a", &check("/h", "", "fast"));
    assert_eq!(t.interval_seconds, 30);
    assert_eq!(t.timeout_seconds, 5);
}

#[test]
fn every_destination_of_a_route_with_a_health_policy_is_probed() {
    let config = GatewayConfig {
        server: ServerConfig { addr: "0.0.0.0:1".to_string() },
        routes: vec![
            route("a", &["http://a1", "http://a2/"], "http://ignored", Some(check("/health", "30s", "5s"))),
            route("b", &["http://b1"], "", None),
            route("c", &[], "http://c1", Some(check("/up", "1m", "1s"))),
            route("d", &[], "", Some(check("/up", "1m", "1s"))),
        ],
        observability: ObservabilityConfig { metrics: MetricsConfig { enabled: false } },
        identity: IdentityConfig { api_key_store_path: "k".to_string() },
        security: SecurityConfig { allowed_domains: vec![], max_request_size: 1 },
    };
    let targets = health_targets(&config);
    let urls: Vec<&str> = targets.iter().map(|t| t.url.as_str()).collect();
    assert_eq!(urls, vec!["http://a1/health", "http://a2/health", "http://c1/up"]);
    assert_eq!(targets[1].destination, "http://a2/");
    assert_eq!(targets[2].interval_seconds, 60);
    assert_eq!(targets[2].timeout_seconds, 1);
}
