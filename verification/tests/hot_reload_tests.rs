use rustway::config::{
    ApiKeyDetails, ApiKeyStore, GatewayConfig, IdentityConfig, LoadBalancingConfig, MetricsConfig,
    ObservabilityConfig, RouteConfig, SecurityConfig, ServerConfig,
};
use rustway::errors::AppError;
use rustway::hot_reload::{
    after_failed_attempt, check_resolved_path, plan_reload, reload_api_keys, reload_config,
    watch_failure, Debouncer, EventKind, FileEvent, HotReloadError, ReloadPlan, RetryDecision,
    DEBOUNCE_NANOS,
};
use std::sync::Arc;

fn event(kind: EventKind, paths: &[&str]) -> FileEvent {
    FileEvent { kind, paths: paths.iter().map(|p| p.to_string()).collect() }
}

fn config(addr: &str, route_names: &[&str]) -> GatewayConfig {
    GatewayConfig {
        server: ServerConfig { addr: addr.to_string() },
        routes: route_names
            .iter()
            .map(|n| {
                Arc::new(RouteConfig {
                    name: n.to_string(),
                    path: format!("/{}", n),
                    destinations: vec![],
                    destination: "http://localhost:1".to_string(),
                    auth: None,
                    rate_limit: None,
                    cache: None,
                    circuit_breaker: None,
                    load_balancing: LoadBalancingConfig { strategy: "round_robin".to_string(), enabled: false },
                    health_check: None,
                    transform: None,
                    timeout: "30s".to_string(),
                })
            })
            .collect(),
        observability: ObservabilityConfig { metrics: MetricsConfig { enabled: false } },
        identity: IdentityConfig { api_key_store_path: "./api_keys.yaml".to_string() },
        security: SecurityConfig { allowed_domains: vec!["localhost".to_string()], max_request_size: 1024 },
    }
}

#[test]
fn hot_reload_test_hot_reload_error_creation() {
    let path_error = HotReloadError::PathResolution("test error".to_string());
    assert!(path_error.message().contains("Path resolution failed"));
    let file_error = HotReloadError::FileNotFound("/test/path".to_string());
    assert!(file_error.message().contains("File not found"));
    let watcher_error = HotReloadError::WatcherCreation("watcher failed".to_string());
    assert!(watcher_error.message().contains("Watcher creation failed"));
    let config_error = HotReloadError::ConfigReload("config failed".to_string());
    assert!(config_error.message().contains("Config reload failed"));
}

#[test]
fn hot_reload_test_app_error_from_hot_reload_error() {
    let hot_reload_error = HotReloadError::PathResolution("test error".to_string());
    let app_error: AppError = hot_reload_error.into_app_error();
    assert_eq!(app_error.message(), "Hot reload error: Path resolution failed: test error");
}

#[test]
fn hot_reload_test_resolve_and_verify_path() {
    let result = check_resolved_path("/tmp/file", Ok("/tmp/file".to_string()), true, true);
    assert!(result.is_ok());
    let result = check_resolved_path("/non/existent/file", Err("No such file or directory".to_string()), false, false);
    assert!(result.is_err());
    let error_msg = result.unwrap_err().message();
    assert!(
        error_msg.contains("Path resolution failed") || error_msg.contains("File not found"),
        "Expected path resolution or file not found error, got: {}",
        error_msg
    );
}

#[test]
fn each_reload_error_has_its_words() {
    assert_eq!(HotReloadError::PathResolution("x".to_string()).message(), "Path resolution failed: x");
    assert_eq!(HotReloadError::FileNotFound("/p".to_string()).message(), "File not found: /p");
    assert_eq!(HotReloadError::WatcherCreation("x".to_string()).message(), "Watcher creation failed: x");
    assert_eq!(HotReloadError::FileWatching("x".to_string()).message(), "File watching failed: x");
    assert_eq!(HotReloadError::ConfigReload("x".to_string()).message(), "Config reload failed: x");
    let e = HotReloadError::ConfigReload("x".to_string()).into_app_error();
    assert_eq!(e, AppError::HotReloadError("Config reload failed: x".to_string()));
    assert_eq!(e.status_code(), 500);
}

#[test]
fn a_path_is_judged_by_what_the_file_system_says() {
    assert_eq!(check_resolved_path("a", Ok("/abs/a".to_string()), true, true), Ok("/abs/a".to_string()));
    assert_eq!(
        check_resolved_path("a", Ok("/abs/a".to_string()), false, false),
        Err(HotReloadError::FileNotFound("/abs/a".to_string()))
    );
    assert_eq!(
        check_resolved_path("a", Ok("/abs/a".to_string()), true, false),
        Err(HotReloadError::FileNotFound("/abs/a".to_string()))
    );
    assert_eq!(
        check_resolved_path("a b", Err("denied".to_string()), true, true),
        Err(HotReloadError::PathResolution("Failed to resolve path \"a b\": denied".to_string()))
    );
}

#[test]
fn changes_that_follow_closely_are_held_back() {
    let mut d = Debouncer::new(1000);
    let e1 = event(EventKind::Modify, &["/c"]);
    let e2 = event(EventKind::Create, &["/k"]);
    let e3 = event(EventKind::Modify, &["/c", "/k"]);
    assert_eq!(d.on_event(e1.clone(), 1000 + DEBOUNCE_NANOS - 1), vec![]);
    assert_eq!(d.pending, Some(e1.clone()));
    assert_eq!(d.last_event_time, 1000);
    assert_eq!(d.on_event(e2.clone(), 1000 + DEBOUNCE_NANOS - 1), vec![]);
    assert_eq!(d.pending, Some(e2.clone()));
    assert_eq!(d.on_event(e3.clone(), 1000 + DEBOUNCE_NANOS), vec![e2, e3.clone()]);
    assert_eq!(d.pending, None);
    assert_eq!(d.last_event_time, 1000 + DEBOUNCE_NANOS);
    assert_eq!(d.on_event(e1.clone(), 1000 + 2 * DEBOUNCE_NANOS), vec![e1]);
    assert_eq!(d.last_event_time, 1000 + 2 * DEBOUNCE_NANOS);
}

#[test]
fn events_that_are_no_change_are_dropped() {
    let mut d = Debouncer::new(0);
    let before = d.clone();
    assert_eq!(d.on_event(event(EventKind::Other, &["/c"]), 5 * DEBOUNCE_NANOS), vec![]);
    assert_eq!(d, before);
}

#[test]
fn an_event_names_the_files_to_read_again() {
    let e = event(EventKind::Modify, &["/etc/gateway.yaml", "/tmp/x"]);
    assert_eq!(
        plan_reload(&e, "/etc/gateway.yaml", "/etc/api_keys.yaml"),
        ReloadPlan { gateway_config: true, api_keys: false }
    );
    let e = event(EventKind::Modify, &["/etc/api_keys.yaml", "/etc/gateway.yaml"]);
    assert_eq!(
        plan_reload(&e, "/etc/gateway.yaml", "/etc/api_keys.yaml"),
        ReloadPlan { gateway_config: true, api_keys: true }
    );
    let e = event(EventKind::Modify, &[]);
    assert_eq!(
        plan_reload(&e, "/etc/gateway.yaml", "/etc/api_keys.yaml"),
        ReloadPlan { gateway_config: false, api_keys: false }
    );
}

#[test]
fn a_valid_configuration_replaces_the_current_one() {
    let mut current = config("0.0.0.0:1", &["a"]);
    assert_eq!(reload_config(&mut current, Ok(config("0.0.0.0:2", &["b", "c"]))), Ok(()));
    assert_eq!(current.server.addr, "0.0.0.0:2");
    assert_eq!(current.routes.len(), 2);
    assert!(current.find_route_for_path("/a").is_none());
    assert!(current.find_route_for_path("/c").is_some());
}

#[test]
fn a_faulty_configuration_leaves_the_current_one_in_place() {
    let mut current = config("0.0.0.0:1", &["a"]);
    let e = reload_config(&mut current, Ok(config("0.0.0.0:2", &["b", "b"]))).unwrap_err();
    assert_eq!(
        e,
        HotReloadError::ConfigReload("Failed to parse gateway_config.yaml: Duplicate route name: b".to_string())
    );
    assert_eq!(current.server.addr, "0.0.0.0:1");
    assert!(current.find_route_for_path("/a").is_some());
    let e = reload_config(&mut current, Ok(config("", &["b"]))).unwrap_err();
    assert_eq!(
        e.message(),
        "Config reload failed: Failed to parse gateway_config.yaml: Server address cannot be empty"
    );
    let e = reload_config(&mut current, Err("expected a mapping at line 3".to_string())).unwrap_err();
    assert_eq!(
        e,
        HotReloadError::ConfigReload("Failed to parse gateway_config.yaml: expected a mapping at line 3".to_string())
    );
    assert_eq!(current.server.addr, "0.0.0.0:1");
    assert_eq!(current.validate(), Ok(()));
}

#[test]
fn keys_that_were_read_replace_the_current_ones() {
    let mut current = ApiKeyStore::new();
    current.insert("old".to_string(), ApiKeyDetails { user_id: "o".to_string(), roles: vec![], status: "active".to_string() });
    let e = reload_api_keys(&mut current, Err("bad".to_string())).unwrap_err();
    assert_eq!(e, HotReloadError::ConfigReload("Failed to parse api_keys.yaml: bad".to_string()));
    assert!(current.get("old").is_some());
    let mut loaded = ApiKeyStore::new();
    loaded.insert("new".to_string(), ApiKeyDetails { user_id: "n".to_string(), roles: vec![], status: "active".to_string() });
    assert_eq!(reload_api_keys(&mut current, Ok(loaded)), Ok(()));
    assert!(current.get("old").is_none());
    assert_eq!(current.get("new").unwrap().user_id, "n");
}

#[test]
fn the_watcher_is_tried_three_times() {
    assert_eq!(after_failed_attempt(1, "busy"), RetryDecision::RetryAfter(1_000_000_000));
    assert_eq!(after_failed_attempt(2, "busy"), RetryDecision::RetryAfter(1_000_000_000));
    assert_eq!(
        after_failed_attempt(3, "busy"),
        RetryDecision::GiveUp(HotReloadError::WatcherCreation("Failed to create watcher after 3 attempts: busy".to_string()))
    );
    assert!(matches!(after_failed_attempt(4, "busy"), RetryDecision::GiveUp(_)));
    assert_eq!(after_failed_attempt(0, "busy"), RetryDecision::RetryAfter(1_000_000_000));
}

#[test]
fn a_file_that_cannot_be_watched_has_its_words() {
    assert_eq!(
        watch_failure("gateway config", "no space"),
        HotReloadError::FileWatching("Failed to watch gateway config file: no space".to_string())
    );
}

#[test]
fn the_last_change_of_a_burst_is_released_once_it_has_settled() {
    let mut d = Debouncer::new(1000);
    let e1 = event(EventKind::Modify, &["/c"]);
    let e2 = event(EventKind::Modify, &["/c", "/k"]);
    assert_eq!(d.release(1000 + DEBOUNCE_NANOS), None);
    assert_eq!(d.last_event_time, 1000);
    assert_eq!(d.on_event(e1, 1010), vec![]);
    assert_eq!(d.on_event(e2.clone(), 1020), vec![]);
    let held = d.clone();
    assert_eq!(d.release(1000 + DEBOUNCE_NANOS - 1), None);
    assert_eq!(d, held);
    assert_eq!(d.release(500), None);
    assert_eq!(d, held);
    assert_eq!(d.release(1000 + DEBOUNCE_NANOS), Some(e2));
    assert_eq!(d.pending, None);
    assert_eq!(d.last_event_time, 1000 + DEBOUNCE_NANOS);
    assert_eq!(d.release(1000 + 5 * DEBOUNCE_NANOS), None);
    assert_eq!(d.last_event_time, 1000 + DEBOUNCE_NANOS);
}
