use rustway::config::{LoadBalancingConfig, RouteConfig, SecurityConfig};
use rustway::errors::AppError;
use rustway::health_check::HealthCheckStore;
use rustway::message::Header;
use rustway::foreign::UrlParts;
use rustway::proxy::{
    check_url_parts, error_response, filter_safe_headers, header_is_safe, host_is_allowed,
    plan_forward, select_destination, strip_route_prefix, upstream_response,
    validate_destination_url,
};

fn route(destinations: &[&str], destination: &str) -> RouteConfig {
    RouteConfig {
        name: "r".to_string(),
        path: "/api".to_string(),
        destinations: destinations.iter().map(|d| d.to_string()).collect(),
        destination: destination.to_string(),
        auth: None,
        rate_limit: None,
        cache: None,
        circuit_breaker: None,
        load_balancing: LoadBalancingConfig { strategy: "round_robin".to_string(), enabled: true },
        health_check: None,
        transform: None,
        timeout: "10s".to_string(),
    }
}

fn allowed() -> Vec<String> {
    vec!["localhost".to_string(), "127.0.0.1".to_string(), "example.com".to_string()]
}

fn security(max: usize) -> SecurityConfig {
    SecurityConfig { allowed_domains: allowed(), max_request_size: max }
}

fn header(name: &str, value: &str) -> Header {
    Header { name: name.to_string(), value: value.as_bytes().to_vec() }
}

fn unhealthy(store: &mut HealthCheckStore, destination: &str) {
    store.record_failure(destination, 1);
}

#[test]
fn the_single_destination_is_used_whatever_its_health() {
    let mut health = HealthCheckStore::new();
    unhealthy(&mut health, "http://old");
    unhealthy(&mut health, "http://only");
    assert_eq!(select_destination(&route(&[], "http://old"), "id", &health), Ok("http://old".to_string()));
    assert_eq!(select_destination(&route(&["http://only"], ""), "id", &health), Ok("http://only".to_string()));
    assert_eq!(
        select_destination(&route(&["http://only"], "http://old"), "id", &health),
        Ok("http://only".to_string())
    );
}

#[test]
fn no_destination_at_all_is_a_fault_of_the_configuration() {
    let health = HealthCheckStore::new();
    let e = select_destination(&route(&[], ""), "id", &health).unwrap_err();
    assert_eq!(e, AppError::InvalidDestination("No destinations configured".to_string()));
    assert_eq!(e.status_code(), 500);
}

#[test]
fn the_hash_of_the_id_picks_the_destination() {
    let health = HealthCheckStore::new();
    let r = route(&["http://d0", "http://d1", "http://d2"], "");
    assert_eq!(select_destination(&r, "", &health), Ok("http://d0".to_string()));
    assert_eq!(select_destination(&r, "a", &health), Ok("http://d1".to_string()));
    assert_eq!(select_destination(&r, "b", &health), Ok("http://d2".to_string()));
    assert_eq!(select_destination(&r, "c", &health), Ok("http://d0".to_string()));
    assert_eq!(select_destination(&r, "ab", &health), Ok("http://d0".to_string()));
    assert_eq!(select_destination(&r, "ba", &health), Ok("http://d0".to_string()));
    assert_eq!(select_destination(&r, "\u{e9}", &health), Ok("http://d2".to_string()));
}

#[test]
fn unhealthy_destinations_are_left_out() {
    let mut health = HealthCheckStore::new();
    let r = route(&["http://d0", "http://d1", "http://d2"], "");
    unhealthy(&mut health, "http://d1");
    assert_eq!(select_destination(&r, "", &health), Ok("http://d0".to_string()));
    assert_eq!(select_destination(&r, "a", &health), Ok("http://d2".to_string()));
    assert_eq!(select_destination(&r, "b", &health), Ok("http://d0".to_string()));
    unhealthy(&mut health, "http://d0");
    assert_eq!(select_destination(&r, "b", &health), Ok("http://d2".to_string()));
    unhealthy(&mut health, "http://d2");
    let e = select_destination(&r, "b", &health).unwrap_err();
    assert_eq!(e, AppError::ServiceUnavailable);
    assert_eq!(e.status_code(), 503);
}

#[test]
fn only_the_listed_headers_are_passed_on() {
    for name in [
        "content-type", "content-length", "accept", "accept-encoding", "user-agent", "host",
        "connection", "cache-control", "Content-Type", "USER-AGENT",
    ] {
        assert!(header_is_safe(name), "{}", name);
    }
    for name in ["authorization", "cookie", "x-forwarded-host", "x-original-url", "x-request-id", "", "accept "] {
        assert!(!header_is_safe(name), "{}", name);
    }
    let headers = vec![
        header("accept", "*/*"),
        header("X-Forwarded-Host", "evil.com"),
        header("Host", "gateway"),
        header("x-rewrite-url", "/admin"),
        header("accept", "text/html"),
    ];
    assert_eq!(
        filter_safe_headers(&headers),
        vec![header("accept", "*/*"), header("Host", "gateway"), header("accept", "text/html")]
    );
    assert_eq!(filter_safe_headers(&vec![]), vec![]);
}

#[test]
fn the_host_must_be_allowed_or_a_subdomain() {
    assert_eq!(validate_destination_url("http://localhost:8000/x", &allowed()), Ok(()));
    assert_eq!(validate_destination_url("https://127.0.0.1/", &allowed()), Ok(()));
    assert_eq!(validate_destination_url("http://api.example.com/v1", &allowed()), Ok(()));
    assert_eq!(validate_destination_url("http://a.b.example.com", &allowed()), Ok(()));
    assert_eq!(validate_destination_url("HTTP://LOCALHOST/", &allowed()), Ok(()));
    assert_eq!(validate_destination_url("http://user:pw@localhost/", &allowed()), Ok(()));
    assert!(validate_destination_url("http://notexample.com/", &allowed()).is_err());
    assert!(validate_destination_url("http://example.com.evil.org/", &allowed()).is_err());
    assert!(validate_destination_url("http://localhost.evil.org/", &allowed()).is_err());
    assert!(validate_destination_url("http://localhost/", &[]).is_err());
}

#[test]
fn ssrf_scenario_metadata_address_is_rejected() {
    let only_local = vec!["localhost".to_string(), "127.0.0.1".to_string()];
    let e = validate_destination_url("http://169.254.169.254/", &only_local).unwrap_err();
    assert_eq!(
        e,
        AppError::InvalidDestination(
            "Host '169.254.169.254' not in allowed domains: [\"localhost\", \"127.0.0.1\"]".to_string()
        )
    );
    assert_eq!(e.status_code(), 500);
    assert_eq!(e.response_message(), "Invalid gateway configuration");
}

#[test]
fn each_fault_of_a_destination_has_its_words() {
    assert_eq!(
        validate_destination_url("not a url", &allowed()).unwrap_err(),
        AppError::InvalidDestination("Invalid URL format: not a url".to_string())
    );
    assert_eq!(
        validate_destination_url("/relative/path", &allowed()).unwrap_err(),
        AppError::InvalidDestination("Invalid URL format: /relative/path".to_string())
    );
    assert_eq!(
        validate_destination_url("ftp://localhost/x", &allowed()).unwrap_err(),
        AppError::InvalidDestination("Only HTTP and HTTPS protocols allowed, got: ftp".to_string())
    );
    assert_eq!(
        validate_destination_url("file:///etc/passwd", &allowed()).unwrap_err(),
        AppError::InvalidDestination("Only HTTP and HTTPS protocols allowed, got: file".to_string())
    );
    assert_eq!(
        validate_destination_url("http://evil.org/", &[]).unwrap_err(),
        AppError::InvalidDestination("Host 'evil.org' not in allowed domains: []".to_string())
    );
    assert_eq!(
        validate_destination_url("http://evil.org/", &["a".to_string()]).unwrap_err(),
        AppError::InvalidDestination("Host 'evil.org' not in allowed domains: [\"a\"]".to_string())
    );
}

#[test]
fn the_rest_of_the_path_follows_the_destination() {
    assert_eq!(strip_route_prefix("/api/users/7", "/api"), "/users/7");
    assert_eq!(strip_route_prefix("/api", "/api"), "");
    assert_eq!(strip_route_prefix("/other", "/api"), "");
    assert_eq!(strip_route_prefix("/caf\u{e9}/x", "/caf\u{e9}"), "/x");
    assert_eq!(strip_route_prefix("/x", ""), "/x");
}

#[test]
fn a_plan_names_url_headers_and_timeout() {
    let health = HealthCheckStore::new();
    let headers = vec![header("Accept", "*/*"), header("authorization", "Bearer t"), header("x-request-id", "old")];
    let plan = plan_forward(
        &route(&[], "http://localhost:8000"),
        "/api/users/7",
        "req-1",
        &headers,
        10,
        &security(10),
        &health,
    )
    .unwrap();
    assert_eq!(plan.url, "http://localhost:8000/users/7");
    assert_eq!(plan.headers, vec![header("Accept", "*/*"), header("x-request-id", "req-1")]);
    assert_eq!(plan.timeout_seconds, 10);
    let mut r = route(&[], "http://localhost:8000");
    r.timeout = "soon".to_string();
    assert_eq!(plan_forward(&r, "/api", "i", &vec![], 0, &security(10), &health).unwrap().timeout_seconds, 30);
}

#[test]
fn oversize_scenario_large_body_is_refused() {
    let health = HealthCheckStore::new();
    let limit = 10 * 1024 * 1024;
    let e = plan_forward(
        &route(&[], "http://localhost:8000"),
        "/api/x",
        "id",
        &vec![],
        11 * 1024 * 1024,
        &security(limit),
        &health,
    )
    .unwrap_err();
    assert_eq!(e, AppError::RequestTooLarge);
    assert_eq!(e.status_code(), 413);
    assert!(plan_forward(&route(&[], "http://localhost:8000"), "/api/x", "id", &vec![], limit, &security(limit), &health).is_ok());
    assert!(plan_forward(&route(&[], "http://localhost:8000"), "/api/x", "id", &vec![], limit + 1, &security(limit), &health).is_err());
}

#[test]
fn the_destination_is_checked_before_the_size() {
    let health = HealthCheckStore::new();
    let e = plan_forward(&route(&[], "http://169.254.169.254"), "/api/x", "id", &vec![], 99, &security(10), &health)
        .unwrap_err();
    assert!(matches!(e, AppError::InvalidDestination(_)));
    let e = plan_forward(&route(&[], ""), "/api/x", "id", &vec![], 99, &security(10), &health).unwrap_err();
    assert_eq!(e, AppError::InvalidDestination("No destinations configured".to_string()));
}

#[test]
fn the_path_cannot_change_the_host() {
    let health = HealthCheckStore::new();
    let r = route(&[], "http://localhost");
    let e = plan_forward(&r, "/api.evil.org/x", "id", &vec![], 0, &security(10), &health).unwrap_err();
    assert_eq!(
        e,
        AppError::InvalidDestination(
            "Host 'localhost.evil.org' not in allowed domains: [\"localhost\", \"127.0.0.1\", \"example.com\"]"
                .to_string()
        )
    );
    let e = plan_forward(&r, "/api@evil.org/x", "id", &vec![], 0, &security(10), &health).unwrap_err();
    assert!(matches!(e, AppError::InvalidDestination(_)));
}

#[test]
fn the_upstreams_answer_is_passed_on_with_the_request_id() {
    let r = upstream_response(201, &vec![header("content-type", "text/plain"), header("X-Request-Id", "theirs")], vec![1, 2], "mine");
    assert_eq!(r.status, 201);
    assert_eq!(r.headers, vec![header("content-type", "text/plain"), header("x-request-id", "mine")]);
    assert_eq!(r.body, vec![1, 2]);
}

#[test]
fn an_error_is_answered_with_its_status_and_text() {
    let r = error_response(&AppError::RouteNotFound, "id-7");
    assert_eq!(r.status, 404);
    assert_eq!(r.headers, vec![header("x-request-id", "id-7")]);
    assert_eq!(r.body, b"Route not found".to_vec());
    let r = error_response(&AppError::ProxyError("connection refused".to_string()), "id-8");
    assert_eq!(r.status, 502);
    assert_eq!(r.body, b"Error proxying request".to_vec());
}

fn parts(scheme: &str, host: Option<&str>) -> Option<UrlParts> {
    Some(UrlParts { scheme: scheme.to_string(), host: host.map(|h| h.to_string()) })
}

#[test]
fn a_host_is_allowed_as_it_is_or_as_a_subdomain() {
    assert!(host_is_allowed("localhost", &allowed()));
    assert!(host_is_allowed("a.example.com", &allowed()));
    assert!(host_is_allowed(".example.com", &allowed()));
    assert!(!host_is_allowed("example.com.", &allowed()));
    assert!(!host_is_allowed("xexample.com", &allowed()));
    assert!(!host_is_allowed("LOCALHOST", &allowed()));
    assert!(!host_is_allowed("", &allowed()));
    assert!(!host_is_allowed("localhost", &[]));
    assert!(host_is_allowed("", &["".to_string()]));
    assert!(host_is_allowed("a.", &["".to_string()]));
}

#[test]
fn a_url_is_judged_by_its_parts() {
    let local = vec!["localhost".to_string(), "127.0.0.1".to_string()];
    assert_eq!(check_url_parts("u", &parts("http", Some("localhost")), &local), Ok(()));
    assert_eq!(check_url_parts("u", &parts("https", Some("api.localhost")), &local), Ok(()));
    assert_eq!(
        check_url_parts("http://169.254.169.254/", &parts("http", Some("169.254.169.254")), &local),
        Err(AppError::InvalidDestination(
            "Host '169.254.169.254' not in allowed domains: [\"localhost\", \"127.0.0.1\"]".to_string()
        ))
    );
    assert_eq!(
        check_url_parts("the text", &None, &local),
        Err(AppError::InvalidDestination("Invalid URL format: the text".to_string()))
    );
    assert_eq!(
        check_url_parts("u", &parts("gopher", Some("localhost")), &local),
        Err(AppError::InvalidDestination("Only HTTP and HTTPS protocols allowed, got: gopher".to_string()))
    );
    assert_eq!(
        check_url_parts("u", &parts("HTTP", Some("localhost")), &local),
        Err(AppError::InvalidDestination("Only HTTP and HTTPS protocols allowed, got: HTTP".to_string()))
    );
    assert_eq!(
        check_url_parts("http:x", &parts("http", None), &local),
        Err(AppError::InvalidDestination("URL missing host: http:x".to_string()))
    );
    assert_eq!(
        check_url_parts("u", &parts("ftp", None), &local),
        Err(AppError::InvalidDestination("Only HTTP and HTTPS protocols allowed, got: ftp".to_string()))
    );
}
