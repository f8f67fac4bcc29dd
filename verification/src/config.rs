//! The declarative configuration of the gateway: its routes and their
//! policies, the rules a configuration has to meet, and route resolution.

use std::sync::Arc;
use vstd::hash_map::StringHashMap;
use vstd::prelude::*;
use vstd::string::StringExecFns;
use crate::constants::DEFAULT_MAX_BODY_SIZE;
use crate::text::{chars_of, joined, is_blank, is_prefix, owned, starts_with, str_is_blank};

verus! {

/// Another pointer to the same route: `Arc::clone` of the standard library,
/// which copies the pointer and leaves the value it points to alone.
#[verifier::external_body]
pub(crate) fn share(route: &Arc<RouteConfig>) -> (r: Arc<RouteConfig>)
    ensures
        r == *route,
{
    Arc::clone(route)
}

/// Where the gateway listens.
#[derive(Debug, Clone)]
pub struct ServerConfig {
    pub addr: String,
}

/// Where the API keys are kept.
#[derive(Debug, Clone)]
pub struct IdentityConfig {
    pub api_key_store_path: String,
}

/// What the gateway may connect to and accept.
#[derive(Debug, Clone)]
pub struct SecurityConfig {
    /// Hosts that a destination may name, each with its subdomains.
    pub allowed_domains: Vec<String>,
    /// Largest request body accepted, in bytes.
    pub max_request_size: usize,
}

#[derive(Debug, Clone)]
pub struct LoadBalancingConfig {
    pub strategy: String,
    pub enabled: bool,
}

/// How a route's credential is checked.
#[derive(Debug, Clone, Copy, PartialEq, Eq, Structural)]
pub enum AuthType {
    Jwt,
    ApiKey,
}

#[derive(Debug, Clone)]
pub struct AuthConfig {
    pub auth_type: AuthType,
    /// Roles that the principal must all have, if any are named.
    pub roles: Option<Vec<String>>,
}

/// `requests` per `period`, the period written as a time span.
#[derive(Debug, Clone)]
pub struct RateLimitConfig {
    pub requests: u64,
    pub period: String,
}

#[derive(Debug, Clone)]
pub struct CacheConfig {
    /// How long a response may be served from the cache, as a time span.
    pub ttl: String,
}

#[derive(Debug, Clone)]
pub struct CircuitBreakerConfig {
    pub failure_threshold: u32,
    pub success_threshold: u32,
    /// How long the circuit stays open, as a time span.
    pub open_duration: String,
}

#[derive(Debug, Clone)]
pub struct HealthCheckConfig {
    pub path: String,
    pub interval: String,
    pub timeout: String,
    pub unhealthy_threshold: u32,
    pub healthy_threshold: u32,
}

/// Headers to set and headers to drop.
#[derive(Debug, Clone)]
pub struct HeaderRules {
    pub add: Vec<(String, String)>,
    pub remove: Vec<String>,
}

#[derive(Debug, Clone)]
pub struct TransformConfig {
    pub request_headers: HeaderRules,
    pub response_headers: HeaderRules,
}

/// One route: a path prefix, where its requests go, and the policies on them.
#[derive(Debug, Clone)]
pub struct RouteConfig {
    pub name: String,
    pub path: String,
    pub destinations: Vec<String>,
    /// The single destination of older configurations; used where
    /// `destinations` is empty.
    pub destination: String,
    pub auth: Option<AuthConfig>,
    pub rate_limit: Option<RateLimitConfig>,
    pub cache: Option<CacheConfig>,
    pub circuit_breaker: Option<CircuitBreakerConfig>,
    pub load_balancing: LoadBalancingConfig,
    pub health_check: Option<HealthCheckConfig>,
    pub transform: Option<TransformConfig>,
    /// Longest wait for the upstream, as a time span.
    pub timeout: String,
}

#[derive(Debug, Clone)]
pub struct MetricsConfig {
    pub enabled: bool,
}

#[derive(Debug, Clone)]
pub struct ObservabilityConfig {
    pub metrics: MetricsConfig,
}

#[derive(Debug, Clone)]
pub struct GatewayConfig {
    pub server: ServerConfig,
    pub routes: Vec<Arc<RouteConfig>>,
    pub observability: ObservabilityConfig,
    pub identity: IdentityConfig,
    pub security: SecurityConfig,
}

/// What is known of one API key.
#[derive(Debug, Clone)]
pub struct ApiKeyDetails {
    pub user_id: String,
    pub roles: Vec<String>,
    /// `active`, or anything else for a key that is no longer accepted.
    pub status: String,
}

/// The API keys, each found by its token.
pub struct ApiKeyStore {
    pub keys: StringHashMap<ApiKeyDetails>,
}

impl ApiKeyStore {
    /// A store without keys.
    pub fn new() -> (store: Self)
        ensures
            store.keys@ == Map::<Seq<char>, ApiKeyDetails>::empty(),
    {
        ApiKeyStore { keys: StringHashMap::new() }
    }

    /// Puts the key `token` in the store, in place of what was known of it.
    pub fn insert(&mut self, token: String, details: ApiKeyDetails)
        ensures
            final(self).keys@ == old(self).keys@.insert(token@, details),
    {
        self.keys.insert(token, details);
    }

    /// What the store knows of the key `token`, if anything.
    pub fn get(&self, token: &str) -> (r: Option<&ApiKeyDetails>)
        ensures
            match r {
                Some(details) => self.keys@.contains_key(token@) && *details == self.keys@[token@],
                None => !self.keys@.contains_key(token@),
            },
    {
        self.keys.get(token)
    }
}

/// The secrets that the gateway is started with.
pub struct SecretsConfig {
    pub jwt_secret: String,
}

pub fn default_allowed_domains() -> (r: Vec<String>)
    ensures
        r@.len() == 2,
        r@[0]@ == "localhost"@,
        r@[1]@ == "127.0.0.1"@,
{
    let mut r: Vec<String> = Vec::new();
    r.push(owned("localhost"));
    r.push(owned("127.0.0.1"));
    r
}

pub fn default_max_request_size() -> (r: usize)
    ensures
        r == 10 * 1024 * 1024,
{
    DEFAULT_MAX_BODY_SIZE
}

pub fn default_destination() -> (r: String)
    ensures
        r@.len() == 0,
{
    String::new()
}

pub fn default_strategy() -> (r: String)
    ensures
        r@ == "round_robin"@,
{
    owned("round_robin")
}

pub fn default_request_timeout() -> (r: String)
    ensures
        r@ == "30s"@,
{
    owned("30s")
}

pub fn default_health_path() -> (r: String)
    ensures
        r@ == "/health"@,
{
    owned("/health")
}

pub fn default_health_interval() -> (r: String)
    ensures
        r@ == "30s"@,
{
    owned("30s")
}

pub fn default_health_timeout() -> (r: String)
    ensures
        r@ == "5s"@,
{
    owned("5s")
}

pub fn default_unhealthy_threshold() -> (r: u32)
    ensures
        r == 3,
{
    3
}

pub fn default_healthy_threshold() -> (r: u32)
    ensures
        r == 2,
{
    2
}

pub fn default_status() -> (r: String)
    ensures
        r@ == "active"@,
{
    owned("active")
}

/// The rule that a configuration breaks.
#[derive(Debug, Clone, PartialEq, Eq)]
pub enum ConfigError {
    EmptyServerAddress,
    NoRoutes,
    /// Two routes have this name.
    DuplicateRouteName(String),
    /// Two routes have this path.
    DuplicateRoutePath(String),
    EmptyRouteName,
    EmptyRoutePath,
    /// The route of this name has nowhere to send its requests.
    MissingDestination(String),
    /// The route of this name lists required roles, and the list is empty.
    EmptyRoles(String),
    /// The route of this name allows no request at all.
    InvalidRateLimit(String),
    ZeroMaxRequestSize,
    EmptyApiKeyStorePath,
}

impl ConfigError {
    /// The rule that was broken, in words.
    pub open spec fn spec_message(self) -> Seq<char> {
        match self {
            ConfigError::EmptyServerAddress => "Server address cannot be empty"@,
            ConfigError::NoRoutes => "At least one route must be configured"@,
            ConfigError::DuplicateRouteName(name) => "Duplicate route name: "@ + name@,
            ConfigError::DuplicateRoutePath(path) => "Duplicate route path: "@ + path@,
            ConfigError::EmptyRouteName => "Route name cannot be empty"@,
            ConfigError::EmptyRoutePath => "Route path cannot be empty"@,
            ConfigError::MissingDestination(name) => "Route '"@ + name@
                + "' must have either destinations or destination"@,
            ConfigError::EmptyRoles(name) => "Route '"@ + name@ + "' has empty roles array"@,
            ConfigError::InvalidRateLimit(name) => "Route '"@ + name@
                + "' has invalid rate limit requests: must be > 0"@,
            ConfigError::ZeroMaxRequestSize => "Max request size must be greater than 0"@,
            ConfigError::EmptyApiKeyStorePath => "API key store path cannot be empty"@,
        }
    }

    /// The rule that was broken, in words.
    pub fn message(&self) -> (text: String)
        ensures
            text@ == self.spec_message(),
    {
        match self {
            ConfigError::EmptyServerAddress => owned("Server address cannot be empty"),
            ConfigError::NoRoutes => owned("At least one route must be configured"),
            ConfigError::DuplicateRouteName(name) => joined("Duplicate route name: ", name.as_str()),
            ConfigError::DuplicateRoutePath(path) => joined("Duplicate route path: ", path.as_str()),
            ConfigError::EmptyRouteName => owned("Route name cannot be empty"),
            ConfigError::EmptyRoutePath => owned("Route path cannot be empty"),
            ConfigError::MissingDestination(name) => {
                let mut text = joined("Route '", name.as_str());
                text.append("' must have either destinations or destination");
                text
            },
            ConfigError::EmptyRoles(name) => {
                let mut text = joined("Route '", name.as_str());
                text.append("' has empty roles array");
                text
            },
            ConfigError::InvalidRateLimit(name) => {
                let mut text = joined("Route '", name.as_str());
                text.append("' has invalid rate limit requests: must be > 0");
                text
            },
            ConfigError::ZeroMaxRequestSize => owned("Max request size must be greater than 0"),
            ConfigError::EmptyApiKeyStorePath => owned("API key store path cannot be empty"),
        }
    }
}

impl RouteConfig {
    /// Whether the route has somewhere to send its requests.
    pub open spec fn has_destination(self) -> bool {
        self.destinations@.len() > 0 || self.destination@.len() > 0
    }

    /// The rule that this route breaks by itself, if any.
    pub open spec fn own_fault(self) -> Option<ConfigError> {
        if is_blank(self.name@) {
            Some(ConfigError::EmptyRouteName)
        } else if is_blank(self.path@) {
            Some(ConfigError::EmptyRoutePath)
        } else if !self.has_destination() {
            Some(ConfigError::MissingDestination(self.name))
        } else if self.auth matches Some(a) && a.roles matches Some(rs) && rs@.len() == 0 {
            Some(ConfigError::EmptyRoles(self.name))
        } else if self.rate_limit matches Some(rl) && rl.requests == 0 {
            Some(ConfigError::InvalidRateLimit(self.name))
        } else {
            None
        }
    }

    fn check(&self) -> (r: Option<ConfigError>)
        ensures
            r == self.own_fault(),
    {
        if str_is_blank(self.name.as_str()) {
            return Some(ConfigError::EmptyRouteName);
        }
        if str_is_blank(self.path.as_str()) {
            return Some(ConfigError::EmptyRoutePath);
        }
        if self.destinations.len() == 0 && self.destination.as_str().is_empty() {
            return Some(ConfigError::MissingDestination(self.name.clone()));
        }
        if let Some(a) = &self.auth {
            if let Some(rs) = &a.roles {
                if rs.len() == 0 {
                    return Some(ConfigError::EmptyRoles(self.name.clone()));
                }
            }
        }
        if let Some(rl) = &self.rate_limit {
            if rl.requests == 0 {
                return Some(ConfigError::InvalidRateLimit(self.name.clone()));
            }
        }
        None
    }
}

/// Whether a route before `i` has the name of route `i`.
pub open spec fn name_taken(routes: Seq<Arc<RouteConfig>>, i: int) -> bool {
    exists|j: int| 0 <= j < i && (#[trigger] routes[j]).name@ == routes[i].name@
}

/// Whether a route before `i` has the path of route `i`.
pub open spec fn path_taken(routes: Seq<Arc<RouteConfig>>, i: int) -> bool {
    exists|j: int| 0 <= j < i && (#[trigger] routes[j]).path@ == routes[i].path@
}

/// The rule that route `i` breaks, given the routes before it.
pub open spec fn route_fault(routes: Seq<Arc<RouteConfig>>, i: int) -> Option<ConfigError> {
    if name_taken(routes, i) {
        Some(ConfigError::DuplicateRouteName(routes[i].name))
    } else if path_taken(routes, i) {
        Some(ConfigError::DuplicateRoutePath(routes[i].path))
    } else {
        routes[i].own_fault()
    }
}

/// The fault of the first faulty route from `from` on.
pub open spec fn first_route_fault(routes: Seq<Arc<RouteConfig>>, from: int) -> Option<
    ConfigError,
>
    decreases routes.len() - from,
{
    if from < 0 || from >= routes.len() {
        None
    } else if route_fault(routes, from) is Some {
        route_fault(routes, from)
    } else {
        first_route_fault(routes, from + 1)
    }
}

impl GatewayConfig {
    /// The first rule that the configuration breaks, in the order: server
    /// address, routes (each in turn), request size, key store path.
    pub open spec fn fault(self) -> Option<ConfigError> {
        if self.server.addr@.len() == 0 {
            Some(ConfigError::EmptyServerAddress)
        } else if self.routes@.len() == 0 {
            Some(ConfigError::NoRoutes)
        } else if first_route_fault(self.routes@, 0) is Some {
            first_route_fault(self.routes@, 0)
        } else if self.security.max_request_size == 0 {
            Some(ConfigError::ZeroMaxRequestSize)
        } else if is_blank(self.identity.api_key_store_path@) {
            Some(ConfigError::EmptyApiKeyStorePath)
        } else {
            None
        }
    }

    /// Whether the configuration meets every rule.
    pub open spec fn valid(self) -> bool {
        self.fault() is None
    }

    /// Checks the configuration, and names the first rule it breaks.
    pub fn validate(&self) -> (r: Result<(), ConfigError>)
        ensures
            match r {
                Ok(()) => self.valid(),
                Err(e) => self.fault() == Some(e),
            },
    {
        if self.server.addr.as_str().is_empty() {
            return Err(ConfigError::EmptyServerAddress);
        }
        if self.routes.len() == 0 {
            return Err(ConfigError::NoRoutes);
        }
        let mut i: usize = 0;
        while i < self.routes.len()
            invariant
                i <= self.routes.len(),
                self.server.addr@.len() != 0,
                self.routes@.len() != 0,
                first_route_fault(self.routes@, 0) == first_route_fault(self.routes@, i as int),
            decreases self.routes.len() - i,
        {
            let route = &self.routes[i];
            if seen_before(&self.routes, i, true) {
                return Err(ConfigError::DuplicateRouteName(route.name.clone()));
            }
            if seen_before(&self.routes, i, false) {
                return Err(ConfigError::DuplicateRoutePath(route.path.clone()));
            }
            if let Some(e) = route.check() {
                return Err(e);
            }
            i += 1;
        }
        if self.security.max_request_size == 0 {
            return Err(ConfigError::ZeroMaxRequestSize);
        }
        if str_is_blank(self.identity.api_key_store_path.as_str()) {
            return Err(ConfigError::EmptyApiKeyStorePath);
        }
        Ok(())
    }
}

/// The route that serves `path` among the first `n`: the one whose prefix is
/// the longest of those that match, and the later one of two equally long.
pub open spec fn best_route(routes: Seq<Arc<RouteConfig>>, path: Seq<char>, n: int) -> Option<int>
    decreases n,
{
    if n <= 0 {
        None
    } else {
        let before = best_route(routes, path, n - 1);
        let i = n - 1;
        if is_prefix(routes[i].path@, path) && (before matches Some(b) ==> routes[i].path@.len()
            >= routes[b].path@.len()) {
            Some(i)
        } else {
            before
        }
    }
}

/// `best_route` finds nothing only where no prefix matches, and what it
/// finds is a match that no other match is longer than.
pub proof fn lemma_best_route_is_longest(routes: Seq<Arc<RouteConfig>>, path: Seq<char>, n: int)
    requires
        0 <= n <= routes.len(),
    ensures
        match best_route(routes, path, n) {
            None => forall|i: int| 0 <= i < n ==> !is_prefix((#[trigger] routes[i]).path@, path),
            Some(b) => {
                &&& 0 <= b < n
                &&& is_prefix(routes[b].path@, path)
                &&& forall|i: int|
                    0 <= i < n && is_prefix((#[trigger] routes[i]).path@, path)
                        ==> routes[i].path@.len() <= routes[b].path@.len()
                &&& forall|i: int|
                    b < i < n && is_prefix((#[trigger] routes[i]).path@, path)
                        ==> routes[i].path@.len() < routes[b].path@.len()
            },
        },
    decreases n,
{
    if n > 0 {
        lemma_best_route_is_longest(routes, path, n - 1);
    }
}

/// Where no route is faulty from `from` on, none of them is.
pub proof fn lemma_no_route_fault(routes: Seq<Arc<RouteConfig>>, from: int, i: int)
    requires
        0 <= from <= i < routes.len(),
        first_route_fault(routes, from) is None,
    ensures
        route_fault(routes, i) is None,
    decreases i - from,
{
    if from < i {
        lemma_no_route_fault(routes, from + 1, i);
    }
}

/// A valid configuration has at least one route; no two routes share a name
/// or a path; every route has a name and a path that are not blank and a
/// destination; and a rate limit allows at least one request.
pub proof fn lemma_valid_config(cfg: GatewayConfig)
    requires
        cfg.valid(),
    ensures
        cfg.routes@.len() > 0,
        cfg.security.max_request_size > 0,
        forall|i: int, j: int|
            0 <= i < j < cfg.routes@.len() ==> (#[trigger] cfg.routes@[i]).name@ != (
            #[trigger] cfg.routes@[j]).name@,
        forall|i: int, j: int|
            0 <= i < j < cfg.routes@.len() ==> (#[trigger] cfg.routes@[i]).path@ != (
            #[trigger] cfg.routes@[j]).path@,
        forall|i: int|
            0 <= i < cfg.routes@.len() ==> {
                let r = #[trigger] cfg.routes@[i];
                &&& !is_blank(r.name@)
                &&& !is_blank(r.path@)
                &&& r.path@.len() > 0
                &&& r.has_destination()
                &&& r.rate_limit matches Some(rl) ==> rl.requests > 0
            },
{
    let routes = cfg.routes@;
    assert forall|i: int| 0 <= i < routes.len() implies route_fault(routes, i) is None by {
        lemma_no_route_fault(routes, 0, i);
    }
    assert forall|i: int, j: int| 0 <= i < j < routes.len() implies (#[trigger] routes[i]).name@
        != (#[trigger] routes[j]).name@ && routes[i].path@ != routes[j].path@ by {
        assert(route_fault(routes, j) is None);
        assert(!name_taken(routes, j));
        assert(!path_taken(routes, j));
    }
    assert forall|i: int| 0 <= i < routes.len() implies !is_blank((#[trigger] routes[i]).name@)
        && !is_blank(routes[i].path@) && routes[i].path@.len() > 0 && routes[i].has_destination()
        && (routes[i].rate_limit matches Some(rl) ==> rl.requests > 0) by {
        assert(route_fault(routes, i) is None);
    }
}

/// In a valid configuration two routes that match one path have prefixes of
/// different lengths: the longest match is the only one of its length.
pub proof fn lemma_no_ties(cfg: GatewayConfig, path: Seq<char>, i: int, j: int)
    requires
        cfg.valid(),
        0 <= i < j < cfg.routes@.len(),
        is_prefix(cfg.routes@[i].path@, path),
        is_prefix(cfg.routes@[j].path@, path),
    ensures
        cfg.routes@[i].path@.len() != cfg.routes@[j].path@.len(),
{
    lemma_valid_config(cfg);
}

impl GatewayConfig {
    /// The route that serves `path`, where there is one.
    pub open spec fn route_for(self, path: Seq<char>) -> Option<Arc<RouteConfig>> {
        match best_route(self.routes@, path, self.routes@.len() as int) {
            Some(i) => Some(self.routes@[i]),
            None => None,
        }
    }

    /// Finds the route whose path is a prefix of `request_path` and is the
    /// longest such prefix; of two equally long ones, the later.
    pub fn find_route_for_path(&self, request_path: &str) -> (r: Option<Arc<RouteConfig>>)
        ensures
            r == self.route_for(request_path@),
            r is None <==> forall|i: int|
                0 <= i < self.routes@.len() ==> !is_prefix(
                    (#[trigger] self.routes@[i]).path@,
                    request_path@,
                ),
            r matches Some(route) ==> {
                &&& is_prefix(route.path@, request_path@)
                &&& forall|i: int|
                    0 <= i < self.routes@.len() && is_prefix(
                        (#[trigger] self.routes@[i]).path@,
                        request_path@,
                    ) ==> self.routes@[i].path@.len() <= route.path@.len()
            },
    {
        let path = chars_of(request_path);
        let mut best: Option<usize> = None;
        let mut best_len: usize = 0;
        let mut i: usize = 0;
        while i < self.routes.len()
            invariant
                i <= self.routes.len(),
                path@ == request_path@,
                match best {
                    Some(b) => best_route(self.routes@, path@, i as int) == Some(b as int) && b
                        < i && best_len == self.routes@[b as int].path@.len(),
                    None => best_route(self.routes@, path@, i as int) is None,
                },
            decreases self.routes.len() - i,
        {
            let prefix = chars_of(self.routes[i].path.as_str());
            if starts_with(&path, &prefix) && (best.is_none() || prefix.len() >= best_len) {
                best = Some(i);
                best_len = prefix.len();
            }
            i += 1;
        }
        proof {
            lemma_best_route_is_longest(self.routes@, path@, self.routes@.len() as int);
        }
        match best {
            Some(b) => Some(share(&self.routes[b])),
            None => None,
        }
    }
}

/// Whether a route before `i` has the name (`by_name`) or the path of route `i`.
fn seen_before(routes: &Vec<Arc<RouteConfig>>, i: usize, by_name: bool) -> (r: bool)
    requires
        i < routes.len(),
    ensures
        r == if by_name {
            name_taken(routes@, i as int)
        } else {
            path_taken(routes@, i as int)
        },
{
    let mut j: usize = 0;
    while j < i
        invariant
            j <= i < routes.len(),
            by_name ==> forall|k: int| 0 <= k < j ==> (#[trigger] routes@[k]).name@ != routes@[i as int].name@,
            !by_name ==> forall|k: int| 0 <= k < j ==> (#[trigger] routes@[k]).path@ != routes@[i as int].path@,
        decreases i - j,
    {
        let same = if by_name {
            routes[j].name == routes[i].name
        } else {
            routes[j].path == routes[i].path
        };
        if same {
            return true;
        }
        j += 1;
    }
    false
}

} // verus!
