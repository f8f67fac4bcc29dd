//! The proxy step: where a request goes, whether it may go there, and
//! which of its headers go with it.

use vstd::prelude::*;
use vstd::string::{StrSliceExecFns, StringExecFns};
use crate::config::{RouteConfig, SecurityConfig};
use crate::duration::parse_duration;
use crate::errors::{AppError, ErrorView};
use crate::foreign::{parse_url, url_parts, UrlParts, UrlPartsView};
use crate::health_check::{seconds_or, HealthCheckStore};
use crate::message::{
    clone_header, header_views, set_header, with_header, Header, HeaderView,
};
use crate::text::{
    chars_of, ends_with, is_prefix, is_suffix, lowered, owned, starts_with, str_eq, string_of,
    to_lower, views,
};

verus! {

/// Whether a header of this name is passed on to the upstream.
pub open spec fn is_safe_header(name: Seq<char>) -> bool {
    let n = lowered(name);
    ||| n == "content-type"@
    ||| n == "content-length"@
    ||| n == "accept"@
    ||| n == "accept-encoding"@
    ||| n == "user-agent"@
    ||| n == "host"@
    ||| n == "connection"@
    ||| n == "cache-control"@
}

/// The headers of `hs` that are passed on, in their order.
pub open spec fn only_safe(hs: Seq<HeaderView>) -> Seq<HeaderView>
    decreases hs.len(),
{
    if hs.len() == 0 {
        hs
    } else if is_safe_header(hs.last().0) {
        only_safe(hs.drop_last()).push(hs.last())
    } else {
        only_safe(hs.drop_last())
    }
}

/// Whether a header of this name is passed on to the upstream.
pub fn header_is_safe(name: &str) -> (r: bool)
    ensures
        r == is_safe_header(name@),
{
    let lower = to_lower(name);
    let n = lower.as_str();
    str_eq(n, "content-type") || str_eq(n, "content-length") || str_eq(n, "accept") || str_eq(
        n,
        "accept-encoding",
    ) || str_eq(n, "user-agent") || str_eq(n, "host") || str_eq(n, "connection") || str_eq(
        n,
        "cache-control",
    )
}

/// Keeps the headers that may be passed on to the upstream, and drops
/// every other.
pub fn filter_safe_headers(headers: &Vec<Header>) -> (r: Vec<Header>)
    ensures
        header_views(r@) == only_safe(header_views(headers@)),
{
    let mut r: Vec<Header> = Vec::new();
    let mut i: usize = 0;
    while i < headers.len()
        invariant
            i <= headers.len(),
            header_views(r@) == only_safe(header_views(headers@).take(i as int)),
        decreases headers.len() - i,
    {
        let ghost before = header_views(r@);
        let ghost upto = header_views(headers@).take(i + 1);
        assert(upto.drop_last() =~= header_views(headers@).take(i as int));
        assert(upto.last() == headers@[i as int]@);
        if header_is_safe(headers[i].name.as_str()) {
            r.push(clone_header(&headers[i]));
            assert(header_views(r@) =~= before.push(headers@[i as int]@));
        }
        i += 1;
    }
    assert(header_views(headers@).take(headers@.len() as int) =~= header_views(headers@));
    r
}

/// The hash of a request id: the sum of its characters' code points.
pub open spec fn id_hash(id: Seq<char>) -> nat
    decreases id.len(),
{
    if id.len() == 0 {
        0
    } else {
        id_hash(id.drop_last()) + (id.last() as u32) as nat
    }
}

/// The destinations among `dests` that are not known to be unhealthy, in
/// their order.
pub open spec fn usable_among(dests: Seq<Seq<char>>, health: HealthCheckStore) -> Seq<Seq<char>>
    decreases dests.len(),
{
    if dests.len() == 0 {
        dests
    } else if health.record_of(dests.last()).usable() {
        usable_among(dests.drop_last(), health).push(dests.last())
    } else {
        usable_among(dests.drop_last(), health)
    }
}

/// Where a request with the id `id` goes on the route `route`.
///
/// A route with a single destination uses it whatever its health. Of
/// several destinations the unhealthy ones are left out, and the id's hash
/// picks among the others.
pub open spec fn chosen_destination(route: RouteConfig, id: Seq<char>, health: HealthCheckStore) -> Result<
    Seq<char>,
    ErrorView,
> {
    let dests = views(route.destinations@);
    if dests.len() == 0 {
        if route.destination@.len() > 0 {
            Ok(route.destination@)
        } else {
            Err(ErrorView::InvalidDestination("No destinations configured"@))
        }
    } else if dests.len() == 1 {
        Ok(dests[0])
    } else {
        let candidates = usable_among(dests, health);
        if candidates.len() == 0 {
            Err(ErrorView::ServiceUnavailable)
        } else {
            Ok(candidates[(id_hash(id) % candidates.len()) as int])
        }
    }
}

/// `got` is the result `want`, text and error taken by their views.
pub open spec fn same_text_result(got: Result<String, AppError>, want: Result<Seq<char>, ErrorView>) -> bool {
    match got {
        Ok(text) => want == Ok::<Seq<char>, ErrorView>(text@),
        Err(e) => want == Err::<Seq<char>, ErrorView>(e@),
    }
}

/// The hash of a request id, reduced modulo `n`.
fn hash_mod(id: &str, n: usize) -> (r: usize)
    requires
        n > 0,
    ensures
        r == id_hash(id@) % (n as nat),
{
    let v = chars_of(id);
    let mut sum: u128 = 0;
    let mut i: usize = 0;
    while i < v.len()
        invariant
            i <= v.len(),
            v@ == id@,
            sum == id_hash(v@.take(i as int)),
            sum <= i * 0x10FFFF,
        decreases v.len() - i,
    {
        assert(v@.take(i + 1).drop_last() =~= v@.take(i as int));
        assert(v@.take(i + 1).last() == v@[i as int]);
        let c: char = v[i];
        proof {
            vstd::utf8::char_is_scalar(c);
        }
        let code: u32 = c as u32;
        assert(code <= 0x10FFFF);
        assert(c == v@[i as int]);
        assert(code == v@[i as int] as u32);
        assert(i * 0x10FFFF + 0x10FFFF <= 0xFFFF_FFFF_FFFF_FFFF * 0x10FFFF + 0x10FFFF) by (nonlinear_arith)
            requires
                i <= 0xFFFF_FFFF_FFFF_FFFF,
        ;
        sum = sum + code as u128;
        i += 1;
    }
    assert(v@.take(v.len() as int) =~= v@);
    (sum % (n as u128)) as usize
}

/// Selects the destination of a request on a route by the request's id.
pub fn select_destination(route: &RouteConfig, request_id: &str, health: &HealthCheckStore) -> (r:
    Result<String, AppError>)
    ensures
        same_text_result(r, chosen_destination(*route, request_id@, *health)),
{
    let n = route.destinations.len();
    if n == 0 {
        if !route.destination.as_str().is_empty() {
            return Ok(route.destination.clone());
        }
        return Err(AppError::InvalidDestination(owned("No destinations configured")));
    }
    assert(views(route.destinations@)[0] == route.destinations@[0]@);
    if n == 1 {
        return Ok(route.destinations[0].clone());
    }
    let ghost dests = views(route.destinations@);
    let mut candidates: Vec<usize> = Vec::new();
    let mut i: usize = 0;
    while i < n
        invariant
            i <= n == route.destinations.len(),
            dests == views(route.destinations@),
            candidates@.len() == usable_among(dests.take(i as int), *health).len(),
            forall|k: int|
                0 <= k < candidates@.len() ==> 0 <= #[trigger] candidates@[k] < n
                    && route.destinations@[candidates@[k] as int]@ == usable_among(
                    dests.take(i as int),
                    *health,
                )[k],
        decreases n - i,
    {
        assert(dests.take(i + 1).drop_last() =~= dests.take(i as int));
        assert(dests.take(i + 1).last() == route.destinations@[i as int]@);
        if health.is_healthy(route.destinations[i].as_str()) {
            candidates.push(i);
        }
        i += 1;
    }
    assert(dests.take(n as int) =~= dests);
    if candidates.len() == 0 {
        return Err(AppError::ServiceUnavailable);
    }
    let pick = hash_mod(request_id, candidates.len());
    Ok(route.destinations[candidates[pick]].clone())
}

/// Whether the host is one of the allowed domains or a subdomain of one.
pub open spec fn host_allowed(host: Seq<char>, allowed: Seq<Seq<char>>) -> bool {
    exists|i: int|
        0 <= i < allowed.len() && (host == #[trigger] allowed[i] || is_suffix(
            seq!['.'] + allowed[i],
            host,
        ))
}

/// Whether the gateway may connect to a URL of these parts: one that
/// could be read, of the scheme `http` or `https`, with a host that is
/// allowed.
pub open spec fn parts_allowed(parts: Option<UrlPartsView>, allowed: Seq<Seq<char>>) -> bool {
    match parts {
        Some((scheme, Some(host))) => (scheme == "http"@ || scheme == "https"@) && host_allowed(
            host,
            allowed,
        ),
        _ => false,
    }
}

/// Whether the gateway may connect to `url`: it is an absolute URL of the
/// scheme `http` or `https`, with a host that is allowed.
pub open spec fn destination_allowed(url: Seq<char>, allowed: Seq<Seq<char>>) -> bool {
    parts_allowed(url_parts(url), allowed)
}

/// The domains, each in double quotes, with `, ` between them.
pub open spec fn quoted(domains: Seq<Seq<char>>) -> Seq<char>
    decreases domains.len(),
{
    if domains.len() == 0 {
        Seq::empty()
    } else if domains.len() == 1 {
        "\""@ + domains[0] + "\""@
    } else {
        quoted(domains.drop_last()) + ", "@ + "\""@ + domains.last() + "\""@
    }
}

/// Why the gateway may not connect to the URL of the text `url` and of the
/// parts `parts`, in words; `None` where it may.
pub open spec fn parts_fault(
    url: Seq<char>,
    parts: Option<UrlPartsView>,
    allowed: Seq<Seq<char>>,
) -> Option<Seq<char>> {
    match parts {
        None => Some("Invalid URL format: "@ + url),
        Some((scheme, host)) => if !(scheme == "http"@ || scheme == "https"@) {
            Some("Only HTTP and HTTPS protocols allowed, got: "@ + scheme)
        } else {
            match host {
                None => Some("URL missing host: "@ + url),
                Some(h) => if host_allowed(h, allowed) {
                    None
                } else {
                    Some(
                        "Host '"@ + h + "' not in allowed domains: ["@ + quoted(allowed) + "]"@,
                    )
                },
            }
        },
    }
}

/// Why the gateway may not connect to `url`, in words; `None` where it may.
pub open spec fn destination_fault(url: Seq<char>, allowed: Seq<Seq<char>>) -> Option<Seq<char>> {
    parts_fault(url, url_parts(url), allowed)
}

/// The parts of a URL as plain values, where it has any.
pub open spec fn parts_view(parts: Option<UrlParts>) -> Option<UrlPartsView> {
    match parts {
        Some(p) => Some(p@),
        None => None,
    }
}

/// A URL whose host is none of the allowed domains nor a subdomain of one
/// is refused, whatever its scheme and whatever else it holds.
pub proof fn lemma_unlisted_host_is_refused(
    url: Seq<char>,
    scheme: Seq<char>,
    host: Seq<char>,
    allowed: Seq<Seq<char>>,
)
    requires
        url_parts(url) == Some((scheme, Some(host))),
        !host_allowed(host, allowed),
    ensures
        !destination_allowed(url, allowed),
        destination_fault(url, allowed) is Some,
{
}

/// A destination is at fault exactly where the gateway may not connect to it.
pub proof fn lemma_fault_iff_not_allowed(url: Seq<char>, allowed: Seq<Seq<char>>)
    ensures
        destination_fault(url, allowed) is None <==> destination_allowed(url, allowed),
{
}

/// Whether the host is one of the allowed domains or a subdomain of one.
pub fn host_is_allowed(host: &str, allowed_domains: &[String]) -> (r: bool)
    ensures
        r == host_allowed(host@, views(allowed_domains@)),
{
    let h = chars_of(host);
    let ghost allowed = views(allowed_domains@);
    let mut i: usize = 0;
    while i < allowed_domains.len()
        invariant
            i <= allowed_domains.len(),
            h@ == host@,
            allowed == views(allowed_domains@),
            forall|k: int|
                0 <= k < i ==> !(host@ == #[trigger] allowed[k] || is_suffix(
                    seq!['.'] + allowed[k],
                    host@,
                )),
        decreases allowed_domains.len() - i,
    {
        let d = chars_of(allowed_domains[i].as_str());
        assert(allowed[i as int] == d@);
        let mut dotted: Vec<char> = Vec::new();
        dotted.push('.');
        let mut j: usize = 0;
        while j < d.len()
            invariant
                j <= d.len(),
                dotted@ == seq!['.'] + d@.take(j as int),
            decreases d.len() - j,
        {
            dotted.push(d[j]);
            j += 1;
            assert(seq!['.'] + d@.take(j as int) =~= (seq!['.'] + d@.take(j - 1)).push(d@[j - 1]));
        }
        assert(d@.take(d.len() as int) =~= d@);
        if str_eq(host, allowed_domains[i].as_str()) || ends_with(&h, &dotted) {
            return true;
        }
        i += 1;
    }
    false
}

/// The domains, each in double quotes, with `, ` between them.
fn quote_domains(domains: &[String]) -> (r: String)
    ensures
        r@ == quoted(views(domains@)),
{
    let ghost ds = views(domains@);
    let mut r = String::new();
    let mut i: usize = 0;
    while i < domains.len()
        invariant
            i <= domains.len(),
            ds == views(domains@),
            r@ == quoted(ds.take(i as int)),
        decreases domains.len() - i,
    {
        assert(ds.take(i + 1).drop_last() =~= ds.take(i as int));
        assert(ds.take(i + 1).last() == domains@[i as int]@);
        assert(ds.take(i + 1)[0] == ds[0]);
        if i > 0 {
            r.append(", ");
        } else {
            assert(r@ =~= Seq::<char>::empty());
        }
        r.append("\"");
        r.append(domains[i].as_str());
        r.append("\"");
        i += 1;
        assert(r@ =~= quoted(ds.take(i as int)));
    }
    assert(ds.take(domains@.len() as int) =~= ds);
    r
}

/// Judges a URL by its parts: `parts` is what was read out of the text
/// `url`, or nothing where the text is no absolute URL. The gateway may
/// connect where the scheme is `http` or `https` and the host is one of
/// the allowed domains or a subdomain of one.
pub fn check_url_parts(url: &str, parts: &Option<UrlParts>, allowed_domains: &[String]) -> (r: Result<
    (),
    AppError,
>)
    ensures
        r is Ok <==> parts_allowed(parts_view(*parts), views(allowed_domains@)),
        r is Ok <==> parts_fault(url@, parts_view(*parts), views(allowed_domains@)) is None,
        r matches Err(e) ==> e@ == ErrorView::InvalidDestination(
            parts_fault(url@, parts_view(*parts), views(allowed_domains@))->0,
        ),
{
    let parts = match parts {
        Some(parts) => parts,
        None => {
            let mut text = owned("Invalid URL format: ");
            text.append(url);
            return Err(AppError::InvalidDestination(text));
        },
    };
    let scheme = parts.scheme.as_str();
    if !(str_eq(scheme, "http") || str_eq(scheme, "https")) {
        let mut text = owned("Only HTTP and HTTPS protocols allowed, got: ");
        text.append(scheme);
        return Err(AppError::InvalidDestination(text));
    }
    let host = match &parts.host {
        Some(host) => host,
        None => {
            let mut text = owned("URL missing host: ");
            text.append(url);
            return Err(AppError::InvalidDestination(text));
        },
    };
    if !host_is_allowed(host.as_str(), allowed_domains) {
        let mut text = owned("Host '");
        text.append(host.as_str());
        text.append("' not in allowed domains: [");
        let list = quote_domains(allowed_domains);
        text.append(list.as_str());
        text.append("]");
        assert(text@ =~= "Host '"@ + host@ + "' not in allowed domains: ["@ + quoted(
            views(allowed_domains@),
        ) + "]"@);
        return Err(AppError::InvalidDestination(text));
    }
    Ok(())
}

/// Checks that the gateway may connect to `url`: that it is an absolute
/// URL of the scheme `http` or `https` whose host is one of the allowed
/// domains or a subdomain of one.
pub fn validate_destination_url(url: &str, allowed_domains: &[String]) -> (r: Result<(), AppError>)
    ensures
        r is Ok <==> destination_allowed(url@, views(allowed_domains@)),
        r matches Err(e) ==> destination_fault(url@, views(allowed_domains@)) is Some && e@
            == ErrorView::InvalidDestination(
            destination_fault(url@, views(allowed_domains@))->0,
        ),
{
    let parts = parse_url(url);
    check_url_parts(url, &parts, allowed_domains)
}

/// What is left of the request path behind the route's prefix; nothing
/// where the path does not start with the prefix.
pub open spec fn rest_of_path(path: Seq<char>, prefix: Seq<char>) -> Seq<char> {
    if is_prefix(prefix, path) {
        path.skip(prefix.len() as int)
    } else {
        Seq::empty()
    }
}

/// What is left of the request path behind the route's prefix.
pub fn strip_route_prefix(request_path: &str, prefix: &str) -> (rest: String)
    ensures
        rest@ == rest_of_path(request_path@, prefix@),
{
    let path = chars_of(request_path);
    let p = chars_of(prefix);
    if starts_with(&path, &p) {
        let rest = string_of(&path, p.len(), path.len());
        assert(path@.subrange(p.len() as int, path.len() as int) =~= path@.skip(p.len() as int));
        rest
    } else {
        String::new()
    }
}

/// What the gateway sends upstream for a request.
#[derive(Debug, Clone, PartialEq, Eq)]
pub struct ForwardPlan {
    /// Where the request goes: the destination and the rest of the path.
    pub url: String,
    /// The headers that go with it.
    pub headers: Vec<Header>,
    /// The longest wait for the upstream's answer, in seconds.
    pub timeout_seconds: u64,
}

/// A forward plan as plain values.
pub struct PlanView {
    pub url: Seq<char>,
    pub headers: Seq<HeaderView>,
    pub timeout_seconds: u64,
}

impl View for ForwardPlan {
    type V = PlanView;

    open spec fn view(&self) -> PlanView {
        PlanView {
            url: self.url@,
            headers: header_views(self.headers@),
            timeout_seconds: self.timeout_seconds,
        }
    }
}

/// The name of the header that carries the request id.
pub open spec fn request_id_header() -> Seq<char> {
    "x-request-id"@
}

/// The headers that go upstream: those of the request that may be passed
/// on, and the request id.
pub open spec fn forwarded_headers(headers: Seq<HeaderView>, request_id: Seq<char>) -> Seq<
    HeaderView,
> {
    with_header(only_safe(headers), request_id_header(), vstd::utf8::encode_utf8(request_id))
}

/// What the proxy step decides for a request on the route `route`: where it
/// goes and what goes with it, or why it goes nowhere.
///
/// The destination is selected first; then the URL is checked against the
/// allowed domains; then the body's size against the limit.
pub open spec fn forward_outcome(
    route: RouteConfig,
    request_path: Seq<char>,
    request_id: Seq<char>,
    headers: Seq<HeaderView>,
    body_len: usize,
    security: SecurityConfig,
    health: HealthCheckStore,
) -> Result<PlanView, ErrorView> {
    match chosen_destination(route, request_id, health) {
        Err(e) => Err(e),
        Ok(destination) => {
            let url = destination + rest_of_path(request_path, route.path@);
            match destination_fault(url, views(security.allowed_domains@)) {
                Some(why) => Err(ErrorView::InvalidDestination(why)),
                None => if body_len > security.max_request_size {
                    Err(ErrorView::RequestTooLarge)
                } else {
                    Ok(
                        PlanView {
                            url,
                            headers: forwarded_headers(headers, request_id),
                            timeout_seconds: seconds_or(route.timeout@, 30),
                        },
                    )
                },
            }
        },
    }
}

/// `got` is the result `want`, plan and error taken by their views.
pub open spec fn same_plan(got: Result<ForwardPlan, AppError>, want: Result<PlanView, ErrorView>) -> bool {
    match got {
        Ok(plan) => want == Ok::<PlanView, ErrorView>(plan@),
        Err(e) => want == Err::<PlanView, ErrorView>(e@),
    }
}

/// The proxy step before the upstream call: selects the destination,
/// checks that the gateway may connect to it and that the body is not too
/// large, and gathers the headers that go upstream.
///
/// Whatever is planned goes to an allowed host.
pub fn plan_forward(
    route: &RouteConfig,
    request_path: &str,
    request_id: &str,
    headers: &Vec<Header>,
    body_len: usize,
    security: &SecurityConfig,
    health: &HealthCheckStore,
) -> (r: Result<ForwardPlan, AppError>)
    ensures
        same_plan(
            r,
            forward_outcome(
                *route,
                request_path@,
                request_id@,
                header_views(headers@),
                body_len,
                *security,
                *health,
            ),
        ),
        r matches Ok(plan) ==> destination_allowed(plan.url@, views(security.allowed_domains@)),
{
    let destination = match select_destination(route, request_id, health) {
        Ok(destination) => destination,
        Err(e) => {
            return Err(e);
        },
    };
    let rest = strip_route_prefix(request_path, route.path.as_str());
    let mut url = destination;
    url.append(rest.as_str());
    match validate_destination_url(url.as_str(), security.allowed_domains.as_slice()) {
        Ok(()) => {},
        Err(e) => {
            return Err(e);
        },
    }
    proof {
        lemma_fault_iff_not_allowed(url@, views(security.allowed_domains@));
    }
    if body_len > security.max_request_size {
        return Err(AppError::RequestTooLarge);
    }
    let safe = filter_safe_headers(headers);
    let forwarded = set_header(&safe, "x-request-id", request_id.as_bytes_vec());
    let timeout_seconds = match parse_duration(route.timeout.as_str()) {
        Ok(seconds) => seconds,
        Err(_) => 30,
    };
    Ok(ForwardPlan { url, headers: forwarded, timeout_seconds })
}

/// What the gateway answers a request with.
#[derive(Debug, Clone, PartialEq, Eq)]
pub struct GatewayResponse {
    pub status: u16,
    pub headers: Vec<Header>,
    pub body: Vec<u8>,
}

/// A response as plain values.
pub struct ReplyView {
    pub status: u16,
    pub headers: Seq<HeaderView>,
    pub body: Seq<u8>,
}

impl View for GatewayResponse {
    type V = ReplyView;

    open spec fn view(&self) -> ReplyView {
        ReplyView { status: self.status, headers: header_views(self.headers@), body: self.body@ }
    }
}

/// The response that passes on what the upstream answered: its status,
/// its headers and its body, and the request id.
pub fn upstream_response(status: u16, headers: &Vec<Header>, body: Vec<u8>, request_id: &str) -> (r:
    GatewayResponse)
    ensures
        r@ == (ReplyView {
            status,
            headers: with_header(
                header_views(headers@),
                request_id_header(),
                vstd::utf8::encode_utf8(request_id@),
            ),
            body: body@,
        }),
{
    GatewayResponse {
        status,
        headers: set_header(headers, "x-request-id", request_id.as_bytes_vec()),
        body,
    }
}

/// The response that tells the client of an error: the error's status,
/// its short text as the body, and the request id.
pub fn error_response(error: &AppError, request_id: &str) -> (r: GatewayResponse)
    ensures
        r@ == (ReplyView {
            status: error.spec_status_code(),
            headers: seq![(request_id_header(), vstd::utf8::encode_utf8(request_id@))],
            body: vstd::utf8::encode_utf8(error.spec_response_message()),
        }),
{
    let text = error.response_message();
    let mut headers: Vec<Header> = Vec::new();
    let h = Header { name: owned("x-request-id"), value: request_id.as_bytes_vec() };
    headers.push(h);
    assert(header_views(headers@) =~= seq![(request_id_header(), vstd::utf8::encode_utf8(request_id@))]);
    GatewayResponse { status: error.status_code(), headers, body: text.as_str().as_bytes_vec() }
}

} // verus!
