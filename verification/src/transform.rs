//! Request and response transformation: headers that a route sets and
//! headers that it drops.

use vstd::prelude::*;
use vstd::string::StrSliceExecFns;
use crate::config::{HeaderRules, TransformConfig};
use crate::foreign::{header_name, header_value_ok, is_header_value, parse_header_name};
use crate::message::{
    clone_headers, header_views, remove_header, set_header, with_header, without, Header,
    HeaderView,
};

verus! {

/// The headers after one header has been set: `hs` with `value` under
/// `name`, or `hs` as it is where name or value cannot be read.
pub open spec fn after_add(hs: Seq<HeaderView>, name: Seq<char>, value: Seq<char>) -> Seq<
    HeaderView,
> {
    match header_name(name) {
        Some(n) => if is_header_value(value) {
            with_header(hs, n, vstd::utf8::encode_utf8(value))
        } else {
            hs
        },
        None => hs,
    }
}

/// The headers after one header has been dropped: `hs` without those
/// named `name`, or `hs` as it is where the name cannot be read.
pub open spec fn after_remove(hs: Seq<HeaderView>, name: Seq<char>) -> Seq<HeaderView> {
    match header_name(name) {
        Some(n) => without(hs, n),
        None => hs,
    }
}

/// The headers after the first `n` of the headers to set have been set, in turn.
pub open spec fn after_adds(hs: Seq<HeaderView>, add: Seq<(String, String)>, n: int) -> Seq<
    HeaderView,
>
    decreases n,
{
    if n <= 0 {
        hs
    } else {
        after_add(after_adds(hs, add, n - 1), add[n - 1].0@, add[n - 1].1@)
    }
}

/// The headers after the first `n` of the headers to drop have been dropped, in turn.
pub open spec fn after_removes(hs: Seq<HeaderView>, remove: Seq<String>, n: int) -> Seq<
    HeaderView,
>
    decreases n,
{
    if n <= 0 {
        hs
    } else {
        after_remove(after_removes(hs, remove, n - 1), remove[n - 1]@)
    }
}

/// The headers under the rules: first every header to set is set, then
/// every header to drop is dropped.
pub open spec fn under_rules(hs: Seq<HeaderView>, rules: HeaderRules) -> Seq<HeaderView> {
    after_removes(
        after_adds(hs, rules.add@, rules.add@.len() as int),
        rules.remove@,
        rules.remove@.len() as int,
    )
}

/// The headers under the rules of a route's transformation, if it has one.
pub open spec fn transformed(
    hs: Seq<HeaderView>,
    config: Option<TransformConfig>,
    of_response: bool,
) -> Seq<HeaderView> {
    match config {
        Some(t) => under_rules(
            hs,
            if of_response {
                t.response_headers
            } else {
                t.request_headers
            },
        ),
        None => hs,
    }
}

/// Applies the rules to the headers: sets every header to set, then drops
/// every header to drop. A name or a value that cannot be read is passed over.
pub fn apply_rules(headers: &Vec<Header>, rules: &HeaderRules) -> (r: Vec<Header>)
    ensures
        header_views(r@) == under_rules(header_views(headers@), *rules),
{
    let mut r = clone_headers(headers);
    let mut i: usize = 0;
    while i < rules.add.len()
        invariant
            i <= rules.add.len(),
            header_views(r@) == after_adds(header_views(headers@), rules.add@, i as int),
        decreases rules.add.len() - i,
    {
        let name = rules.add[i].0.as_str();
        let value = rules.add[i].1.as_str();
        if let Some(n) = parse_header_name(name) {
            if header_value_ok(value) {
                r = set_header(&r, n.as_str(), value.as_bytes_vec());
            }
        }
        i += 1;
    }
    let ghost added = header_views(r@);
    let mut j: usize = 0;
    while j < rules.remove.len()
        invariant
            j <= rules.remove.len(),
            header_views(r@) == after_removes(added, rules.remove@, j as int),
        decreases rules.remove.len() - j,
    {
        if let Some(n) = parse_header_name(rules.remove[j].as_str()) {
            r = remove_header(&r, n.as_str());
        }
        j += 1;
    }
    r
}

/// The transformation stage on the way upstream: the request's headers
/// under the route's rules for requests.
pub fn transform_request(headers: &Vec<Header>, config: &Option<TransformConfig>) -> (r: Vec<Header>)
    ensures
        header_views(r@) == transformed(header_views(headers@), *config, false),
{
    match config {
        Some(t) => apply_rules(headers, &t.request_headers),
        None => clone_headers(headers),
    }
}

/// The transformation stage on the way back: the response's headers
/// under the route's rules for responses.
pub fn transform_response(headers: &Vec<Header>, config: &Option<TransformConfig>) -> (r: Vec<
    Header,
>)
    ensures
        header_views(r@) == transformed(header_views(headers@), *config, true),
{
    match config {
        Some(t) => apply_rules(headers, &t.response_headers),
        None => clone_headers(headers),
    }
}

} // verus!
