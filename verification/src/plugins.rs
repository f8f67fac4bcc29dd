//! Example plugins: small stages that an operator may add to the pipeline.

use vstd::prelude::*;
use vstd::string::StrSliceExecFns;
use crate::foreign::{header_value_ok, parse_header_name};
use crate::message::{clone_headers, header_views, set_header, Header};
use crate::transform::after_adds;

verus! {

/// Where in the pipeline a plugin runs.
#[derive(Debug, Clone, Copy, PartialEq, Eq, Structural)]
pub enum PluginPhase {
    /// Before authentication, on the request.
    PreAuth,
    /// After the upstream has answered, on the response.
    PostProxy,
}

/// Sets fixed headers on every response.
#[derive(Debug, Clone)]
pub struct HeaderInjectorPlugin {
    headers: Vec<(String, String)>,
}

impl HeaderInjectorPlugin {
    /// The headers that the plugin sets, as names and values.
    pub closed spec fn headers(self) -> Seq<(String, String)> {
        self.headers@
    }

    /// A plugin that sets the given headers, each a name and a value.
    pub fn new(headers: Vec<(String, String)>) -> (plugin: Self)
        ensures
            plugin.headers() == headers@,
    {
        Self { headers }
    }

    pub fn name(&self) -> (name: &'static str)
        ensures
            name@ == "header-injector"@,
    {
        "header-injector"
    }

    pub fn phase(&self) -> (phase: PluginPhase)
        ensures
            phase == PluginPhase::PostProxy,
    {
        PluginPhase::PostProxy
    }

    /// The headers of a response with the plugin's headers set, in turn.
    /// A header whose name or value cannot be read is passed over.
    pub fn on_response(&self, headers: &Vec<Header>) -> (r: Vec<Header>)
        ensures
            header_views(r@) == after_adds(
                header_views(headers@),
                self.headers(),
                self.headers().len() as int,
            ),
    {
        let mut r = clone_headers(headers);
        let mut i: usize = 0;
        while i < self.headers.len()
            invariant
                i <= self.headers.len(),
                header_views(r@) == after_adds(header_views(headers@), self.headers@, i as int),
            decreases self.headers.len() - i,
        {
            let name = self.headers[i].0.as_str();
            let value = self.headers[i].1.as_str();
            if header_value_ok(value) {
                if let Some(n) = parse_header_name(name) {
                    r = set_header(&r, n.as_str(), value.as_bytes_vec());
                }
            }
            i += 1;
        }
        r
    }
}

/// Notes every request before authentication, and lets it pass.
#[derive(Debug, Clone, Copy, PartialEq, Eq, Structural)]
pub struct RequestLoggerPlugin;

impl RequestLoggerPlugin {
    pub fn name(&self) -> (name: &'static str)
        ensures
            name@ == "request-logger"@,
    {
        "request-logger"
    }

    pub fn phase(&self) -> (phase: PluginPhase)
        ensures
            phase == PluginPhase::PreAuth,
    {
        PluginPhase::PreAuth
    }

    /// The place of the plugin among those of its phase: lower runs first.
    pub fn priority(&self) -> (priority: i32)
        ensures
            priority == 1,
    {
        1
    }
}

} // verus!
