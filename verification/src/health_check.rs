//! Health of the destinations: what the probes have found, and which
//! probes a configuration asks for.

use std::sync::Arc;
use vstd::prelude::*;
use vstd::string::StringExecFns;
use crate::config::{GatewayConfig, HealthCheckConfig, RouteConfig};
use crate::duration::{duration_of, parse_duration};
use crate::tables::{health_entries, health_get, health_insert, health_new, HealthTable};
use crate::text::{chars_of, owned, string_of};

verus! {

/// What is known of a destination.
#[derive(Debug, Clone, Copy, PartialEq, Eq, Structural)]
pub enum HealthStatus {
    Healthy,
    Unhealthy,
    /// Not enough probes yet to tell; such a destination is used.
    Unknown,
}

/// The health record of one destination.
#[derive(Debug, Clone, Copy, PartialEq, Eq, Structural)]
pub struct DestinationHealth {
    pub status: HealthStatus,
    pub consecutive_failures: u32,
    pub consecutive_successes: u32,
}

/// `n + 1`, or `n` where that is the largest count there is.
pub open spec fn bumped(n: u32) -> u32 {
    if n < u32::MAX {
        (n + 1) as u32
    } else {
        n
    }
}

impl DestinationHealth {
    /// The record of a destination that no probe has reached yet.
    pub open spec fn unprobed() -> DestinationHealth {
        DestinationHealth {
            status: HealthStatus::Unknown,
            consecutive_failures: 0,
            consecutive_successes: 0,
        }
    }

    /// Whether requests may be sent to the destination: it is not known
    /// to be unhealthy.
    pub open spec fn usable(self) -> bool {
        self.status != HealthStatus::Unhealthy
    }

    /// The record after a probe has succeeded: one success more, no
    /// failures, and healthy once the successes reach the threshold.
    pub open spec fn after_success(self, healthy_threshold: u32) -> DestinationHealth {
        let successes = bumped(self.consecutive_successes);
        DestinationHealth {
            status: if successes >= healthy_threshold {
                HealthStatus::Healthy
            } else {
                self.status
            },
            consecutive_failures: 0,
            consecutive_successes: successes,
        }
    }

    /// The record after a probe has failed: one failure more, no
    /// successes, and unhealthy once the failures reach the threshold.
    pub open spec fn after_failure(self, unhealthy_threshold: u32) -> DestinationHealth {
        let failures = bumped(self.consecutive_failures);
        DestinationHealth {
            status: if failures >= unhealthy_threshold {
                HealthStatus::Unhealthy
            } else {
                self.status
            },
            consecutive_failures: failures,
            consecutive_successes: 0,
        }
    }

    /// The record after a probe has succeeded.
    pub fn succeed(self, healthy_threshold: u32) -> (r: DestinationHealth)
        ensures
            r == self.after_success(healthy_threshold),
    {
        let successes = if self.consecutive_successes < u32::MAX {
            self.consecutive_successes + 1
        } else {
            self.consecutive_successes
        };
        DestinationHealth {
            status: if successes >= healthy_threshold {
                HealthStatus::Healthy
            } else {
                self.status
            },
            consecutive_failures: 0,
            consecutive_successes: successes,
        }
    }

    /// The record after a probe has failed.
    pub fn fail(self, unhealthy_threshold: u32) -> (r: DestinationHealth)
        ensures
            r == self.after_failure(unhealthy_threshold),
    {
        let failures = if self.consecutive_failures < u32::MAX {
            self.consecutive_failures + 1
        } else {
            self.consecutive_failures
        };
        DestinationHealth {
            status: if failures >= unhealthy_threshold {
                HealthStatus::Unhealthy
            } else {
                self.status
            },
            consecutive_failures: failures,
            consecutive_successes: 0,
        }
    }
}

/// How a probe ended: with a status, or with none where the destination
/// could not be reached in time.
pub open spec fn probe_passed(status: Option<u16>) -> bool {
    status matches Some(code) && 200 <= code < 300
}

/// The health records of all destinations.
pub struct HealthCheckStore {
    destinations: HealthTable,
}

impl HealthCheckStore {
    /// The records that the store holds, by destination.
    pub closed spec fn records(self) -> Map<Seq<char>, DestinationHealth> {
        health_entries(self.destinations)
    }

    /// The record of a destination: that of an unprobed one where the
    /// store holds none.
    pub open spec fn record_of(self, destination: Seq<char>) -> DestinationHealth {
        if self.records().contains_key(destination) {
            self.records()[destination]
        } else {
            DestinationHealth::unprobed()
        }
    }

    /// A store without records.
    pub fn new() -> (store: Self)
        ensures
            store.records() == Map::<Seq<char>, DestinationHealth>::empty(),
    {
        let store = HealthCheckStore { destinations: health_new() };
        assert(store.records() =~= Map::<Seq<char>, DestinationHealth>::empty());
        store
    }

    /// Whether requests may be sent to the destination.
    pub fn is_healthy(&self, destination: &str) -> (r: bool)
        ensures
            r == self.record_of(destination@).usable(),
    {
        match health_get(&self.destinations, destination) {
            Some(record) => match record.status {
                HealthStatus::Unhealthy => false,
                _ => true,
            },
            None => true,
        }
    }

    /// Notes that a probe of the destination has succeeded.
    pub fn record_success(&mut self, destination: &str, healthy_threshold: u32)
        ensures
            final(self).records() == old(self).records().insert(
                destination@,
                old(self).record_of(destination@).after_success(healthy_threshold),
            ),
            final(self).records().dom().finite(),
    {
        let record = match health_get(&self.destinations, destination) {
            Some(record) => record,
            None => DestinationHealth {
                status: HealthStatus::Unknown,
                consecutive_failures: 0,
                consecutive_successes: 0,
            },
        };
        health_insert(&mut self.destinations, owned(destination), record.succeed(healthy_threshold));
    }

    /// Notes that a probe of the destination has failed.
    pub fn record_failure(&mut self, destination: &str, unhealthy_threshold: u32)
        ensures
            final(self).records() == old(self).records().insert(
                destination@,
                old(self).record_of(destination@).after_failure(unhealthy_threshold),
            ),
            final(self).records().dom().finite(),
    {
        let record = match health_get(&self.destinations, destination) {
            Some(record) => record,
            None => DestinationHealth {
                status: HealthStatus::Unknown,
                consecutive_failures: 0,
                consecutive_successes: 0,
            },
        };
        health_insert(&mut self.destinations, owned(destination), record.fail(unhealthy_threshold));
    }

    /// Notes how a probe of the destination ended: `status` is the status
    /// it was answered with, if it was answered in time. Anything but a
    /// success status counts as a failure.
    pub fn record_probe(&mut self, target: &ProbeTarget, status: Option<u16>)
        ensures
            final(self).records() == old(self).records().insert(
                target.destination@,
                if probe_passed(status) {
                    old(self).record_of(target.destination@).after_success(
                        target.healthy_threshold,
                    )
                } else {
                    old(self).record_of(target.destination@).after_failure(
                        target.unhealthy_threshold,
                    )
                },
            ),
    {
        let passed = match status {
            Some(code) => 200 <= code && code < 300,
            None => false,
        };
        if passed {
            self.record_success(target.destination.as_str(), target.healthy_threshold);
        } else {
            self.record_failure(target.destination.as_str(), target.unhealthy_threshold);
        }
    }
}

/// One destination to probe, and how.
#[derive(Debug, Clone, PartialEq, Eq)]
pub struct ProbeTarget {
    pub destination: String,
    /// Where the probe goes: the destination without trailing slashes,
    /// and the health path behind it.
    pub url: String,
    pub interval_seconds: u64,
    pub timeout_seconds: u64,
    pub unhealthy_threshold: u32,
    pub healthy_threshold: u32,
}

/// A probe target as plain values.
pub struct TargetView {
    pub destination: Seq<char>,
    pub url: Seq<char>,
    pub interval_seconds: u64,
    pub timeout_seconds: u64,
    pub unhealthy_threshold: u32,
    pub healthy_threshold: u32,
}

impl View for ProbeTarget {
    type V = TargetView;

    open spec fn view(&self) -> TargetView {
        TargetView {
            destination: self.destination@,
            url: self.url@,
            interval_seconds: self.interval_seconds,
            timeout_seconds: self.timeout_seconds,
            unhealthy_threshold: self.unhealthy_threshold,
            healthy_threshold: self.healthy_threshold,
        }
    }
}

/// The probe targets `ts` as plain values.
pub open spec fn target_views(ts: Seq<ProbeTarget>) -> Seq<TargetView> {
    ts.map_values(|t: ProbeTarget| t@)
}

/// The length of `s` without its trailing slashes.
pub open spec fn stem_len(s: Seq<char>) -> int
    decreases s.len(),
{
    if s.len() > 0 && s.last() == '/' {
        stem_len(s.drop_last())
    } else {
        s.len() as int
    }
}

/// Where a probe of `destination` goes: the destination without trailing
/// slashes, and `path` behind it.
pub open spec fn probe_url(destination: Seq<char>, path: Seq<char>) -> Seq<char> {
    destination.take(stem_len(destination)) + path
}

/// The seconds that the time span `text` stands for, or `fallback`.
pub open spec fn seconds_or(text: Seq<char>, fallback: u64) -> u64 {
    match duration_of(text) {
        Ok(seconds) => seconds,
        Err(_) => fallback,
    }
}

/// The probe of one destination under the health policy `check`: every 30
/// seconds and for 5 seconds at most, where the policy's times cannot be read.
pub open spec fn target_of(destination: Seq<char>, check: HealthCheckConfig) -> TargetView {
    TargetView {
        destination,
        url: probe_url(destination, check.path@),
        interval_seconds: seconds_or(check.interval@, 30),
        timeout_seconds: seconds_or(check.timeout@, 5),
        unhealthy_threshold: check.unhealthy_threshold,
        healthy_threshold: check.healthy_threshold,
    }
}

/// The destinations of a route: those listed, or else the single one, if
/// there is one.
pub open spec fn destinations_of(route: RouteConfig) -> Seq<Seq<char>> {
    if route.destinations@.len() == 0 && route.destination@.len() > 0 {
        seq![route.destination@]
    } else {
        route.destinations@.map_values(|d: String| d@)
    }
}

/// The probes that a route asks for: one for each of its destinations,
/// if it has a health policy.
pub open spec fn route_targets(route: RouteConfig) -> Seq<TargetView> {
    match route.health_check {
        Some(check) => destinations_of(route).map_values(|d: Seq<char>| target_of(d, check)),
        None => Seq::empty(),
    }
}

/// The probes that the first `n` routes ask for, route by route.
pub open spec fn targets_upto(routes: Seq<Arc<RouteConfig>>, n: int) -> Seq<TargetView>
    decreases n,
{
    if n <= 0 {
        Seq::empty()
    } else {
        targets_upto(routes, n - 1) + route_targets(*routes[n - 1])
    }
}

/// The destination without its trailing slashes, and `path` behind it.
pub fn health_url(destination: &str, path: &str) -> (url: String)
    ensures
        url@ == probe_url(destination@, path@),
{
    let v = chars_of(destination);
    let mut end: usize = v.len();
    assert(v@.take(v.len() as int) =~= v@);
    while end > 0 && v[end - 1] == '/'
        invariant
            end <= v.len(),
            stem_len(v@) == stem_len(v@.take(end as int)),
        decreases end,
    {
        assert(v@.take(end as int).drop_last() =~= v@.take(end - 1));
        end -= 1;
    }
    assert(stem_len(v@.take(end as int)) == end);
    let mut url = string_of(&v, 0, end);
    url.append(path);
    assert(v@.subrange(0, end as int) =~= v@.take(end as int));
    url
}

/// The probe of one destination under a health policy.
pub fn probe_target(destination: &str, check: &HealthCheckConfig) -> (target: ProbeTarget)
    ensures
        target@ == target_of(destination@, *check),
{
    let interval_seconds = match parse_duration(check.interval.as_str()) {
        Ok(seconds) => seconds,
        Err(_) => 30,
    };
    let timeout_seconds = match parse_duration(check.timeout.as_str()) {
        Ok(seconds) => seconds,
        Err(_) => 5,
    };
    ProbeTarget {
        destination: owned(destination),
        url: health_url(destination, check.path.as_str()),
        interval_seconds,
        timeout_seconds,
        unhealthy_threshold: check.unhealthy_threshold,
        healthy_threshold: check.healthy_threshold,
    }
}

/// The probes that a configuration asks for: for each route with a health
/// policy, one for each of its destinations, in the order of the
/// configuration.
pub fn health_targets(config: &GatewayConfig) -> (targets: Vec<ProbeTarget>)
    ensures
        target_views(targets@) == targets_upto(config.routes@, config.routes@.len() as int),
{
    let mut targets: Vec<ProbeTarget> = Vec::new();
    assert(target_views(targets@) =~= Seq::<TargetView>::empty());
    let mut i: usize = 0;
    while i < config.routes.len()
        invariant
            i <= config.routes.len(),
            target_views(targets@) == targets_upto(config.routes@, i as int),
        decreases config.routes.len() - i,
    {
        let route = &config.routes[i];
        let ghost before = target_views(targets@);
        if let Some(check) = &route.health_check {
            if route.destinations.len() == 0 && !route.destination.as_str().is_empty() {
                let t = probe_target(route.destination.as_str(), check);
                targets.push(t);
                assert(target_views(targets@) =~= before + route_targets(**route));
            } else {
                let mut j: usize = 0;
                assert(target_views(targets@) =~= before + route_targets(**route).take(0));
                while j < route.destinations.len()
                    invariant
                        j <= route.destinations.len(),
                        route.health_check == Some(*check),
                        !(route.destinations@.len() == 0 && route.destination@.len() > 0),
                        target_views(targets@) == before + route_targets(**route).take(j as int),
                    decreases route.destinations.len() - j,
                {
                    let ghost sofar = target_views(targets@);
                    let t = probe_target(route.destinations[j].as_str(), check);
                    targets.push(t);
                    assert(target_views(targets@) =~= sofar.push(t@));
                    assert(route_targets(**route).take(j + 1) =~= route_targets(**route).take(
                        j as int,
                    ).push(t@));
                    j += 1;
                }
                assert(route_targets(**route).take(route.destinations@.len() as int)
                    =~= route_targets(**route));
            }
        } else {
            assert(before + route_targets(**route) =~= before);
        }
        i += 1;
    }
    targets
}

} // verus!
