//! The bounds of a load test of the route for people: who may run it, where,
//! and what counts as too slow.
use crate::checks::{first_problem, reports, ConfigError};
use crate::text::{cat3, contains_ignoring_case, has_part, lower};
use vstd::prelude::*;

verus! {

/// What the owner of a load test supplies. Nothing here has a default.
#[derive(Debug, Clone, PartialEq, Eq)]
pub struct LoadTestBounds {
    pub environment: String,
    pub human_url: String,
    pub workload_url: String,
    pub requests_per_second: u32,
    pub duration_seconds: u64,
    pub is_named_owner: bool,
}

/// The parts of names that give a production environment away.
pub open spec fn forbidden_markers() -> Seq<Seq<char>> {
    seq!["prod"@, "live"@, "production"@, "public"@]
}

/// Whether a text, in upper or lower case, holds a marker.
pub open spec fn is_marked(text: Seq<char>, marker: Seq<char>) -> bool {
    has_part(lower(text), marker)
}

/// What a marker gives away: the environment, or one of the two targets.
pub open spec fn marker_problem(bounds: LoadTestBounds, i: int) -> Option<Seq<char>> {
    let marker = forbidden_markers()[i];
    let reason =
        "' looks like production; this test runs only in the named non-production environment"@;
    if is_marked(bounds.environment@, marker) {
        Some("environment '"@ + bounds.environment@ + reason)
    } else if is_marked(bounds.human_url@, marker) {
        Some("target '"@ + bounds.human_url@ + reason)
    } else if is_marked(bounds.workload_url@, marker) {
        Some("target '"@ + bounds.workload_url@ + reason)
    } else {
        None
    }
}

/// Why a load test may not run.
pub open spec fn guard_problem(bounds: LoadTestBounds) -> Option<Seq<char>> {
    if !bounds.is_named_owner {
        Some(
            "this test may only be run by the named owner; pass --i-am-the-named-owner to affirm that"@,
        )
    } else if bounds.requests_per_second == 0 || bounds.duration_seconds == 0 {
        Some("requests-per-second and duration-seconds must be greater than zero"@)
    } else {
        first_problem(|i: int| marker_problem(bounds, i), 0, 4)
    }
}

fn check_marker(bounds: &LoadTestBounds, marker: &str, Ghost(i): Ghost<int>) -> (r: Result<
    (),
    ConfigError,
>)
    requires
        0 <= i < 4,
        marker@ == forbidden_markers()[i],
    ensures
        reports(r, marker_problem(*bounds, i)),
{
    let reason =
        "' looks like production; this test runs only in the named non-production environment";
    if contains_ignoring_case(bounds.environment.as_str(), marker) {
        return Err(
            ConfigError::new(cat3("environment '", bounds.environment.as_str(), reason)),
        );
    }
    if contains_ignoring_case(bounds.human_url.as_str(), marker) {
        return Err(ConfigError::new(cat3("target '", bounds.human_url.as_str(), reason)));
    }
    if contains_ignoring_case(bounds.workload_url.as_str(), marker) {
        return Err(ConfigError::new(cat3("target '", bounds.workload_url.as_str(), reason)));
    }
    Ok(())
}

/// Refuses a load test unless its owner has supplied every bound and its target
/// is no production environment.
pub fn guard(bounds: &LoadTestBounds) -> (r: Result<(), ConfigError>)
    ensures
        reports(r, guard_problem(*bounds)),
{
    if !bounds.is_named_owner {
        return Err(
            ConfigError::new(
                "this test may only be run by the named owner; pass --i-am-the-named-owner to affirm that".to_owned(),
            ),
        );
    }
    if bounds.requests_per_second == 0 || bounds.duration_seconds == 0 {
        return Err(
            ConfigError::new(
                "requests-per-second and duration-seconds must be greater than zero".to_owned(),
            ),
        );
    }
    let ghost check = |i: int| marker_problem(*bounds, i);
    let markers = vec!["prod", "live", "production", "public"];
    let mut i: usize = 0;
    while i < 4
        invariant
            i <= 4,
            markers@.len() == 4,
            markers@[0]@ == "prod"@,
            markers@[1]@ == "live"@,
            markers@[2]@ == "production"@,
            markers@[3]@ == "public"@,
            bounds.is_named_owner,
            bounds.requests_per_second != 0,
            bounds.duration_seconds != 0,
            check == (|i: int| marker_problem(*bounds, i)),
            first_problem(check, 0, 4) == first_problem(check, i as int, 4),
        decreases 4 - i,
    {
        let outcome = check_marker(bounds, markers[i], Ghost(i as int));
        if outcome.is_err() {
            return outcome;
        }
        i = i + 1;
    }
    Ok(())
}

/// The latency that a share of the requests, in hundredths, stays within: of
/// latencies in increasing order the one at that share of their number, or the
/// last. Without latencies it is zero.
pub fn percentile(sorted: &Vec<u64>, share: usize) -> (r: u64)
    requires
        sorted@.len() * share <= usize::MAX,
    ensures
        sorted@.len() == 0 ==> r == 0,
        sorted@.len() > 0 ==> ({
            let index = sorted@.len() * share / 100;
            r == (if index < sorted@.len() {
                sorted@[index]
            } else {
                sorted@.last()
            })
        }),
{
    if sorted.len() == 0 {
        return 0;
    }
    let index: usize = sorted.len() * share / 100;
    if index < sorted.len() {
        sorted[index]
    } else {
        sorted[sorted.len() - 1]
    }
}

/// By how much a latency has grown, and whether that is more than the permitted
/// milliseconds. Latencies are in nanoseconds.
pub fn latency_increase(baseline: u64, under_load: u64, permitted_ms: u64) -> (r: (u64, bool))
    ensures
        r.0 == (if under_load > baseline {
            under_load - baseline
        } else {
            0
        }),
        r.1 == (r.0 > permitted_ms * 1_000_000),
{
    let increase: u64 = if under_load > baseline {
        under_load - baseline
    } else {
        0
    };
    let permitted: u128 = (permitted_ms as u128) * 1_000_000;
    (increase, (increase as u128) > permitted)
}

} // verus!
