//! Engine for declarative multi-repository release plans: a tagged action
//! vocabulary over three external domains (package registry, hosted
//! repositories, local checkouts), a shell-script compiler and a direct
//! execution model that agree on the commands they issue, a rate-limited
//! paginated registry client, and a lossless plan document codec.

use vstd::prelude::*;

pub mod actions;
pub mod agreement;
pub mod cli;
pub mod compile;
pub mod crates_io;
pub mod execute;
pub mod config;
pub mod health_checks;
pub mod json;
pub mod manifest;
pub mod plan_doc;
pub mod runner;
pub mod shell;
pub mod text;
pub mod workflow;

verus! {

/// Minimum spacing between two registry API calls, in milliseconds.
pub const CRATES_IO_MIN_INTERVAL_MS: u64 = 1000;

/// Process-wide execution state threaded through every interpretation call:
/// the resolved binary names for the external tools, and the throttle clock
/// for registry calls (milliseconds on the caller's monotonic clock).
pub struct Context {
    pub cargo_bin: Option<String>,
    pub gh_bin: Option<String>,
    /// Instant at which the previous registry call was allowed to begin;
    /// `None` when no registry call has been made yet.
    pub last_crates_io_call_ms: Option<u64>,
}

/// The package-manager binary the interpreters invoke for registry actions.
pub open spec fn spec_cargo_bin(c: Context) -> Seq<char> {
    match c.cargo_bin {
        Some(p) => p@,
        None => "cargo"@,
    }
}

/// The repository-hosting CLI binary the interpreters invoke.
pub open spec fn spec_gh_bin(c: Context) -> Seq<char> {
    match c.gh_bin {
        Some(p) => p@,
        None => "gh"@,
    }
}

/// How long a registry call arriving at `now_ms` must wait so that it begins
/// no earlier than one minimum interval after the previous call began, and
/// the begin instant it is then granted.
pub open spec fn spec_throttle(last: Option<u64>, now_ms: u64) -> (u64, u64) {
    match last {
        None => (0u64, now_ms),
        Some(l) => if now_ms >= l + CRATES_IO_MIN_INTERVAL_MS {
            (0u64, now_ms)
        } else {
            (
                (l + CRATES_IO_MIN_INTERVAL_MS - now_ms) as u64,
                (l + CRATES_IO_MIN_INTERVAL_MS) as u64,
            )
        },
    }
}

impl Context {
    /// A fresh context: default tool names, no registry call recorded yet.
    pub fn new() -> (r: Context)
        ensures
            r.cargo_bin is None,
            r.gh_bin is None,
            r.last_crates_io_call_ms is None,
    {
        Context { cargo_bin: None, gh_bin: None, last_crates_io_call_ms: None }
    }

    /// Resolved package-manager binary (defaults to "cargo").
    pub fn cargo_bin_name(&self) -> (r: String)
        ensures
            r@ == spec_cargo_bin(*self),
    {
        match &self.cargo_bin {
            Some(p) => p.clone(),
            None => "cargo".to_owned(),
        }
    }

    /// Resolved repository-hosting CLI binary (defaults to "gh").
    pub fn gh_bin_name(&self) -> (r: String)
        ensures
            r@ == spec_gh_bin(*self),
    {
        match &self.gh_bin {
            Some(p) => p.clone(),
            None => "gh".to_owned(),
        }
    }

    /// Throttle gate consulted before every registry HTTP call. `now_ms` is
    /// the caller's monotonic clock reading; the result is how many
    /// milliseconds the caller must sleep before issuing the call. The
    /// recorded begin instant moves to `now_ms + wait`.
    pub fn registry_throttle(&mut self, now_ms: u64) -> (wait: u64)
        requires
            old(self).last_crates_io_call_ms matches Some(l) ==> now_ms >= l,
            now_ms <= u64::MAX - CRATES_IO_MIN_INTERVAL_MS,
        ensures
            (wait, (now_ms + wait) as u64) == spec_throttle(
                old(self).last_crates_io_call_ms,
                now_ms,
            ),
            final(self).last_crates_io_call_ms == Some((now_ms + wait) as u64),
            final(self).cargo_bin == old(self).cargo_bin,
            final(self).gh_bin == old(self).gh_bin,
    {
        let wait: u64 = match self.last_crates_io_call_ms {
            None => 0,
            Some(l) => {
                if now_ms - l >= CRATES_IO_MIN_INTERVAL_MS {
                    0
                } else {
                    l + CRATES_IO_MIN_INTERVAL_MS - now_ms
                }
            },
        };
        self.last_crates_io_call_ms = Some(now_ms + wait);
        wait
    }
}

/// Registry pacing: however the clock advances between two back-to-back
/// registry calls, the begin instant granted to the second lies at least one
/// minimum interval after the begin instant granted to the first.
pub proof fn lemma_throttle_min_spacing(last: Option<u64>, now1: u64, now2: u64)
    requires
        last matches Some(l) ==> now1 >= l,
        now1 <= u64::MAX - CRATES_IO_MIN_INTERVAL_MS,
        now2 <= u64::MAX - CRATES_IO_MIN_INTERVAL_MS,
        now2 >= spec_throttle(last, now1).1,
    ensures
        spec_throttle(Some(spec_throttle(last, now1).1), now2).1 >= spec_throttle(
            last,
            now1,
        ).1 + CRATES_IO_MIN_INTERVAL_MS,
{
}

} // verus!
