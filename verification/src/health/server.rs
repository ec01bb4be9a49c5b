//! What the HTTP endpoints answer.
//!
//! Liveness and readiness are different questions on purpose. A brief outage of
//! an output must not fail liveness: a restart would help nothing. A dead
//! Telegraf must fail readiness at once, because nothing is being collected.

use vstd::prelude::*;
use vstd::string::*;
use crate::clock;
use crate::duration::ConfigDuration;
use crate::health::state::{checks, HealthState, ModuleCheck, State};
use crate::text;

verus! {

/// The HTTP status for success.
pub const HTTP_OK: u16 = 200;

/// The HTTP status for "not yet" or "not any more".
pub const HTTP_UNAVAILABLE: u16 = 503;

/// The content type of the metrics exposition.
pub const METRICS_CONTENT_TYPE: &'static str = "text/plain; version=0.0.4; charset=utf-8";

/// The answer to `GET /health/live`.
#[derive(Debug)]
pub struct Live {
    pub code: u16,
    pub status: &'static str,
    pub state: &'static str,
}

/// What is reported of the Telegraf process.
#[derive(Debug)]
pub struct TelegrafStatus {
    pub running: bool,
    pub pid: Option<u32>,
    pub version: Option<String>,
    /// Why it stopped, when it has.
    pub last_exit: Option<String>,
}

/// The answer to `GET /health/ready`.
#[derive(Debug)]
pub struct Ready {
    pub code: u16,
    pub status: &'static str,
    pub state: &'static str,
    pub telegraf: TelegrafStatus,
}

/// The answer to `GET /status`: diagnostics for a human, not a configuration
/// dump.
#[derive(Debug)]
pub struct Status {
    pub muninn_version: String,
    pub telegraf_version: Option<String>,
    pub state: &'static str,
    pub ready: bool,
    pub uptime_seconds: u64,
    pub telegraf: TelegrafStatus,
    pub telegraf_restarts: u64,
    pub modules: Vec<String>,
    pub outputs: Vec<String>,
    pub module_checks: Vec<ModuleCheckStatus>,
}

#[derive(Debug)]
pub struct ModuleCheckStatus {
    pub module: String,
    pub success: bool,
    pub at: u64,
}

/// The contents of a list of check results.
pub open spec fn check_statuses(list: Seq<ModuleCheckStatus>) -> Seq<(Seq<char>, ModuleCheck)> {
    list.map_values(
        |c: ModuleCheckStatus| (c.module@, ModuleCheck { success: c.success, at: c.at }),
    )
}

/// The HTTP status of the liveness probe.
pub open spec fn live_code(state: State) -> u16 {
    if state.live() {
        HTTP_OK
    } else {
        HTTP_UNAVAILABLE
    }
}

/// The HTTP status of the readiness probe.
pub open spec fn ready_code(state: State) -> u16 {
    if state.ready() {
        HTTP_OK
    } else {
        HTTP_UNAVAILABLE
    }
}

/// An agent that answers ready answers live, and the readiness metric agrees with
/// the probe.
pub proof fn law_the_probes_agree(state: State)
    ensures
        ready_code(state) == HTTP_OK ==> live_code(state) == HTTP_OK,
        ready_code(state) == HTTP_OK <==> crate::health::metrics::bit(state.ready()) == "1"@,
{
    reveal_strlit("0");
    reveal_strlit("1");
    assert("0"@[0] != "1"@[0]);
}

/// Answers the liveness probe.
pub fn live(state: State) -> (r: Live)
    ensures
        r.code == live_code(state),
        r.status@ == (if state.live() {
            "ok"@
        } else {
            "down"@
        }),
        r.state@ == state.name(),
{
    if state.is_live() {
        Live { code: HTTP_OK, status: "ok", state: state.as_str() }
    } else {
        Live { code: HTTP_UNAVAILABLE, status: "down", state: state.as_str() }
    }
}

impl TelegrafStatus {
    /// Whether this is what a state reports of the Telegraf process.
    pub open spec fn reports(self, s: HealthState) -> bool {
        &&& self.running == (s.details.telegraf_pid is Some)
        &&& self.pid == s.details.telegraf_pid
        &&& self.version == s.details.telegraf_version
        &&& self.last_exit == s.details.last_telegraf_exit
    }

    pub fn of(s: &HealthState) -> (r: Self)
        ensures
            r.reports(*s),
    {
        TelegrafStatus {
            running: s.details.telegraf_pid.is_some(),
            pid: s.details.telegraf_pid,
            version: text::copy_optional(&s.details.telegraf_version),
            last_exit: text::copy_optional(&s.details.last_telegraf_exit),
        }
    }
}

/// Answers the readiness probe.
pub fn ready(s: &HealthState) -> (r: Ready)
    ensures
        r.code == ready_code(s.state),
        r.status@ == (if s.state.ready() {
            "ready"@
        } else {
            "not_ready"@
        }),
        r.state@ == s.state.name(),
        r.telegraf.reports(*s),
{
    let telegraf = TelegrafStatus::of(s);
    if s.state.is_ready() {
        Ready { code: HTTP_OK, status: "ready", state: s.state.as_str(), telegraf }
    } else {
        Ready { code: HTTP_UNAVAILABLE, status: "not_ready", state: s.state.as_str(), telegraf }
    }
}

impl Status {
    /// Whether this is what a state reports of itself.
    pub open spec fn reports(self, s: HealthState, version: Seq<char>) -> bool {
        &&& self.muninn_version@ == version
        &&& self.telegraf_version == s.details.telegraf_version
        &&& self.state@ == s.state.name()
        &&& self.ready == s.state.ready()
        &&& self.telegraf.reports(s)
        &&& self.telegraf_restarts == s.telegraf_restarts
        &&& self.modules@ == s.details.modules@
        &&& self.outputs@ == s.details.outputs@
        &&& check_statuses(self.module_checks@) == s.details.module_checks@
    }
}

/// Answers the status request, with the current uptime.
pub fn status(s: &HealthState, muninn_version: &str) -> (r: Status)
    ensures
        r.reports(*s, muninn_version@),
        exists|uptime: ConfigDuration| #[trigger]
            clock::reading(s.started, uptime) && r.uptime_seconds == uptime.secs,
{
    let uptime = s.uptime();
    status_at(s, uptime.as_secs(), muninn_version)
}

/// Answers the status request for a given uptime.
pub fn status_at(s: &HealthState, uptime_seconds: u64, muninn_version: &str) -> (r: Status)
    ensures
        r.reports(*s, muninn_version@),
        r.uptime_seconds == uptime_seconds,
{
    let list = &s.details.module_checks.list;
    let ghost all = s.details.module_checks@;
    let mut results: Vec<ModuleCheckStatus> = Vec::new();
    let mut i: usize = 0;
    while i < list.len()
        invariant
            i <= list.len(),
            all == checks(list@),
            check_statuses(results@) =~= all.subrange(0, i as int),
        decreases list.len() - i,
    {
        let ghost before = check_statuses(results@);
        let result = ModuleCheckStatus {
            module: list[i].0.clone(),
            success: list[i].1.success,
            at: list[i].1.at,
        };
        results.push(result);
        proof {
            assert(check_statuses(results@) =~= before.push((list@[i as int].0@, list@[i as int].1)));
        }
        i += 1;
    }
    proof {
        assert(all.subrange(0, i as int) =~= all);
    }
    Status {
        muninn_version: muninn_version.to_owned(),
        telegraf_version: text::copy_optional(&s.details.telegraf_version),
        state: s.state.as_str(),
        ready: s.state.is_ready(),
        uptime_seconds,
        telegraf: TelegrafStatus::of(s),
        telegraf_restarts: s.telegraf_restarts,
        modules: text::copy_strings(&s.details.modules),
        outputs: text::copy_strings(&s.details.outputs),
        module_checks: results,
    }
}

} // verus!
