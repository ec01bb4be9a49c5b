//! muninn's own operational metrics, in Prometheus text format.
//!
//! These describe the agent, not the host: whether Telegraf is running, how long
//! generation took, whether each module's last self-check succeeded. They are
//! worth reading precisely when Telegraf is not running, so muninn serves them
//! itself.
//!
//! Labels are version, state and module name: never an error string, a path or a
//! process id, which would start a new time series on every restart.

use vstd::prelude::*;
use vstd::string::*;
use crate::clock;
use crate::duration::ConfigDuration;
use crate::health::state::{HealthState, ModuleCheck, ModuleChecks};
use crate::text;

verus! {

/// What `Duration::as_secs_f64` displays as, for so many seconds and nanoseconds.
pub uninterp spec fn seconds_text(secs: u64, nanos: u32) -> Seq<char>;

/// `Duration::as_secs_f64` gives a span as a fractional number of seconds, shown
/// with the fewest digits that tell it apart. The text depends on the span alone.
#[verifier::external_body]
fn show_seconds(secs: u64, nanos: u32) -> (r: String)
    ensures
        r@ == seconds_text(secs, nanos),
{
    let span = std::time::Duration::from_secs(secs)
        .saturating_add(std::time::Duration::from_nanos(u64::from(nanos)));
    span.as_secs_f64().to_string()
}

/// One character of a label value.
pub open spec fn escaped_char(c: char) -> Seq<char> {
    if c == '\\' {
        "\\\\"@
    } else if c == '"' {
        "\\\""@
    } else if c == '\n' {
        "\\n"@
    } else {
        seq![c]
    }
}

/// A label value with backslashes, quotes and line ends escaped.
pub open spec fn escaped(value: Seq<char>) -> Seq<char>
    decreases value.len(),
{
    if value.len() == 0 {
        Seq::empty()
    } else {
        escaped(value.drop_last()) + escaped_char(value.last())
    }
}

/// Escapes a label value, so that it cannot break the exposition format.
pub fn escape(value: &str) -> (r: String)
    ensures
        r@ == escaped(value@),
{
    let c = text::chars_of(value);
    let mut out = String::new();
    let mut i: usize = 0;
    while i < c.len()
        invariant
            c@ == value@,
            i <= c.len(),
            out@ == escaped(value@.subrange(0, i as int)),
        decreases c.len() - i,
    {
        proof {
            assert(value@.subrange(0, i + 1).drop_last() =~= value@.subrange(0, i as int));
        }
        let ghost before = out@;
        if c[i] == '\\' {
            out.append("\\\\");
        } else if c[i] == '"' {
            out.append("\\\"");
        } else if c[i] == '\n' {
            out.append("\\n");
        } else {
            out.push(c[i]);
            proof {
                assert(out@ =~= before + seq![value@[i as int]]);
            }
        }
        i += 1;
    }
    proof {
        assert(value@.subrange(0, i as int) =~= value@);
    }
    out
}

/// The two lines that introduce a family.
pub open spec fn intro(name: Seq<char>, kind: Seq<char>, about: Seq<char>) -> Seq<char> {
    "# HELP "@ + name + " "@ + about + "\n# TYPE "@ + name + " "@ + kind + "\n"@
}

fn help(name: &str, kind: &str, about: &str) -> (r: String)
    ensures
        r@ == intro(name@, kind@, about@),
{
    let mut out = text::cat7("# HELP ", name, " ", about, "\n# TYPE ", name, " ");
    out.append(kind);
    out.append("\n");
    out
}

pub open spec fn bit(b: bool) -> Seq<char> {
    if b {
        "1"@
    } else {
        "0"@
    }
}

fn bool_value(b: bool) -> (r: &'static str)
    ensures
        r@ == bit(b),
{
    if b {
        "1"
    } else {
        "0"
    }
}

/// A family with one series without labels.
pub open spec fn single(
    name: Seq<char>,
    kind: Seq<char>,
    about: Seq<char>,
    value: Seq<char>,
) -> Seq<char> {
    intro(name, kind, about) + name + " "@ + value + "\n"@
}

fn write_single(name: &str, kind: &str, about: &str, value: &str) -> (r: String)
    ensures
        r@ == single(name@, kind@, about@, value@),
{
    text::cat5(&help(name, kind, about), name, " ", value, "\n")
}

pub open spec fn version_or_unknown(version: Option<String>) -> Seq<char> {
    match version {
        Some(v) => v@,
        None => "unknown"@,
    }
}

pub open spec fn info_family(version: Seq<char>, telegraf: Seq<char>) -> Seq<char> {
    intro("muninn_info"@, "gauge"@, "Build information."@) + "muninn_info{version=\""@ + escaped(
        version,
    ) + "\",telegraf_version=\""@ + escaped(telegraf) + "\"} 1\n"@
}

pub open spec fn state_family(state: Seq<char>) -> Seq<char> {
    intro(
        "muninn_state"@,
        "gauge"@,
        "Current supervisor state, as a label; the value is always 1."@,
    ) + "muninn_state{state=\""@ + escaped(state) + "\"} 1\n"@
}

/// A duration family; nothing at all where the step has not run, since zero would
/// read as "instantaneous".
pub open spec fn duration_family(
    name: Seq<char>,
    about: Seq<char>,
    d: Option<ConfigDuration>,
) -> Seq<char> {
    match d {
        Some(d) => single(name, "gauge"@, about, seconds_text(d.secs, d.nanos)),
        None => Seq::empty(),
    }
}

fn write_duration(name: &str, about: &str, d: &Option<ConfigDuration>) -> (r: String)
    ensures
        r@ == duration_family(name@, about@, *d),
{
    match d {
        Some(d) => write_single(name, "gauge", about, &show_seconds(d.secs, d.nanos)),
        None => String::new(),
    }
}

/// One series per module: whether its check succeeded.
pub open spec fn success_series(list: Seq<(Seq<char>, ModuleCheck)>) -> Seq<char>
    decreases list.len(),
{
    if list.len() == 0 {
        Seq::empty()
    } else {
        success_series(list.drop_last()) + "muninn_module_check_success{module=\""@ + escaped(
            list.last().0,
        ) + "\"} "@ + bit(list.last().1.success) + "\n"@
    }
}

/// One series per module: when it was checked.
pub open spec fn timestamp_series(list: Seq<(Seq<char>, ModuleCheck)>) -> Seq<char>
    decreases list.len(),
{
    if list.len() == 0 {
        Seq::empty()
    } else {
        timestamp_series(list.drop_last())
            + "muninn_module_check_timestamp_seconds{module=\""@ + escaped(list.last().0)
            + "\"} "@ + text::decimal(list.last().1.at as nat) + "\n"@
    }
}

/// The families about module self-checks; nothing where there was none.
pub open spec fn check_families(list: Seq<(Seq<char>, ModuleCheck)>) -> Seq<char> {
    if list.len() == 0 {
        Seq::empty()
    } else {
        intro(
            "muninn_module_check_success"@,
            "gauge"@,
            "1 when a module's last self-check succeeded."@,
        ) + success_series(list) + intro(
            "muninn_module_check_timestamp_seconds"@,
            "gauge"@,
            "When a module last completed a self-check."@,
        ) + timestamp_series(list)
    }
}

fn write_checks(checks: &ModuleChecks) -> (r: String)
    ensures
        r@ == check_families(checks@),
{
    let ghost all = checks@;
    if checks.is_empty() {
        return String::new();
    }
    let mut success = String::new();
    let mut stamps = String::new();
    let mut i: usize = 0;
    while i < checks.list.len()
        invariant
            i <= checks.list.len(),
            all == checks@,
            success@ == success_series(all.subrange(0, i as int)),
            stamps@ == timestamp_series(all.subrange(0, i as int)),
        decreases checks.list.len() - i,
    {
        proof {
            let next = all.subrange(0, i + 1);
            assert(next.drop_last() =~= all.subrange(0, i as int));
            assert(next.last() == (checks.list@[i as int].0@, checks.list@[i as int].1));
        }
        let label = escape(&checks.list[i].0);
        success.append("muninn_module_check_success{module=\"");
        success.append(&label);
        success.append("\"} ");
        success.append(bool_value(checks.list[i].1.success));
        success.append("\n");
        stamps.append("muninn_module_check_timestamp_seconds{module=\"");
        stamps.append(&label);
        stamps.append("\"} ");
        stamps.append(&text::decimal_of(checks.list[i].1.at as u128));
        stamps.append("\n");
        i += 1;
    }
    proof {
        assert(all.subrange(0, i as int) =~= all);
    }
    text::cat4(
        &help(
            "muninn_module_check_success",
            "gauge",
            "1 when a module's last self-check succeeded.",
        ),
        &success,
        &help(
            "muninn_module_check_timestamp_seconds",
            "gauge",
            "When a module last completed a self-check.",
        ),
        &stamps,
    )
}

/// The whole exposition.
pub open spec fn exposition(s: HealthState, uptime: ConfigDuration, version: Seq<char>) -> Seq<char> {
    info_family(version, version_or_unknown(s.details.telegraf_version))
        + state_family(s.state.name())
        + single(
        "muninn_uptime_seconds"@,
        "gauge"@,
        "Process uptime."@,
        seconds_text(uptime.secs, uptime.nanos),
    )
        + single(
        "muninn_ready"@,
        "gauge"@,
        "1 when /health/ready would succeed."@,
        bit(s.state.ready()),
    )
        + single(
        "muninn_telegraf_running"@,
        "gauge"@,
        "1 when Telegraf is running as a supervised child."@,
        bit(s.details.telegraf_pid is Some),
    )
        + single(
        "muninn_telegraf_restarts_total"@,
        "counter"@,
        "Times Telegraf has been restarted by muninn. Zero unless a bounded restart policy is enabled."@,
        text::decimal(s.telegraf_restarts as nat),
    )
        + duration_family(
        "muninn_config_generation_duration_seconds"@,
        "Time taken to render the Telegraf configuration."@,
        s.details.config_generation,
    )
        + duration_family(
        "muninn_telegraf_validation_duration_seconds"@,
        "Time taken by `telegraf config check`."@,
        s.details.telegraf_validation,
    )
        + check_families(s.details.module_checks@)
}

/// Renders the `muninn_*` families, with the current uptime.
pub fn render(state: &HealthState, muninn_version: &str) -> (r: String)
    ensures
        exists|uptime: ConfigDuration|
            clock::reading(state.started, uptime) && r@ == #[trigger] exposition(
                *state,
                uptime,
                muninn_version@,
            ),
{
    let uptime = state.uptime();
    render_at(state, &uptime, muninn_version)
}

/// Renders the `muninn_*` families for a given uptime.
pub fn render_at(state: &HealthState, uptime: &ConfigDuration, muninn_version: &str) -> (r: String)
    ensures
        r@ == exposition(*state, *uptime, muninn_version@),
{
    let details = &state.details;
    let telegraf_version = match &details.telegraf_version {
        Some(v) => v.as_str(),
        None => "unknown",
    };
    let mut out = text::cat6(
        &help("muninn_info", "gauge", "Build information."),
        "muninn_info{version=\"",
        &escape(muninn_version),
        "\",telegraf_version=\"",
        &escape(telegraf_version),
        "\"} 1\n",
    );
    out.append(
        &text::cat4(
            &help(
                "muninn_state",
                "gauge",
                "Current supervisor state, as a label; the value is always 1.",
            ),
            "muninn_state{state=\"",
            &escape(state.state.as_str()),
            "\"} 1\n",
        ),
    );
    out.append(
        &write_single(
            "muninn_uptime_seconds",
            "gauge",
            "Process uptime.",
            &show_seconds(uptime.secs, uptime.nanos),
        ),
    );
    out.append(
        &write_single(
            "muninn_ready",
            "gauge",
            "1 when /health/ready would succeed.",
            bool_value(state.state.is_ready()),
        ),
    );
    out.append(
        &write_single(
            "muninn_telegraf_running",
            "gauge",
            "1 when Telegraf is running as a supervised child.",
            bool_value(details.telegraf_pid.is_some()),
        ),
    );
    out.append(
        &write_single(
            "muninn_telegraf_restarts_total",
            "counter",
            "Times Telegraf has been restarted by muninn. Zero unless a bounded restart policy is enabled.",
            &text::decimal_of(state.telegraf_restarts as u128),
        ),
    );
    out.append(
        &write_duration(
            "muninn_config_generation_duration_seconds",
            "Time taken to render the Telegraf configuration.",
            &details.config_generation,
        ),
    );
    out.append(
        &write_duration(
            "muninn_telegraf_validation_duration_seconds",
            "Time taken by `telegraf config check`.",
            &details.telegraf_validation,
        ),
    );
    out.append(&write_checks(&details.module_checks));
    out
}

/// An escaped label value holds no line end, so a series stays on its line.
pub proof fn law_an_escaped_label_holds_no_line_end(value: Seq<char>)
    ensures
        !escaped(value).contains('\n'),
    decreases value.len(),
{
    reveal_strlit("\\\\");
    reveal_strlit("\\\"");
    reveal_strlit("\\n");
    if value.len() > 0 {
        law_an_escaped_label_holds_no_line_end(value.drop_last());
        let (a, b) = (escaped(value.drop_last()), escaped_char(value.last()));
        assert(!b.contains('\n'));
        assert forall|i: int| 0 <= i < (a + b).len() implies (a + b)[i] != '\n' by {
            if i < a.len() {
                assert(a.contains(a[i]));
            } else {
                assert(b.contains(b[i - a.len()]));
            }
        }
    }
}

/// Neither the process id nor the text of the last exit shows in the exposition:
/// two states that differ in nothing else read the same.
pub proof fn law_no_series_carries_a_pid_or_an_error(
    a: HealthState,
    b: HealthState,
    uptime: ConfigDuration,
    version: Seq<char>,
)
    requires
        a.state == b.state,
        a.telegraf_restarts == b.telegraf_restarts,
        a.details.telegraf_version == b.details.telegraf_version,
        a.details.telegraf_pid is Some == b.details.telegraf_pid is Some,
        a.details.config_generation == b.details.config_generation,
        a.details.telegraf_validation == b.details.telegraf_validation,
        a.details.module_checks@ == b.details.module_checks@,
    ensures
        exposition(a, uptime, version) == exposition(b, uptime, version),
{
}

} // verus!
