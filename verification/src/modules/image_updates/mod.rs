//! Whether a newer image is available, under the tag it is running, for every
//! running container.
//!
//! Telegraf has no plugin that can answer this, so the rendered plugin runs
//! muninn again. A container whose image cannot be judged says so on its own
//! series and stops neither the others' verdicts nor muninn.

pub mod check;
pub mod docker_api;
pub mod registry_auth;

pub use crate::modules::inputs::Module::ImageUpdates;

use vstd::prelude::*;
use vstd::string::*;
use crate::config::normalised::Config;
use crate::duration::ConfigDuration;
use crate::modules::inputs::RANK_IMAGE_UPDATES;
use crate::modules::updates::{one_command, MUNINN_BINARY};
use crate::telegraf::model::{bare, word_list, Plugin, PluginInstance, Section, Toml, TomlValue};
use crate::text;

verus! {

/// The subcommand that performs the check.
pub const CHECK_SUBCOMMAND: &'static str = "image-check";

/// The upper bound on how long one run may take, in seconds, whatever the
/// interval says.
pub const MAX_BUDGET_SECS: u64 = 300;

/// How much longer Telegraf waits than the check's own budget, in seconds.
pub const EXEC_TIMEOUT_MARGIN_SECS: u64 = 15;

/// Half of a span.
pub open spec fn half(d: ConfigDuration) -> ConfigDuration {
    ConfigDuration {
        secs: d.secs / 2,
        nanos: (((d.secs % 2) as int * 1_000_000_000 + d.nanos) / 2) as u32,
    }
}

/// Half the interval, up to the cap.
pub open spec fn budget_of(interval: ConfigDuration) -> ConfigDuration {
    let cap = ConfigDuration { secs: MAX_BUDGET_SECS, nanos: 0 };
    if half(interval).below(cap) {
        half(interval)
    } else {
        cap
    }
}

/// How long one run may take: half the interval, up to the cap. A check that
/// cannot finish within half its own schedule is going to overlap itself.
pub fn budget(interval: ConfigDuration) -> (r: ConfigDuration)
    ensures
        r == budget_of(interval),
        interval.wf() ==> r.wf(),
{
    let halved = ConfigDuration {
        secs: interval.secs / 2,
        nanos: (((interval.secs % 2) * 1_000_000_000 + (interval.nanos as u64)) / 2) as u32,
    };
    let cap = ConfigDuration::from_secs(MAX_BUDGET_SECS);
    if halved.shorter_than(&cap) {
        halved
    } else {
        cap
    }
}

/// The time Telegraf gives a run.
pub open spec fn exec_timeout_of(interval: ConfigDuration) -> ConfigDuration {
    ConfigDuration {
        secs: (budget_of(interval).secs + EXEC_TIMEOUT_MARGIN_SECS) as u64,
        nanos: budget_of(interval).nanos,
    }
}

/// The `inputs.exec` timeout that goes with [`budget`]: always the larger, so that
/// a check runs out of its own time, and reports what it has, before Telegraf
/// kills it.
pub fn exec_timeout(interval: ConfigDuration) -> (r: ConfigDuration)
    ensures
        r == exec_timeout_of(interval),
        interval.wf() ==> r.wf(),
{
    let b = budget(interval);
    ConfigDuration { secs: b.secs + EXEC_TIMEOUT_MARGIN_SECS, nanos: b.nanos }
}

/// Telegraf always waits longer than the check budgets for itself, and the budget
/// is never more than the cap or than half the interval.
pub proof fn law_telegraf_outlasts_the_budget(interval: ConfigDuration)
    ensures
        budget_of(interval).below(exec_timeout_of(interval)),
        budget_of(interval).secs <= MAX_BUDGET_SECS,
        interval.wf() ==> 2 * (budget_of(interval).secs * 1_000_000_000
            + budget_of(interval).nanos) <= interval.secs * 1_000_000_000 + interval.nanos,
{
    let d = interval;
    let n = ((d.secs % 2) as int * 1_000_000_000 + d.nanos) / 2;
    assert(n <= u32::MAX);
    assert(half(d).nanos == n);
    assert(2 * (half(d).secs * 1_000_000_000 + half(d).nanos) <= d.secs * 1_000_000_000 + d.nanos);
    if d.wf() && !half(d).below(
        ConfigDuration { secs: MAX_BUDGET_SECS, nanos: 0 },
    ) {
        assert(half(d).secs >= MAX_BUDGET_SECS);
    }
}

/// `list` with a flag and a pattern for each of the first `n` patterns.
pub open spec fn with_flags(
    list: Seq<Seq<char>>,
    flag: Seq<char>,
    patterns: Seq<Seq<char>>,
    n: int,
) -> Seq<Seq<char>>
    decreases n,
{
    if n <= 0 {
        list
    } else {
        with_flags(list, flag, patterns, n - 1).push(flag).push(patterns[n - 1])
    }
}

fn push_flags(list: &mut Vec<String>, flag: &str, patterns: &Vec<String>)
    ensures
        text::texts(final(list)@) == with_flags(
            text::texts(old(list)@),
            flag@,
            text::texts(patterns@),
            patterns@.len() as int,
        ),
{
    let ghost all = text::texts(patterns@);
    let mut i: usize = 0;
    while i < patterns.len()
        invariant
            i <= patterns.len(),
            all == text::texts(patterns@),
            text::texts(list@) == with_flags(text::texts(old(list)@), flag@, all, i as int),
        decreases patterns.len() - i,
    {
        proof {
            assert(all[i as int] == patterns@[i as int]@);
        }
        text::note(list, flag.to_owned());
        text::note(list, patterns[i].clone());
        i += 1;
    }
}

/// The command line of the check.
pub open spec fn command_line(c: Config) -> Seq<Seq<char>> {
    let m = c.modules.image_updates;
    let list = seq![
        MUNINN_BINARY@,
        CHECK_SUBCOMMAND@,
        "--endpoint"@,
        m.endpoint@,
        "--timeout-secs"@,
        text::decimal(m.timeout.secs as nat),
        "--registry-timeout-secs"@,
        text::decimal(m.registry_timeout.secs as nat),
        "--budget-secs"@,
        text::decimal(budget_of(m.interval).secs as nat),
    ];
    let list = with_flags(
        list,
        "--include"@,
        text::texts(m.container_include@),
        m.container_include@.len() as int,
    );
    with_flags(
        list,
        "--exclude"@,
        text::texts(m.container_exclude@),
        m.container_exclude@.len() as int,
    )
}

/// The plugin that runs the check.
pub open spec fn image_updates_plugin(c: Config) -> Plugin {
    let m = c.modules.image_updates;
    bare(Section::Input, "exec"@, RANK_IMAGE_UPDATES)
        .noted("module: "@ + "image_updates"@)
        .with("commands"@, Toml::List(seq![word_list(command_line(c))]))
        .with("interval"@, Toml::Text(m.interval.telegraf()))
        .with("timeout"@, Toml::Text(exec_timeout_of(m.interval).telegraf()))
        .with("data_format"@, Toml::Text("influx"@))
        .with("ignore_error"@, Toml::Flag(false))
}

/// Renders the plugin that runs the check.
pub fn render_image_updates(c: &Config) -> (r: PluginInstance)
    ensures
        r@ == image_updates_plugin(*c),
{
    let m = &c.modules.image_updates;
    let mut command: Vec<String> = Vec::new();
    proof {
        assert(text::texts(command@) =~= Seq::<Seq<char>>::empty());
    }
    text::note(&mut command, MUNINN_BINARY.to_owned());
    text::note(&mut command, CHECK_SUBCOMMAND.to_owned());
    text::note(&mut command, "--endpoint".to_owned());
    text::note(&mut command, m.endpoint.clone());
    text::note(&mut command, "--timeout-secs".to_owned());
    text::note(&mut command, text::decimal_of(m.timeout.as_secs() as u128));
    text::note(&mut command, "--registry-timeout-secs".to_owned());
    text::note(&mut command, text::decimal_of(m.registry_timeout.as_secs() as u128));
    text::note(&mut command, "--budget-secs".to_owned());
    text::note(&mut command, text::decimal_of(budget(m.interval).as_secs() as u128));
    let ghost base = text::texts(command@);
    push_flags(&mut command, "--include", &m.container_include);
    push_flags(&mut command, "--exclude", &m.container_exclude);
    proof {
        assert(base =~= seq![
            MUNINN_BINARY@,
            CHECK_SUBCOMMAND@,
            "--endpoint"@,
            m.endpoint@,
            "--timeout-secs"@,
            text::decimal(m.timeout.secs as nat),
            "--registry-timeout-secs"@,
            text::decimal(m.registry_timeout.secs as nat),
            "--budget-secs"@,
            text::decimal(budget_of(m.interval).secs as nat),
        ]);
        assert(text::texts(command@) == command_line(*c));
    }
    PluginInstance::input("exec", RANK_IMAGE_UPDATES)
        .from_module("image_updates")
        .scalar("commands", one_command(&command))
        // Its own schedule: registry lookups are rate-limited.
        .scalar("interval", TomlValue::text(&m.interval.as_telegraf()))
        .scalar("timeout", TomlValue::text(&exec_timeout(m.interval).as_telegraf()))
        .scalar("data_format", TomlValue::text("influx"))
        .scalar("ignore_error", TomlValue::flag(false))
}

} // verus!
