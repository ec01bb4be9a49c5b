//! The `[agent]` section.
//!
//! Every option is stated, also where it is Telegraf's own default: the generated
//! file is what an operator reads when a metric is missing.

use vstd::prelude::*;
use vstd::string::*;
use crate::config::model::LogLevel;
use crate::config::normalised::Config;
use crate::modules::RenderContext;
use crate::telegraf::model::{Telegraf, TelegrafConfig, Toml, TomlValue};

verus! {

/// Telegraf's own defaults for the two buffering options that are not exposed.
pub const METRIC_BATCH_SIZE: i64 = 1000;

pub const METRIC_BUFFER_LIMIT: i64 = 10000;

/// The agent options of a configuration, in order.
pub open spec fn options(c: Config) -> Seq<(Seq<char>, Toml)> {
    let level = c.logging.level;
    seq![
        ("interval"@, Toml::Text(c.agent.interval.telegraf())),
        ("round_interval"@, Toml::Flag(true)),
        ("metric_batch_size"@, Toml::Whole(1000)),
        ("metric_buffer_limit"@, Toml::Whole(10000)),
        ("collection_jitter"@, Toml::Text("0s"@)),
        ("flush_interval"@, Toml::Text(c.agent.flush_interval.telegraf())),
        ("flush_jitter"@, Toml::Text("0s"@)),
        ("precision"@, Toml::Text(""@)),
        ("hostname"@, Toml::Text(c.agent.hostname@)),
        ("omit_hostname"@, Toml::Flag(c.agent.omit_hostname)),
        ("debug"@, Toml::Flag(level == LogLevel::Trace || level == LogLevel::Debug)),
        ("quiet"@, Toml::Flag(level == LogLevel::Warn || level == LogLevel::Error)),
        ("logfile"@, Toml::Text(""@)),
        ("skip_processors_after_aggregators"@, Toml::Flag(true)),
    ]
}

/// A configuration with nothing but the agent section.
pub open spec fn section(c: Config) -> Telegraf {
    Telegraf { agent: options(c), inputs: Seq::empty(), outputs: Seq::empty() }
}

pub fn render(ctx: &RenderContext<'_>) -> (r: TelegrafConfig)
    ensures
        r@ == section(*ctx.config),
{
    let agent = &ctx.config.agent;
    let (debug, quiet) = ctx.config.logging.level.telegraf_flags();
    let r = TelegrafConfig::new()
        .agent_option("interval", TomlValue::text(&agent.interval.as_telegraf()))
        // Aligned, so metrics from a fleet land on the same timestamps.
        .agent_option("round_interval", TomlValue::flag(true))
        .agent_option("metric_batch_size", TomlValue::integer(METRIC_BATCH_SIZE))
        .agent_option("metric_buffer_limit", TomlValue::integer(METRIC_BUFFER_LIMIT))
        // Jitter spreads load across many agents; this is one.
        .agent_option("collection_jitter", TomlValue::text("0s"))
        .agent_option("flush_interval", TomlValue::text(&agent.flush_interval.as_telegraf()))
        .agent_option("flush_jitter", TomlValue::text("0s"))
        // Empty means "the output's own precision".
        .agent_option("precision", TomlValue::text(""))
        .agent_option("hostname", TomlValue::text(&agent.hostname))
        .agent_option("omit_hostname", TomlValue::flag(agent.omit_hostname))
        .agent_option("debug", TomlValue::flag(debug))
        .agent_option("quiet", TomlValue::flag(quiet))
        // Empty means stdout, which muninn captures.
        .agent_option("logfile", TomlValue::text(""))
        // Stated because Telegraf changes this default.
        .agent_option("skip_processors_after_aggregators", TomlValue::flag(true));
    proof {
        assert(r@.agent =~= options(*ctx.config));
    }
    r
}

} // verus!
