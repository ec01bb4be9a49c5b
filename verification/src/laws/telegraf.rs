//! What the generated Telegraf configuration says.

use vstd::prelude::*;
use vstd::string::*;
use crate::config::model::LogLevel;
use crate::config::normalised::{Config, Influxdb, Prometheus};
use crate::modules::inputs::{plugin_of, Module};
use crate::modules::outputs::{contributed, influxdb_plugin, prometheus_plugin};
use crate::modules::{
    agent, build, built, law_what_is_enabled_is_what_is_collected, module_list, wants, with_modules,
    RenderContext, MonitoringModule,
};
use crate::telegraf::model::{
    lemma_merge_target, merge_target, merged, merged_scalars, union, with_plugin, with_scalar,
    word_list, Plugin, Section, Telegraf, TelegrafConfig, Toml,
};
use crate::text;

verus! {

// ---------------------------------------------------------------------------
// Options
// ---------------------------------------------------------------------------

/// Whether a list of options gives one this value.
pub open spec fn gives(list: Seq<(Seq<char>, Toml)>, key: Seq<char>, value: Toml) -> bool {
    exists|i: int| 0 <= i < list.len() && #[trigger] list[i] == (key, value)
}

/// Whether an instance sets an option to this value.
pub open spec fn sets(p: Plugin, key: Seq<char>, value: Toml) -> bool {
    gives(p.scalars, key, value)
}

/// Whether an instance drops the series whose tag matches one of the patterns.
pub open spec fn drops(p: Plugin, tag: Seq<char>, patterns: Seq<String>) -> bool {
    exists|i: int|
        0 <= i < p.subtables.len() && #[trigger] p.subtables[i] == (
            "tagdrop"@,
            seq![(tag, texts_value(patterns))],
        )
}

/// A list of texts as a value.
pub open spec fn texts_value(list: Seq<String>) -> Toml {
    Toml::List(Seq::new(list.len(), |i: int| Toml::Text(list[i]@)))
}

/// Whether the configuration has an instance of the plugin that sets the option so.
pub open spec fn has(list: Seq<Plugin>, plugin: Seq<char>, key: Seq<char>, value: Toml) -> bool {
    exists|i: int| 0 <= i < list.len() && (#[trigger] list[i]).plugin == plugin && sets(list[i], key, value)
}

/// Whether an instance of the plugin has exactly so many options.
pub open spec fn has_options(list: Seq<Plugin>, plugin: Seq<char>, n: nat) -> bool {
    exists|i: int|
        0 <= i < list.len() && (#[trigger] list[i]).plugin == plugin && list[i].scalars.len() == n
}

/// One where something holds.
pub open spec fn once(b: bool) -> nat {
    if b {
        1
    } else {
        0
    }
}

proof fn lemma_has_options(list: Seq<Plugin>, p: Plugin)
    requires
        list.contains(p),
    ensures
        has_options(list, p.plugin, p.scalars.len()),
{
    let i = choose|i: int| 0 <= i < list.len() && list[i] == p;
    assert(list[i].plugin == p.plugin && list[i].scalars.len() == p.scalars.len());
}

proof fn lemma_texts_value(list: Seq<String>)
    ensures
        texts_value(list) == word_list(text::texts(list)),
{
    assert(texts_value(list)->List_0 =~= word_list(text::texts(list))->List_0);
}

proof fn lemma_with(p: Plugin, key: Seq<char>, value: Toml)
    ensures
        sets(p.with(key, value), key, value),
        forall|k: Seq<char>, v: Toml| #[trigger] sets(p, k, v) ==> sets(p.with(key, value), k, v),
        p.with(key, value).scalars.len() == p.scalars.len() + 1,
{
    let q = p.with(key, value);
    assert(q.scalars[p.scalars.len() as int] == (key, value));
    assert forall|k: Seq<char>, v: Toml| #[trigger] sets(p, k, v) implies sets(q, k, v) by {
        let i = choose|i: int| 0 <= i < p.scalars.len() && #[trigger] p.scalars[i] == (k, v);
        assert(q.scalars[i] == (k, v));
    }
}

proof fn lemma_has(list: Seq<Plugin>, p: Plugin, key: Seq<char>, value: Toml)
    requires
        list.contains(p),
        sets(p, key, value),
    ensures
        has(list, p.plugin, key, value),
{
    let i = choose|i: int| 0 <= i < list.len() && list[i] == p;
    assert(list[i].plugin == p.plugin && sets(list[i], key, value));
}

// ---------------------------------------------------------------------------
// Outputs
// ---------------------------------------------------------------------------

/// What the InfluxDB output is told: every setting under the option that means it.
pub open spec fn influxdb_is_told(list: Seq<Plugin>, o: Influxdb, token: Seq<char>) -> bool {
    &&& has(list, "influxdb_v2"@, "urls"@, Toml::List(seq![Toml::Text(o.url@)]))
    &&& has(list, "influxdb_v2"@, "token"@, Toml::Text(token))
    &&& has(list, "influxdb_v2"@, "organization"@, Toml::Text(o.organization@))
    &&& has(list, "influxdb_v2"@, "bucket"@, Toml::Text(o.bucket@))
    &&& has(list, "influxdb_v2"@, "timeout"@, Toml::Text(o.timeout.telegraf()))
    &&& has(list, "influxdb_v2"@, "insecure_skip_verify"@, Toml::Flag(o.tls.insecure_skip_verify))
    &&& o.tls.ca_file matches Some(f) ==> has(list, "influxdb_v2"@, "tls_ca"@, Toml::Text(f@))
    &&& o.tls.cert_file matches Some(f) ==> has(list, "influxdb_v2"@, "tls_cert"@, Toml::Text(f@))
    &&& o.tls.key_file matches Some(f) ==> has(list, "influxdb_v2"@, "tls_key"@, Toml::Text(f@))
    &&& has_options(
        list,
        "influxdb_v2"@,
        6 + once(o.tls.ca_file is Some) + once(o.tls.cert_file is Some) + once(
            o.tls.key_file is Some,
        ),
    )
}

proof fn lemma_with_optional(p: Plugin, key: Seq<char>, value: Option<String>)
    ensures
        value matches Some(s) ==> sets(
            p.with_optional(key, text::optional(value)),
            key,
            Toml::Text(s@),
        ),
        forall|k: Seq<char>, v: Toml| #[trigger]
            sets(p, k, v) ==> sets(p.with_optional(key, text::optional(value)), k, v),
{
    if let Some(s) = value {
        lemma_with(p, key, Toml::Text(s@));
    }
}

proof fn lemma_influxdb(list: Seq<Plugin>, o: Influxdb, redact: bool)
    requires
        list.contains(influxdb_plugin(o, redact)),
    ensures
        influxdb_is_told(list, o, if redact { "***"@ } else { o.token@ }),
{
    let shown = crate::modules::shown_secret(redact, o.token@);
    let p0 = crate::telegraf::model::bare(
        Section::Output,
        "influxdb_v2"@,
        crate::modules::outputs::RANK_INFLUXDB,
    ).noted("output: "@ + "influxdb"@);
    let urls = word_list(seq![o.url@]);
    assert(urls->List_0 =~= seq![Toml::Text(o.url@)]);
    lemma_with(p0, "urls"@, urls);
    let p1 = p0.with("urls"@, urls);
    lemma_with(p1, "token"@, Toml::Text(shown));
    let p2 = p1.with("token"@, Toml::Text(shown));
    lemma_with(p2, "organization"@, Toml::Text(o.organization@));
    let p3 = p2.with("organization"@, Toml::Text(o.organization@));
    lemma_with(p3, "bucket"@, Toml::Text(o.bucket@));
    let p4 = p3.with("bucket"@, Toml::Text(o.bucket@));
    lemma_with(p4, "timeout"@, Toml::Text(o.timeout.telegraf()));
    let p5 = p4.with("timeout"@, Toml::Text(o.timeout.telegraf()));
    lemma_with_optional(p5, "tls_ca"@, o.tls.ca_file);
    let p6 = p5.with_optional("tls_ca"@, text::optional(o.tls.ca_file));
    lemma_with_optional(p6, "tls_cert"@, o.tls.cert_file);
    let p7 = p6.with_optional("tls_cert"@, text::optional(o.tls.cert_file));
    lemma_with_optional(p7, "tls_key"@, o.tls.key_file);
    let p8 = p7.with_optional("tls_key"@, text::optional(o.tls.key_file));
    lemma_with(p8, "insecure_skip_verify"@, Toml::Flag(o.tls.insecure_skip_verify));
    let p = p8.with("insecure_skip_verify"@, Toml::Flag(o.tls.insecure_skip_verify));
    assert(p == influxdb_plugin(o, redact));
    assert(p.plugin == "influxdb_v2"@);
    lemma_has(list, p, "urls"@, Toml::List(seq![Toml::Text(o.url@)]));
    lemma_has(list, p, "token"@, Toml::Text(shown));
    lemma_has(list, p, "organization"@, Toml::Text(o.organization@));
    lemma_has(list, p, "bucket"@, Toml::Text(o.bucket@));
    lemma_has(list, p, "timeout"@, Toml::Text(o.timeout.telegraf()));
    lemma_has(list, p, "insecure_skip_verify"@, Toml::Flag(o.tls.insecure_skip_verify));
    if let Some(f) = o.tls.ca_file {
        lemma_has(list, p, "tls_ca"@, Toml::Text(f@));
    }
    if let Some(f) = o.tls.cert_file {
        lemma_has(list, p, "tls_cert"@, Toml::Text(f@));
    }
    if let Some(f) = o.tls.key_file {
        lemma_has(list, p, "tls_key"@, Toml::Text(f@));
    }
    lemma_has_options(list, p);
}

/// What the scrape endpoint is told.
pub open spec fn prometheus_is_told(list: Seq<Plugin>, o: Prometheus, redact: bool) -> bool {
    &&& has(list, "prometheus_client"@, "listen"@, Toml::Text(o.listen.text@))
    &&& has(list, "prometheus_client"@, "path"@, Toml::Text(o.path@))
    &&& has(
        list,
        "prometheus_client"@,
        "collectors_exclude"@,
        Toml::List(seq![Toml::Text("gocollector"@), Toml::Text("process"@)]),
    )
    &&& has(
        list,
        "prometheus_client"@,
        "expiration_interval"@,
        Toml::Text(o.expiration_interval.telegraf()),
    )
    &&& o.basic_auth matches Some(auth) ==> {
        &&& has(list, "prometheus_client"@, "basic_username"@, Toml::Text(auth.username@))
        &&& has(
            list,
            "prometheus_client"@,
            "basic_password"@,
            Toml::Text(
                if redact {
                    "***"@
                } else {
                    auth.password@
                },
            ),
        )
    }
    &&& match (o.tls.cert_file, o.tls.key_file) {
        (Some(cert), Some(key)) => {
            &&& has(list, "prometheus_client"@, "tls_cert"@, Toml::Text(cert@))
            &&& has(list, "prometheus_client"@, "tls_key"@, Toml::Text(key@))
            &&& o.tls.client_ca_file matches Some(ca) ==> has(
                list,
                "prometheus_client"@,
                "tls_allowed_cacerts"@,
                Toml::List(seq![Toml::Text(ca@)]),
            )
        },
        _ => true,
    }
    &&& has_options(
        list,
        "prometheus_client"@,
        4 + 2 * once(o.basic_auth is Some) + (if o.tls.cert_file is Some && o.tls.key_file is Some {
            2 + once(o.tls.client_ca_file is Some)
        } else {
            0
        }),
    )
}

proof fn lemma_prometheus(list: Seq<Plugin>, o: Prometheus, redact: bool)
    requires
        list.contains(prometheus_plugin(o, redact)),
    ensures
        prometheus_is_told(list, o, redact),
{
    let p0 = crate::telegraf::model::bare(
        Section::Output,
        "prometheus_client"@,
        crate::modules::outputs::RANK_PROMETHEUS,
    ).noted("output: "@ + "prometheus"@);
    lemma_with(p0, "listen"@, Toml::Text(o.listen.text@));
    let p1 = p0.with("listen"@, Toml::Text(o.listen.text@));
    lemma_with(p1, "path"@, Toml::Text(o.path@));
    let p2 = p1.with("path"@, Toml::Text(o.path@));
    lemma_with(p2, "expiration_interval"@, Toml::Text(o.expiration_interval.telegraf()));
    let p3 = p2.with("expiration_interval"@, Toml::Text(o.expiration_interval.telegraf()));
    let collectors = word_list(seq!["gocollector"@, "process"@]);
    assert(collectors->List_0 =~= seq![Toml::Text("gocollector"@), Toml::Text("process"@)]);
    lemma_with(p3, "collectors_exclude"@, collectors);
    let p4 = p3.with("collectors_exclude"@, collectors);
    let p5 = crate::modules::outputs::with_server_tls(p4, o);
    if o.tls.cert_file is Some && o.tls.key_file is Some {
        let (cert, key) = (o.tls.cert_file->0, o.tls.key_file->0);
        lemma_with(p4, "tls_cert"@, Toml::Text(cert@));
        let q = p4.with("tls_cert"@, Toml::Text(cert@));
        lemma_with(q, "tls_key"@, Toml::Text(key@));
        let q2 = q.with("tls_key"@, Toml::Text(key@));
        if let Some(ca) = o.tls.client_ca_file {
            let cas = word_list(seq![ca@]);
            assert(cas->List_0 =~= seq![Toml::Text(ca@)]);
            lemma_with(q2, "tls_allowed_cacerts"@, cas);
        }
    }
    let p = crate::modules::outputs::with_basic_auth(p5, o, redact);
    assert(p == prometheus_plugin(o, redact));
    if let Some(auth) = o.basic_auth {
        let shown = Toml::Text(crate::modules::shown_secret(redact, auth.password@));
        lemma_with(p5, "basic_username"@, Toml::Text(auth.username@));
        let q = p5.with("basic_username"@, Toml::Text(auth.username@));
        lemma_with(q, "basic_password"@, shown);
        lemma_has(list, p, "basic_username"@, Toml::Text(auth.username@));
        lemma_has(list, p, "basic_password"@, shown);
    }
    assert(p.plugin == "prometheus_client"@);
    lemma_has_options(list, p);
    lemma_has(list, p, "listen"@, Toml::Text(o.listen.text@));
    lemma_has(list, p, "path"@, Toml::Text(o.path@));
    lemma_has(list, p, "collectors_exclude"@, collectors);
    lemma_has(list, p, "expiration_interval"@, Toml::Text(o.expiration_interval.telegraf()));
    if o.tls.cert_file is Some && o.tls.key_file is Some {
        lemma_has(list, p, "tls_cert"@, Toml::Text((o.tls.cert_file->0)@));
        lemma_has(list, p, "tls_key"@, Toml::Text((o.tls.key_file->0)@));
        if let Some(ca) = o.tls.client_ca_file {
            lemma_has(list, p, "tls_allowed_cacerts"@, Toml::List(seq![Toml::Text(ca@)]));
        }
    }
}

/// The outputs are told what is configured, each setting under its own option; a
/// credential stands there as it is, and as the mask for a reader. What is not
/// configured has no output.
pub proof fn law_the_outputs_are_told_what_is_configured(ctx: &RenderContext<'_>, r: TelegrafConfig)
    requires
        call_ensures(build, (ctx,), r),
    ensures
        ctx.config.outputs.influxdb matches Some(o) ==> influxdb_is_told(
            r@.outputs,
            o,
            if ctx.redact_secrets {
                "***"@
            } else {
                o.token@
            },
        ),
        ctx.config.outputs.prometheus matches Some(o) ==> prometheus_is_told(
            r@.outputs,
            o,
            ctx.redact_secrets,
        ),
        r@.outputs.len() == (if ctx.config.outputs.influxdb is Some {
            1int
        } else {
            0
        }) + (if ctx.config.outputs.prometheus is Some {
            1int
        } else {
            0
        }),
{
    let c = *ctx.config;
    let redact = ctx.redact_secrets;
    law_what_is_enabled_is_what_is_collected(c, redact);
    let list = contributed(c, redact);
    if let Some(o) = c.outputs.influxdb {
        assert(list[0] == influxdb_plugin(o, redact));
        lemma_influxdb(list, o, redact);
    }
    if let Some(o) = c.outputs.prometheus {
        assert(list[list.len() - 1] == prometheus_plugin(o, redact));
        lemma_prometheus(list, o, redact);
    }
}

// ---------------------------------------------------------------------------
// Inputs
// ---------------------------------------------------------------------------

proof fn lemma_stays(list: Seq<Plugin>, p: Plugin, q: Plugin)
    requires
        list.contains(q),
        q.merge_key is None || p.merge_key is None,
    ensures
        with_plugin(list, p).contains(q),
{
    lemma_merge_target(list, p, 0);
    let k = choose|k: int| 0 <= k < list.len() && list[k] == q;
    assert(with_plugin(list, p)[k] == q);
}

proof fn lemma_arrives(list: Seq<Plugin>, p: Plugin)
    requires
        p.merge_key is None,
    ensures
        with_plugin(list, p).contains(p),
{
    assert(with_plugin(list, p)[list.len() as int] == p);
}

proof fn lemma_one_module(base: Telegraf, c: Config, n: int)
    requires
        0 < n <= module_list().len(),
    ensures
        ({
            let before = with_modules(base, module_list(), c, n - 1);
            let m = module_list()[n - 1];
            with_modules(base, module_list(), c, n) == if wants(m, c) {
                before.with(plugin_of(m, c))
            } else {
                before
            }
        }),
{
    let before = with_modules(base, module_list(), c, n - 1);
    let m = module_list()[n - 1];
    let list = m.contributes(c);
    assert(list == seq![plugin_of(m, c)]);
    assert(list.drop_last() =~= Seq::<Plugin>::empty());
    assert(before.with_all(list.drop_last()) == before);
    assert(before.with_all(list) == before.with(list.last()));
}

/// Whether a module shares its instance with another.
spec fn shares(m: Module) -> bool {
    m == Module::Load || m == Module::System
}

proof fn lemma_inputs(base: Telegraf, c: Config, n: int, k: int)
    requires
        0 <= k < n <= module_list().len(),
        wants(module_list()[k], c),
        !shares(module_list()[k]),
    ensures
        with_modules(base, module_list(), c, n).inputs.contains(plugin_of(module_list()[k], c)),
    decreases n,
{
    let m = module_list()[n - 1];
    let p = plugin_of(m, c);
    let before = with_modules(base, module_list(), c, n - 1);
    lemma_one_module(base, c, n);
    crate::modules::inputs::lemma_belongs_to(m, c);
    crate::modules::inputs::lemma_belongs_to(module_list()[k], c);
    if k == n - 1 {
        lemma_arrives(before.inputs, p);
    } else {
        lemma_inputs(base, c, n - 1, k);
        if wants(m, c) {
            lemma_stays(before.inputs, p, plugin_of(module_list()[k], c));
        }
    }
}

proof fn lemma_built_inputs(c: Config, redact: bool, k: int)
    requires
        0 <= k < 12,
        wants(module_list()[k], c),
        !shares(module_list()[k]),
    ensures
        built(c, redact).inputs.contains(plugin_of(module_list()[k], c)),
{
    lemma_same_inputs(c, redact);
    lemma_inputs(agent::section(c), c, 12, k);
}

proof fn lemma_same_inputs(c: Config, redact: bool)
    ensures
        built(c, redact).inputs == with_modules(agent::section(c), module_list(), c, 12).inputs,
        built(c, redact).agent == agent::options(c),
{
    let t = with_modules(agent::section(c), module_list(), c, 12);
    lemma_outputs_leave_inputs(t, contributed(c, redact));
    lemma_agent_stays(agent::section(c), c, 12);
}

proof fn lemma_outputs_leave_inputs(t: Telegraf, list: Seq<Plugin>)
    requires
        forall|i: int| 0 <= i < list.len() ==> (#[trigger] list[i]).section == Section::Output,
    ensures
        t.with_all(list).inputs == t.inputs,
        t.with_all(list).agent == t.agent,
    decreases list.len(),
{
    if list.len() > 0 {
        assert(list[list.len() - 1].section == Section::Output);
        assert forall|i: int| 0 <= i < list.drop_last().len() implies (
        #[trigger] list.drop_last()[i]).section == Section::Output by {
            assert(list.drop_last()[i] == list[i]);
        }
        lemma_outputs_leave_inputs(t, list.drop_last());
    }
}

proof fn lemma_agent_stays(base: Telegraf, c: Config, n: int)
    requires
        0 <= n <= module_list().len(),
    ensures
        with_modules(base, module_list(), c, n).agent == base.agent,
    decreases n,
{
    if n > 0 {
        lemma_agent_stays(base, c, n - 1);
        lemma_one_module(base, c, n);
    }
}

/// Whether an option gives a list of texts where the list has any.
pub open spec fn has_list(
    list: Seq<Plugin>,
    plugin: Seq<char>,
    key: Seq<char>,
    values: Seq<String>,
) -> bool {
    values.len() > 0 ==> has(list, plugin, key, texts_value(values))
}

/// Whether series are dropped by a tag where there is any pattern.
pub open spec fn has_drop(
    list: Seq<Plugin>,
    plugin: Seq<char>,
    tag: Seq<char>,
    patterns: Seq<String>,
) -> bool {
    patterns.len() > 0 ==> exists|i: int|
        0 <= i < list.len() && (#[trigger] list[i]).plugin == plugin && drops(
            list[i],
            tag,
            patterns,
        )
}

proof fn lemma_with_list(p: Plugin, key: Seq<char>, values: Seq<String>)
    ensures
        values.len() > 0 ==> sets(
            p.with_list(key, text::texts(values)),
            key,
            texts_value(values),
        ),
        forall|k: Seq<char>, v: Toml| #[trigger]
            sets(p, k, v) ==> sets(p.with_list(key, text::texts(values)), k, v),
{
    lemma_texts_value(values);
    assert(text::texts(values).len() == values.len());
    if values.len() > 0 {
        lemma_with(p, key, texts_value(values));
    }
}

proof fn lemma_dropping(p: Plugin, tag: Seq<char>, patterns: Seq<String>)
    ensures
        patterns.len() > 0 ==> drops(p.dropping(tag, text::texts(patterns)), tag, patterns),
        p.dropping(tag, text::texts(patterns)).scalars == p.scalars,
        p.dropping(tag, text::texts(patterns)).plugin == p.plugin,
{
    lemma_texts_value(patterns);
    assert(text::texts(patterns).len() == patterns.len());
    if patterns.len() > 0 {
        let q = p.dropping(tag, text::texts(patterns));
        let table = Seq::<(Seq<char>, Toml)>::empty().push((tag, texts_value(patterns)));
        assert(table =~= seq![(tag, texts_value(patterns))]);
        assert(q.subtables[p.subtables.len() as int] == ("tagdrop"@, table));
    }
}

proof fn lemma_has_list(list: Seq<Plugin>, p: Plugin, key: Seq<char>, values: Seq<String>)
    requires
        list.contains(p),
        values.len() > 0 ==> sets(p, key, texts_value(values)),
    ensures
        has_list(list, p.plugin, key, values),
{
    if values.len() > 0 {
        lemma_has(list, p, key, texts_value(values));
    }
}

proof fn lemma_has_drop(list: Seq<Plugin>, p: Plugin, tag: Seq<char>, patterns: Seq<String>)
    requires
        list.contains(p),
        patterns.len() > 0 ==> drops(p, tag, patterns),
    ensures
        has_drop(list, p.plugin, tag, patterns),
{
    if patterns.len() > 0 {
        let i = choose|i: int| 0 <= i < list.len() && list[i] == p;
        assert(list[i].plugin == p.plugin && drops(list[i], tag, patterns));
    }
}

/// The disk, device and interface modules collect what is included and drop what is
/// excluded, each by the setting that is named for it.
pub proof fn law_filters_reach_the_plugin_they_are_for(ctx: &RenderContext<'_>, r: TelegrafConfig)
    requires
        call_ensures(build, (ctx,), r),
    ensures
        ctx.config.modules.disks.enabled ==> {
            let m = ctx.config.modules.disks;
            &&& has_list(r@.inputs, "disk"@, "mount_points"@, m.include_mountpoints@)
            &&& has_list(r@.inputs, "disk"@, "ignore_fs"@, m.exclude_filesystems@)
            &&& has_drop(r@.inputs, "disk"@, "path"@, m.exclude_mountpoints@)
        },
        ctx.config.modules.disk_io.enabled ==> {
            let m = ctx.config.modules.disk_io;
            &&& has_list(r@.inputs, "diskio"@, "devices"@, m.include_devices@)
            &&& has_drop(r@.inputs, "diskio"@, "name"@, m.exclude_devices@)
        },
        ctx.config.modules.network.enabled ==> {
            let m = ctx.config.modules.network;
            &&& has_list(r@.inputs, "net"@, "interfaces"@, m.include_interfaces@)
            &&& has_drop(r@.inputs, "net"@, "interface"@, m.exclude_interfaces@)
        },
{
    let c = *ctx.config;
    let list = r@.inputs;
    if c.modules.disks.enabled {
        let m = c.modules.disks;
        assert(module_list()[6] == Module::Disks && wants(Module::Disks, c));
        lemma_built_inputs(c, ctx.redact_secrets, 6);
        let p0 = crate::telegraf::model::bare(
            Section::Input,
            "disk"@,
            crate::modules::inputs::RANK_DISK,
        ).noted("module: "@ + "disks"@);
        lemma_with_list(p0, "mount_points"@, m.include_mountpoints@);
        let p1 = p0.with_list("mount_points"@, text::texts(m.include_mountpoints@));
        lemma_with_list(p1, "ignore_fs"@, m.exclude_filesystems@);
        let p2 = p1.with_list("ignore_fs"@, text::texts(m.exclude_filesystems@));
        lemma_dropping(p2, "path"@, m.exclude_mountpoints@);
        let p = p2.dropping("path"@, text::texts(m.exclude_mountpoints@));
        assert(p == plugin_of(Module::Disks, c));
        assert(p.plugin == "disk"@);
        lemma_has_list(list, p, "mount_points"@, m.include_mountpoints@);
        lemma_has_list(list, p, "ignore_fs"@, m.exclude_filesystems@);
        lemma_has_drop(list, p, "path"@, m.exclude_mountpoints@);
    }
    if c.modules.disk_io.enabled {
        let m = c.modules.disk_io;
        assert(module_list()[7] == Module::DiskIo && wants(Module::DiskIo, c));
        lemma_built_inputs(c, ctx.redact_secrets, 7);
        let p0 = crate::telegraf::model::bare(
            Section::Input,
            "diskio"@,
            crate::modules::inputs::RANK_DISKIO,
        ).noted("module: "@ + "disk_io"@);
        lemma_with_list(p0, "devices"@, m.include_devices@);
        let p1 = p0.with_list("devices"@, text::texts(m.include_devices@));
        lemma_dropping(p1, "name"@, m.exclude_devices@);
        let p = p1.dropping("name"@, text::texts(m.exclude_devices@));
        assert(p == plugin_of(Module::DiskIo, c));
        assert(p.plugin == "diskio"@);
        lemma_has_list(list, p, "devices"@, m.include_devices@);
        lemma_has_drop(list, p, "name"@, m.exclude_devices@);
    }
    if c.modules.network.enabled {
        let m = c.modules.network;
        assert(module_list()[8] == Module::Network && wants(Module::Network, c));
        lemma_built_inputs(c, ctx.redact_secrets, 8);
        let p0 = crate::telegraf::model::bare(
            Section::Input,
            "net"@,
            crate::modules::inputs::RANK_NET,
        ).noted("module: "@ + "network"@);
        lemma_with_list(p0, "interfaces"@, m.include_interfaces@);
        let p1 = p0.with_list("interfaces"@, text::texts(m.include_interfaces@));
        lemma_dropping(p1, "interface"@, m.exclude_interfaces@);
        let p = p1.dropping("interface"@, text::texts(m.exclude_interfaces@));
        assert(p == plugin_of(Module::Network, c));
        assert(p.plugin == "net"@);
        lemma_has_list(list, p, "interfaces"@, m.include_interfaces@);
        lemma_has_drop(list, p, "interface"@, m.exclude_interfaces@);
    }
}

/// The Docker plugin is told the endpoint, the timeout, which containers to report and
/// which to leave out, and in which states.
pub proof fn law_docker_is_told_what_is_configured(ctx: &RenderContext<'_>, r: TelegrafConfig)
    requires
        call_ensures(build, (ctx,), r),
        ctx.config.modules.docker.enabled,
    ensures
        ({
            let m = ctx.config.modules.docker;
            &&& has(r@.inputs, "docker"@, "endpoint"@, Toml::Text(m.endpoint@))
            &&& has(r@.inputs, "docker"@, "timeout"@, Toml::Text(m.timeout.telegraf()))
            &&& has_list(r@.inputs, "docker"@, "container_name_include"@, m.container_include@)
            &&& has_list(r@.inputs, "docker"@, "container_name_exclude"@, m.container_exclude@)
            &&& has(
                r@.inputs,
                "docker"@,
                "container_state_include"@,
                texts_value(m.container_states@),
            )
            &&& has(
                r@.inputs,
                "docker"@,
                "perdevice_include"@,
                Toml::List(seq![Toml::Text("cpu"@)]),
            )
            &&& has(
                r@.inputs,
                "docker"@,
                "total_include"@,
                Toml::List(
                    seq![Toml::Text("cpu"@), Toml::Text("blkio"@), Toml::Text("network"@)],
                ),
            )
            &&& has_options(
                r@.inputs,
                "docker"@,
                5 + once(m.container_include@.len() > 0) + once(m.container_exclude@.len() > 0),
            )
        }),
{
    let c = *ctx.config;
    let list = r@.inputs;
    let m = c.modules.docker;
    assert(module_list()[9] == Module::Docker && wants(Module::Docker, c));
    lemma_built_inputs(c, ctx.redact_secrets, 9);
    let p0 = crate::telegraf::model::bare(
        Section::Input,
        "docker"@,
        crate::modules::inputs::RANK_DOCKER,
    ).noted("module: "@ + "docker"@);
    lemma_with(p0, "endpoint"@, Toml::Text(m.endpoint@));
    let p1 = p0.with("endpoint"@, Toml::Text(m.endpoint@));
    lemma_with(p1, "timeout"@, Toml::Text(m.timeout.telegraf()));
    let p2 = p1.with("timeout"@, Toml::Text(m.timeout.telegraf()));
    lemma_with_list(p2, "container_name_include"@, m.container_include@);
    let p3 = p2.with_list("container_name_include"@, text::texts(m.container_include@));
    lemma_with_list(p3, "container_name_exclude"@, m.container_exclude@);
    let p4 = p3.with_list("container_name_exclude"@, text::texts(m.container_exclude@));
    lemma_texts_value(m.container_states@);
    let states = word_list(text::texts(m.container_states@));
    lemma_with(p4, "container_state_include"@, states);
    let p5 = p4.with("container_state_include"@, states);
    lemma_with(p5, "perdevice_include"@, word_list(seq!["cpu"@]));
    let p6 = p5.with("perdevice_include"@, word_list(seq!["cpu"@]));
    let total = word_list(seq!["cpu"@, "blkio"@, "network"@]);
    lemma_with(p6, "total_include"@, total);
    let p = p6.with("total_include"@, total);
    assert(p == plugin_of(Module::Docker, c));
    assert(p.plugin == "docker"@);
    lemma_has(list, p, "endpoint"@, Toml::Text(m.endpoint@));
    lemma_has(list, p, "timeout"@, Toml::Text(m.timeout.telegraf()));
    lemma_has_list(list, p, "container_name_include"@, m.container_include@);
    lemma_has_list(list, p, "container_name_exclude"@, m.container_exclude@);
    lemma_has(list, p, "container_state_include"@, texts_value(m.container_states@));
    assert(word_list(seq!["cpu"@])->List_0 =~= seq![Toml::Text("cpu"@)]);
    assert(total->List_0 =~= seq![
        Toml::Text("cpu"@),
        Toml::Text("blkio"@),
        Toml::Text("network"@),
    ]);
    lemma_has(list, p, "perdevice_include"@, word_list(seq!["cpu"@]));
    lemma_has(list, p, "total_include"@, total);
    assert(text::texts(m.container_include@).len() == m.container_include@.len());
    assert(text::texts(m.container_exclude@).len() == m.container_exclude@.len());
    lemma_has_options(list, p);
}

/// The host modules collect with the plugin that is theirs.
pub proof fn law_every_module_has_its_plugin(ctx: &RenderContext<'_>, r: TelegrafConfig)
    requires
        call_ensures(build, (ctx,), r),
    ensures
        ctx.config.modules.cpu.enabled ==> has(r@.inputs, "cpu"@, "percpu"@, Toml::Flag(true)) && has(
            r@.inputs,
            "cpu"@,
            "totalcpu"@,
            Toml::Flag(true),
        ) && has(r@.inputs, "cpu"@, "collect_cpu_time"@, Toml::Flag(false)) && has(
            r@.inputs,
            "cpu"@,
            "report_active"@,
            Toml::Flag(false),
        ),
        ctx.config.modules.memory.enabled ==> exists|i: int|
            0 <= i < r@.inputs.len() && (#[trigger] r@.inputs[i]).plugin == "mem"@,
        ctx.config.modules.swap.enabled ==> exists|i: int|
            0 <= i < r@.inputs.len() && (#[trigger] r@.inputs[i]).plugin == "swap"@,
        ctx.config.modules.processes.enabled ==> exists|i: int|
            0 <= i < r@.inputs.len() && (#[trigger] r@.inputs[i]).plugin == "processes"@,
{
    let c = *ctx.config;
    let list = r@.inputs;
    let redact = ctx.redact_secrets;
    if c.modules.cpu.enabled {
        assert(module_list()[0] == Module::Cpu && wants(Module::Cpu, c));
        lemma_built_inputs(c, redact, 0);
        let p = plugin_of(Module::Cpu, c);
        assert(p.scalars[0] == ("percpu"@, Toml::Flag(true)));
        assert(p.scalars[1] == ("totalcpu"@, Toml::Flag(true)));
        lemma_has(list, p, "percpu"@, Toml::Flag(true));
        lemma_has(list, p, "totalcpu"@, Toml::Flag(true));
        assert(p.scalars[2] == ("collect_cpu_time"@, Toml::Flag(false)));
        assert(p.scalars[3] == ("report_active"@, Toml::Flag(false)));
        lemma_has(list, p, "collect_cpu_time"@, Toml::Flag(false));
        lemma_has(list, p, "report_active"@, Toml::Flag(false));
    }
    if c.modules.memory.enabled {
        assert(module_list()[1] == Module::Memory && wants(Module::Memory, c));
        lemma_built_inputs(c, redact, 1);
        let i = choose|i: int| 0 <= i < list.len() && list[i] == plugin_of(Module::Memory, c);
        assert(list[i].plugin == "mem"@);
    }
    if c.modules.swap.enabled {
        assert(module_list()[4] == Module::Swap && wants(Module::Swap, c));
        lemma_built_inputs(c, redact, 4);
        let i = choose|i: int| 0 <= i < list.len() && list[i] == plugin_of(Module::Swap, c);
        assert(list[i].plugin == "swap"@);
    }
    if c.modules.processes.enabled {
        assert(module_list()[5] == Module::Processes && wants(Module::Processes, c));
        lemma_built_inputs(c, redact, 5);
        let i = choose|i: int| 0 <= i < list.len() && list[i] == plugin_of(Module::Processes, c);
        assert(list[i].plugin == "processes"@);
    }
}

// ---------------------------------------------------------------------------
// The agent
// ---------------------------------------------------------------------------

/// Telegraf collects, flushes and names itself as configured, and logs at the level that
/// is configured.
pub proof fn law_the_agent_is_told_what_is_configured(ctx: &RenderContext<'_>, r: TelegrafConfig)
    requires
        call_ensures(build, (ctx,), r),
    ensures
        gives(r@.agent, "interval"@, Toml::Text(ctx.config.agent.interval.telegraf())),
        gives(r@.agent, "flush_interval"@, Toml::Text(ctx.config.agent.flush_interval.telegraf())),
        gives(r@.agent, "hostname"@, Toml::Text(ctx.config.agent.hostname@)),
        gives(r@.agent, "omit_hostname"@, Toml::Flag(ctx.config.agent.omit_hostname)),
        ctx.config.logging.level == LogLevel::Trace || ctx.config.logging.level == LogLevel::Debug
            ==> gives(r@.agent, "debug"@, Toml::Flag(true)) && gives(
            r@.agent,
            "quiet"@,
            Toml::Flag(false),
        ),
        ctx.config.logging.level == LogLevel::Info ==> gives(r@.agent, "debug"@, Toml::Flag(false))
            && gives(r@.agent, "quiet"@, Toml::Flag(false)),
        ctx.config.logging.level == LogLevel::Warn || ctx.config.logging.level == LogLevel::Error
            ==> gives(r@.agent, "debug"@, Toml::Flag(false)) && gives(
            r@.agent,
            "quiet"@,
            Toml::Flag(true),
        ),
        gives(r@.agent, "round_interval"@, Toml::Flag(true)),
        gives(r@.agent, "metric_batch_size"@, Toml::Whole(1000)),
        gives(r@.agent, "metric_buffer_limit"@, Toml::Whole(10000)),
        gives(r@.agent, "collection_jitter"@, Toml::Text("0s"@)),
        gives(r@.agent, "flush_jitter"@, Toml::Text("0s"@)),
        gives(r@.agent, "precision"@, Toml::Text(""@)),
        gives(r@.agent, "logfile"@, Toml::Text(""@)),
        gives(r@.agent, "skip_processors_after_aggregators"@, Toml::Flag(true)),
        r@.agent.len() == 14,
{
    let c = *ctx.config;
    lemma_same_inputs(c, ctx.redact_secrets);
    let a = r@.agent;
    let level = c.logging.level;
    assert(a == agent::options(c));
    assert(a[0] == ("interval"@, Toml::Text(c.agent.interval.telegraf())));
    assert(a[5] == ("flush_interval"@, Toml::Text(c.agent.flush_interval.telegraf())));
    assert(a[8] == ("hostname"@, Toml::Text(c.agent.hostname@)));
    assert(a[9] == ("omit_hostname"@, Toml::Flag(c.agent.omit_hostname)));
    assert(a[1] == ("round_interval"@, Toml::Flag(true)));
    assert(a[2] == ("metric_batch_size"@, Toml::Whole(1000)));
    assert(a[3] == ("metric_buffer_limit"@, Toml::Whole(10000)));
    assert(a[4] == ("collection_jitter"@, Toml::Text("0s"@)));
    assert(a[6] == ("flush_jitter"@, Toml::Text("0s"@)));
    assert(a[7] == ("precision"@, Toml::Text(""@)));
    assert(a[12] == ("logfile"@, Toml::Text(""@)));
    assert(a[13] == ("skip_processors_after_aggregators"@, Toml::Flag(true)));
    assert(a[10] == ("debug"@, Toml::Flag(level == LogLevel::Trace || level == LogLevel::Debug)));
    assert(a[11] == ("quiet"@, Toml::Flag(level == LogLevel::Warn || level == LogLevel::Error)));
}

// ---------------------------------------------------------------------------
// The modules muninn runs itself
// ---------------------------------------------------------------------------

/// A command line as a value.
pub open spec fn command_value(words: Seq<Seq<char>>) -> Toml {
    Toml::List(seq![Toml::List(Seq::new(words.len(), |i: int| Toml::Text(words[i])))])
}

/// Whether a command line gives a flag this value.
pub open spec fn passes(words: Seq<Seq<char>>, flag: Seq<char>, value: Seq<char>) -> bool {
    exists|i: int| #[trigger] passes_at(words, i, flag, value)
}

/// Whether it does so at this place.
pub open spec fn passes_at(
    words: Seq<Seq<char>>,
    i: int,
    flag: Seq<char>,
    value: Seq<char>,
) -> bool {
    0 <= i && i + 1 < words.len() && words[i] == flag && words[i + 1] == value
}

proof fn lemma_command_value(words: Seq<Seq<char>>)
    ensures
        command_value(words) == Toml::List(seq![word_list(words)]),
{
    assert(word_list(words)->List_0 =~= Seq::new(words.len(), |i: int| Toml::Text(words[i])));
}

/// The package check runs as configured: at its interval, below the mount prefix, with
/// the security metric unless it is switched off.
pub proof fn law_the_package_check_runs_as_configured(ctx: &RenderContext<'_>, r: TelegrafConfig)
    requires
        call_ensures(build, (ctx,), r),
        ctx.config.modules.updates.enabled,
    ensures
        exists|i: int|
            {
                &&& 0 <= i < r@.inputs.len()
                &&& (#[trigger] r@.inputs[i]).plugin == "exec"@
                &&& sets(
                    r@.inputs[i],
                    "commands"@,
                    command_value(
                        if ctx.config.modules.updates.security_only_metric {
                            seq!["/usr/local/bin/muninn"@, "update-check"@]
                        } else {
                            seq![
                                "/usr/local/bin/muninn"@,
                                "update-check"@,
                                "--no-security-metric"@,
                            ]
                        },
                    ),
                )
                &&& sets(
                    r@.inputs[i],
                    "interval"@,
                    Toml::Text(ctx.config.modules.updates.interval.telegraf()),
                )
                &&& exists|env: Seq<Toml>|
                    {
                        &&& #[trigger] sets(r@.inputs[i], "environment"@, Toml::List(env))
                        &&& env.len() > 0
                        &&& env[0] == Toml::Text(
                            "HOSTFS="@ + match ctx.config.runtime.host_mount_prefix {
                                Some(p) => p@,
                                None => "/"@,
                            },
                        )
                    }
                &&& sets(r@.inputs[i], "data_format"@, Toml::Text("influx"@))
                &&& sets(r@.inputs[i], "timeout"@, Toml::Text("30s"@))
                &&& sets(r@.inputs[i], "ignore_error"@, Toml::Flag(false))
                &&& r@.inputs[i].scalars.len() == 6
                &&& crate::modules::updates::path_parent(
                    ctx.config.runtime.generated_config_path@,
                ) matches Some(dir) ==> dir.len() > 0 ==> sets(
                    r@.inputs[i],
                    "environment"@,
                    Toml::List(
                        seq![
                            Toml::Text(
                                "HOSTFS="@ + match ctx.config.runtime.host_mount_prefix {
                                    Some(p) => p@,
                                    None => "/"@,
                                },
                            ),
                            Toml::Text("TMPDIR="@ + dir),
                        ],
                    ),
                )
            },
{
    let c = *ctx.config;
    let list = r@.inputs;
    assert(module_list()[10] == Module::Updates && wants(Module::Updates, c));
    lemma_built_inputs(c, ctx.redact_secrets, 10);
    let p = plugin_of(Module::Updates, c);
    let i = choose|i: int| 0 <= i < list.len() && list[i] == p;
    let command = crate::modules::updates::command_line(c);
    let scratch = crate::modules::updates::scratch_text(c);
    let env = word_list(crate::modules::updates::environment(c, scratch));
    lemma_command_value(command);
    let named = if c.modules.updates.security_only_metric {
        seq!["/usr/local/bin/muninn"@, "update-check"@]
    } else {
        seq!["/usr/local/bin/muninn"@, "update-check"@, "--no-security-metric"@]
    };
    assert(command =~= named);
    assert(p.scalars[0] == ("commands"@, command_value(named)));
    assert(p.scalars[1] == ("environment"@, env));
    assert(p.scalars[2] == ("interval"@, Toml::Text(c.modules.updates.interval.telegraf())));
    assert(p.scalars[3] == ("timeout"@, Toml::Text("30s"@)));
    assert(p.scalars[4] == ("data_format"@, Toml::Text("influx"@)));
    assert(p.scalars[5] == ("ignore_error"@, Toml::Flag(false)));
    assert(sets(list[i], "environment"@, Toml::List(env->List_0)));
    assert(list[i].plugin == "exec"@);
    if let Some(dir) = crate::modules::updates::path_parent(c.runtime.generated_config_path@) {
        if dir.len() > 0 {
            assert(env->List_0 =~= seq![
                Toml::Text(
                    "HOSTFS="@ + match c.runtime.host_mount_prefix {
                        Some(p) => p@,
                        None => "/"@,
                    },
                ),
                Toml::Text("TMPDIR="@ + dir),
            ]);
        }
    }
}

proof fn lemma_flags(
    list: Seq<Seq<char>>,
    flag: Seq<char>,
    patterns: Seq<Seq<char>>,
    n: int,
)
    requires
        0 <= n <= patterns.len(),
    ensures
        ({
            let all = crate::modules::image_updates::with_flags(list, flag, patterns, n);
            &&& all.len() == list.len() + 2 * n
            &&& forall|j: int| 0 <= j < list.len() ==> all[j] == #[trigger] list[j]
            &&& forall|k: int|
                0 <= k < n ==> passes_at(all, list.len() + 2 * k, flag, #[trigger] patterns[k])
        }),
    decreases n,
{
    if n > 0 {
        lemma_flags(list, flag, patterns, n - 1);
        let rest = crate::modules::image_updates::with_flags(list, flag, patterns, n - 1);
        let all = crate::modules::image_updates::with_flags(list, flag, patterns, n);
        assert(all == rest.push(flag).push(patterns[n - 1]));
        assert forall|k: int| 0 <= k < n implies passes_at(
            all,
            list.len() + 2 * k,
            flag,
            #[trigger] patterns[k],
        ) by {
            if k < n - 1 {
                assert(passes_at(rest, list.len() + 2 * k, flag, patterns[k]));
            }
        }
    }
}

/// The image check runs as configured: against its endpoint, with its timeouts and
/// budget, for the containers that are included and not excluded.
pub proof fn law_the_image_check_runs_as_configured(ctx: &RenderContext<'_>, r: TelegrafConfig)
    requires
        call_ensures(build, (ctx,), r),
        ctx.config.modules.image_updates.enabled,
    ensures
        exists|words: Seq<Seq<char>>|
            {
                let m = ctx.config.modules.image_updates;
                &&& #[trigger] has(r@.inputs, "exec"@, "commands"@, command_value(words))
                &&& words.len() > 1
                &&& words[0] == "/usr/local/bin/muninn"@
                &&& words[1] == "image-check"@
                &&& passes(words, "--endpoint"@, m.endpoint@)
                &&& passes(words, "--timeout-secs"@, text::decimal(m.timeout.secs as nat))
                &&& passes(
                    words,
                    "--registry-timeout-secs"@,
                    text::decimal(m.registry_timeout.secs as nat),
                )
                &&& passes(
                    words,
                    "--budget-secs"@,
                    text::decimal(
                        crate::modules::image_updates::budget_of(m.interval).secs as nat,
                    ),
                )
                &&& forall|i: int|
                    0 <= i < m.container_include@.len() ==> passes(
                        words,
                        "--include"@,
                        (#[trigger] m.container_include@[i])@,
                    )
                &&& forall|i: int|
                    0 <= i < m.container_exclude@.len() ==> passes(
                        words,
                        "--exclude"@,
                        (#[trigger] m.container_exclude@[i])@,
                    )
                &&& words.len() == 10 + 2 * m.container_include@.len() + 2
                    * m.container_exclude@.len()
            },
        has(
            r@.inputs,
            "exec"@,
            "interval"@,
            Toml::Text(ctx.config.modules.image_updates.interval.telegraf()),
        ),
        has(
            r@.inputs,
            "exec"@,
            "timeout"@,
            Toml::Text(
                crate::modules::image_updates::exec_timeout_of(
                    ctx.config.modules.image_updates.interval,
                ).telegraf(),
            ),
        ),
{
    let c = *ctx.config;
    let list = r@.inputs;
    let m = c.modules.image_updates;
    assert(module_list()[11] == Module::ImageUpdates && wants(Module::ImageUpdates, c));
    lemma_built_inputs(c, ctx.redact_secrets, 11);
    let p = plugin_of(Module::ImageUpdates, c);
    let words = crate::modules::image_updates::command_line(c);
    lemma_command_value(words);
    assert(p.scalars[0] == ("commands"@, command_value(words)));
    assert(p.scalars[1] == ("interval"@, Toml::Text(m.interval.telegraf())));
    lemma_has(list, p, "commands"@, command_value(words));
    lemma_has(list, p, "interval"@, Toml::Text(m.interval.telegraf()));
    let patience = Toml::Text(
        crate::modules::image_updates::exec_timeout_of(m.interval).telegraf(),
    );
    assert(p.scalars[2] == ("timeout"@, patience));
    lemma_has(list, p, "timeout"@, patience);
    let first = seq![
        crate::modules::updates::MUNINN_BINARY@,
        crate::modules::image_updates::CHECK_SUBCOMMAND@,
        "--endpoint"@,
        m.endpoint@,
        "--timeout-secs"@,
        text::decimal(m.timeout.secs as nat),
        "--registry-timeout-secs"@,
        text::decimal(m.registry_timeout.secs as nat),
        "--budget-secs"@,
        text::decimal(crate::modules::image_updates::budget_of(m.interval).secs as nat),
    ];
    let inc = text::texts(m.container_include@);
    let exc = text::texts(m.container_exclude@);
    assert(inc.len() == m.container_include@.len() && exc.len() == m.container_exclude@.len());
    lemma_flags(first, "--include"@, inc, inc.len() as int);
    let second = crate::modules::image_updates::with_flags(
        first,
        "--include"@,
        inc,
        inc.len() as int,
    );
    lemma_flags(second, "--exclude"@, exc, exc.len() as int);
    assert forall|j: int| 0 <= j < 10 implies words[j] == first[j] by {
        assert(second[j] == first[j]);
    }
    assert(passes_at(words, 2, "--endpoint"@, m.endpoint@));
    assert(passes_at(words, 4, "--timeout-secs"@, text::decimal(m.timeout.secs as nat)));
    assert(passes_at(
        words,
        6,
        "--registry-timeout-secs"@,
        text::decimal(m.registry_timeout.secs as nat),
    ));
    assert(passes_at(
        words,
        8,
        "--budget-secs"@,
        text::decimal(crate::modules::image_updates::budget_of(m.interval).secs as nat),
    ));
    assert forall|i: int| 0 <= i < m.container_include@.len() implies passes(
        words,
        "--include"@,
        (#[trigger] m.container_include@[i])@,
    ) by {
        assert(inc[i] == m.container_include@[i]@);
        assert(passes_at(second, 10 + 2 * i, "--include"@, inc[i]));
        assert(words[10 + 2 * i] == second[10 + 2 * i]);
        assert(words[10 + 2 * i + 1] == second[10 + 2 * i + 1]);
        assert(passes_at(words, 10 + 2 * i, "--include"@, inc[i]));
    }
    assert forall|i: int| 0 <= i < m.container_exclude@.len() implies passes(
        words,
        "--exclude"@,
        (#[trigger] m.container_exclude@[i])@,
    ) by {
        assert(exc[i] == m.container_exclude@[i]@);
        assert(passes_at(words, second.len() + 2 * i, "--exclude"@, exc[i]));
    }
}

// ---------------------------------------------------------------------------
// Load and system share an instance
// ---------------------------------------------------------------------------

proof fn lemma_union(a: Seq<Toml>, b: Seq<Toml>, v: Toml)
    requires
        a.contains(v) || b.contains(v),
    ensures
        union(a, b).contains(v),
{
    crate::telegraf::model::law_union_holds_both_without_repeats(a, b);
}

/// Whether an instance of the plugin reports this part.
pub open spec fn reports(list: Seq<Plugin>, part: Seq<char>) -> bool {
    exists|i: int, items: Seq<Toml>|
        0 <= i < list.len() && (#[trigger] list[i]).plugin == "system"@ && #[trigger] sets(
            list[i],
            "include"@,
            Toml::List(items),
        ) && items.contains(Toml::Text(part))
}

proof fn lemma_reports(list: Seq<Plugin>, p: Plugin, items: Seq<Toml>, part: Seq<char>)
    requires
        list.contains(p),
        p.plugin == "system"@,
        sets(p, "include"@, Toml::List(items)),
        items.contains(Toml::Text(part)),
    ensures
        reports(list, part),
{
    let i = choose|i: int| 0 <= i < list.len() && list[i] == p;
    assert(list[i].plugin == "system"@ && sets(list[i], "include"@, Toml::List(items)));
}

proof fn lemma_system_stays(base: Telegraf, c: Config, n: int, q: Plugin)
    requires
        4 <= n <= 12,
        with_modules(base, module_list(), c, 4).inputs.contains(q),
    ensures
        with_modules(base, module_list(), c, n).inputs.contains(q),
    decreases n,
{
    if n > 4 {
        lemma_system_stays(base, c, n - 1, q);
        lemma_one_module(base, c, n);
        let m = module_list()[n - 1];
        crate::modules::inputs::lemma_belongs_to(m, c);
        if wants(m, c) {
            lemma_stays(
                with_modules(base, module_list(), c, n - 1).inputs,
                plugin_of(m, c),
                q,
            );
        }
    }
}

/// The load module reports the load, the system module uptime and users, whether or not
/// the other is on: neither takes the other's away.
pub proof fn law_load_and_system_both_report(ctx: &RenderContext<'_>, r: TelegrafConfig)
    requires
        call_ensures(build, (ctx,), r),
    ensures
        ctx.config.modules.load.enabled ==> reports(r@.inputs, "load"@),
        ctx.config.modules.system.enabled ==> reports(r@.inputs, "uptime"@) && reports(
            r@.inputs,
            "users"@,
        ),
{
    let c = *ctx.config;
    let base = agent::section(c);
    lemma_same_inputs(c, ctx.redact_secrets);
    let (l, s) = (plugin_of(Module::Load, c), plugin_of(Module::System, c));
    let la = seq![Toml::Text("load"@)];
    let sa = seq![Toml::Text("uptime"@), Toml::Text("users"@)];
    assert(word_list(seq!["load"@])->List_0 =~= la);
    assert(word_list(seq!["uptime"@, "users"@])->List_0 =~= sa);
    assert(l.scalars =~= seq![("include"@, Toml::List(la))]);
    assert(s.scalars =~= seq![("include"@, Toml::List(sa))]);
    assert(la[0] == Toml::Text("load"@));
    assert(sa[0] == Toml::Text("uptime"@) && sa[1] == Toml::Text("users"@));
    let two = with_modules(base, module_list(), c, 2).inputs;
    lemma_no_sharers(base, c, 2);
    lemma_one_module(base, c, 3);
    lemma_one_module(base, c, 4);
    assert(module_list()[2] == Module::Load && module_list()[3] == Module::System);
    let three = with_modules(base, module_list(), c, 3).inputs;
    let four = with_modules(base, module_list(), c, 4).inputs;
    if wants(Module::Load, c) {
        lemma_merge_target(two, l, 0);
        assert(merge_target(two, l, 0) is None);
        assert(three == two.push(l));
        let k = two.len() as int;
        if wants(Module::System, c) {
            lemma_merge_target(three, s, 0);
            assert(three[k] == l);
            let t = merge_target(three, s, 0)->0;
            assert(merge_target(three, s, 0) is Some);
            if t < k {
                assert(three[t] == two[t]);
            }
            let q = merged(l, s);
            assert(four[k] == q);
            let u = union(la, sa);
            assert(l.scalars[0].0 == "include"@);
            assert(s.scalars.drop_last() =~= Seq::<(Seq<char>, Toml)>::empty());
            assert(merged_scalars(l.scalars, s.scalars.drop_last()) == l.scalars);
            assert(merged_scalars(l.scalars, s.scalars) == with_scalar(
                l.scalars,
                ("include"@, Toml::List(sa)),
            ));
            assert(q.scalars[0] == ("include"@, Toml::List(u)));
            lemma_union(la, sa, Toml::Text("load"@));
            lemma_union(la, sa, Toml::Text("uptime"@));
            lemma_union(la, sa, Toml::Text("users"@));
            lemma_system_stays(base, c, 12, q);
            lemma_reports(r@.inputs, q, u, "load"@);
            lemma_reports(r@.inputs, q, u, "uptime"@);
            lemma_reports(r@.inputs, q, u, "users"@);
        } else {
            assert(four[k] == l);
            lemma_system_stays(base, c, 12, l);
            assert(l.scalars[0] == ("include"@, Toml::List(la)));
            lemma_reports(r@.inputs, l, la, "load"@);
        }
    } else if wants(Module::System, c) {
        lemma_merge_target(three, s, 0);
        assert(merge_target(three, s, 0) is None);
        assert(four[two.len() as int] == s);
        lemma_system_stays(base, c, 12, s);
        assert(s.scalars[0] == ("include"@, Toml::List(sa)));
        lemma_reports(r@.inputs, s, sa, "uptime"@);
        lemma_reports(r@.inputs, s, sa, "users"@);
    }
}

proof fn lemma_no_sharers(base: Telegraf, c: Config, n: int)
    requires
        0 <= n <= 2,
        base.inputs.len() == 0,
    ensures
        forall|i: int|
            0 <= i < with_modules(base, module_list(), c, n).inputs.len()
                ==> (#[trigger] with_modules(base, module_list(), c, n).inputs[i]).merge_key is None,
    decreases n,
{
    if n > 0 {
        lemma_no_sharers(base, c, n - 1);
        lemma_one_module(base, c, n);
        let m = module_list()[n - 1];
        crate::modules::inputs::lemma_belongs_to(m, c);
    }
}

} // verus!
