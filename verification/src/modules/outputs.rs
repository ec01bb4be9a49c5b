//! The outputs: InfluxDB v2 and Prometheus.
//!
//! A disabled output is not present in the resolved configuration, so there is no
//! boolean to forget here.

use vstd::prelude::*;
use vstd::string::*;
use crate::config::normalised::{Config, Influxdb, Prometheus};
use crate::modules::{shown_secret, RenderContext};
use crate::telegraf::model::{
    bare, plugins, word_list, Plugin, PluginInstance, Section, Toml, TomlValue,
};
use crate::text;

verus! {

pub const RANK_INFLUXDB: u16 = 10;

pub const RANK_PROMETHEUS: u16 = 20;

/// The InfluxDB output.
pub open spec fn influxdb_plugin(o: Influxdb, redact: bool) -> Plugin {
    bare(Section::Output, "influxdb_v2"@, RANK_INFLUXDB)
        .noted("output: "@ + "influxdb"@)
        .with("urls"@, word_list(seq![o.url@]))
        .with("token"@, Toml::Text(shown_secret(redact, o.token@)))
        .with("organization"@, Toml::Text(o.organization@))
        .with("bucket"@, Toml::Text(o.bucket@))
        .with("timeout"@, Toml::Text(o.timeout.telegraf()))
        .with_optional("tls_ca"@, text::optional(o.tls.ca_file))
        .with_optional("tls_cert"@, text::optional(o.tls.cert_file))
        .with_optional("tls_key"@, text::optional(o.tls.key_file))
        .with("insecure_skip_verify"@, Toml::Flag(o.tls.insecure_skip_verify))
}

/// The server-side TLS options, where a certificate and its key are configured.
pub open spec fn with_server_tls(p: Plugin, o: Prometheus) -> Plugin {
    match (o.tls.cert_file, o.tls.key_file) {
        (Some(cert), Some(key)) => {
            let q = p.with("tls_cert"@, Toml::Text(cert@)).with("tls_key"@, Toml::Text(key@));
            match o.tls.client_ca_file {
                Some(ca) => q.with("tls_allowed_cacerts"@, word_list(seq![ca@])),
                None => q,
            }
        },
        _ => p,
    }
}

/// The basic authentication options, where it is configured.
pub open spec fn with_basic_auth(p: Plugin, o: Prometheus, redact: bool) -> Plugin {
    match o.basic_auth {
        Some(auth) => p.with("basic_username"@, Toml::Text(auth.username@)).with(
            "basic_password"@,
            Toml::Text(shown_secret(redact, auth.password@)),
        ),
        None => p,
    }
}

/// The Prometheus output.
pub open spec fn prometheus_plugin(o: Prometheus, redact: bool) -> Plugin {
    let p = bare(Section::Output, "prometheus_client"@, RANK_PROMETHEUS)
        .noted("output: "@ + "prometheus"@)
        .with("listen"@, Toml::Text(o.listen.text@))
        .with("path"@, Toml::Text(o.path@))
        .with("expiration_interval"@, Toml::Text(o.expiration_interval.telegraf()))
        .with("collectors_exclude"@, word_list(seq!["gocollector"@, "process"@]));
    with_basic_auth(with_server_tls(p, o), o, redact)
}

/// The outputs of a configuration.
pub open spec fn contributed(c: Config, redact: bool) -> Seq<Plugin> {
    let list = match c.outputs.influxdb {
        Some(o) => Seq::empty().push(influxdb_plugin(o, redact)),
        None => Seq::empty(),
    };
    match c.outputs.prometheus {
        Some(o) => list.push(prometheus_plugin(o, redact)),
        None => list,
    }
}

/// An array of one string.
pub fn one_word(word: &str) -> (r: TomlValue)
    ensures
        r@ == word_list(seq![word@]),
{
    let mut list: Vec<String> = Vec::new();
    list.push(word.to_owned());
    proof {
        assert(text::texts(list@) =~= seq![word@]);
    }
    TomlValue::words(&list)
}

/// An array of two strings.
pub fn two_words(a: &str, b: &str) -> (r: TomlValue)
    ensures
        r@ == word_list(seq![a@, b@]),
{
    let mut list: Vec<String> = Vec::new();
    list.push(a.to_owned());
    list.push(b.to_owned());
    proof {
        assert(text::texts(list@) =~= seq![a@, b@]);
    }
    TomlValue::words(&list)
}

fn render_influxdb(ctx: &RenderContext<'_>, o: &Influxdb) -> (r: PluginInstance)
    ensures
        r@ == influxdb_plugin(*o, ctx.redact_secrets),
{
    PluginInstance::output("influxdb_v2", RANK_INFLUXDB)
        .from_output("influxdb")
        // The plugin takes a list and rejects a bare string.
        .scalar("urls", one_word(&o.url))
        .scalar("token", TomlValue::text(&ctx.secret(&o.token)))
        .scalar("organization", TomlValue::text(&o.organization))
        .scalar("bucket", TomlValue::text(&o.bucket))
        .scalar("timeout", TomlValue::text(&o.timeout.as_telegraf()))
        .scalar_opt("tls_ca", &o.tls.ca_file)
        .scalar_opt("tls_cert", &o.tls.cert_file)
        .scalar_opt("tls_key", &o.tls.key_file)
        // Stated even when false, so that nobody has to look up the default.
        .scalar("insecure_skip_verify", TomlValue::flag(o.tls.insecure_skip_verify))
}

fn render_prometheus(ctx: &RenderContext<'_>, o: &Prometheus) -> (r: PluginInstance)
    ensures
        r@ == prometheus_plugin(*o, ctx.redact_secrets),
{
    let mut instance = PluginInstance::output("prometheus_client", RANK_PROMETHEUS)
        .from_output("prometheus")
        .scalar("listen", TomlValue::text(&o.listen.text))
        .scalar("path", TomlValue::text(&o.path))
        .scalar("expiration_interval", TomlValue::text(&o.expiration_interval.as_telegraf()))
        // Both describe Telegraf itself, which muninn reports on.
        .scalar("collectors_exclude", two_words("gocollector", "process"));
    match (&o.tls.cert_file, &o.tls.key_file) {
        (Some(cert), Some(key)) => {
            instance = instance
                .scalar("tls_cert", TomlValue::text(cert))
                .scalar("tls_key", TomlValue::text(key));
            match &o.tls.client_ca_file {
                Some(ca) => {
                    instance = instance.scalar("tls_allowed_cacerts", one_word(ca));
                }
                None => {}
            }
        }
        _ => {}
    }
    match &o.basic_auth {
        Some(auth) => {
            instance = instance
                .scalar("basic_username", TomlValue::text(&auth.username))
                .scalar("basic_password", TomlValue::text(&ctx.secret(&auth.password)));
        }
        None => {}
    }
    instance
}

pub fn render(ctx: &RenderContext<'_>) -> (r: Vec<PluginInstance>)
    ensures
        plugins(r@) == contributed(*ctx.config, ctx.redact_secrets),
{
    let mut out: Vec<PluginInstance> = Vec::new();
    proof {
        assert(plugins(out@) =~= Seq::<Plugin>::empty());
    }
    match &ctx.config.outputs.influxdb {
        Some(o) => {
            let p = render_influxdb(ctx, o);
            let ghost v = p@;
            out.push(p);
            proof {
                assert(plugins(out@) =~= Seq::<Plugin>::empty().push(v));
            }
        }
        None => {}
    }
    let ghost before = plugins(out@);
    match &ctx.config.outputs.prometheus {
        Some(o) => {
            let p = render_prometheus(ctx, o);
            let ghost v = p@;
            out.push(p);
            proof {
                assert(plugins(out@) =~= before.push(v));
            }
        }
        None => {}
    }
    out
}

} // verus!
