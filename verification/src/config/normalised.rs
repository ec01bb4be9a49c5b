//! The resolved configuration: what the rest of muninn uses.
//!
//! Addresses are parsed, secrets are read, and a disabled output is `None`, so it
//! is not possible to render one by forgetting to check a boolean.

use vstd::prelude::*;
use vstd::string::*;
use crate::config::host::{Host, ListenAddress};
use crate::config::model::{
    AgentConfig, ConfigV1, InfluxdbOutput, LoggingConfig, ModulesConfig, PrometheusOutput,
    PrometheusTlsConfig, RuntimeConfig, TlsConfig,
};
use crate::config::validation::{fault_of, or, secret_fault};
use crate::duration::ConfigDuration;
use crate::error::{Fault, MuninnError};
use crate::secret::{
    kept, law_no_given_secret_survives, redacted, size, Redactor, Secret, MASK, MIN_SECRET_LEN,
};
use crate::text;

verus! {

/// A validated, resolved configuration.
#[derive(Clone)]
pub struct Config {
    pub agent: AgentConfig,
    pub runtime: Runtime,
    pub logging: LoggingConfig,
    pub health: Health,
    pub modules: ModulesConfig,
    pub outputs: Outputs,
}

#[derive(Debug, Clone)]
pub struct Runtime {
    pub shutdown_grace_period: ConfigDuration,
    pub telegraf_start_timeout: ConfigDuration,
    pub generated_config_path: String,
    /// `None` means "running directly on the host, no prefix applies".
    pub host_mount_prefix: Option<String>,
}

#[derive(Debug, Clone)]
pub struct Health {
    pub listen: ListenAddress,
}

#[derive(Clone)]
pub struct Outputs {
    pub influxdb: Option<Influxdb>,
    pub prometheus: Option<Prometheus>,
}

#[derive(Clone)]
pub struct Influxdb {
    pub url: String,
    pub organization: String,
    pub bucket: String,
    pub token: Secret,
    pub timeout: ConfigDuration,
    pub tls: TlsConfig,
}

#[derive(Clone)]
pub struct Prometheus {
    pub listen: ListenAddress,
    pub path: String,
    pub expiration_interval: ConfigDuration,
    pub basic_auth: Option<BasicAuth>,
    pub tls: PrometheusTlsConfig,
}

#[derive(Clone)]
pub struct BasicAuth {
    pub username: String,
    pub password: Secret,
}

// ---------------------------------------------------------------------------
// Runtime
// ---------------------------------------------------------------------------

/// The mount prefix a text means: blank and `/` both mean none, and trailing
/// slashes do not count.
pub open spec fn prefix_of(raw: Seq<char>) -> Option<Seq<char>> {
    let t = text::trimmed(raw);
    if t.len() == 0 || t == "/"@ {
        None
    } else {
        Some(text::without_trailing(t, '/'))
    }
}

fn normalise_prefix(raw: &str) -> (r: Option<String>)
    ensures
        text::optional(r) == prefix_of(raw@),
{
    let trimmed = text::trim(raw);
    if trimmed.as_str().is_empty() || text::same(&trimmed, "/") {
        None
    } else {
        Some(text::trim_trailing(&trimmed, '/'))
    }
}

/// The environment variables Telegraf needs to read a host mounted at `prefix`.
pub open spec fn host_variables(prefix: Option<Seq<char>>) -> Seq<(Seq<char>, Seq<char>)> {
    match prefix {
        Some(raw) => {
            let p = text::without_trailing(raw, '/');
            seq![
                ("HOST_MOUNT_PREFIX"@, p),
                ("HOST_PROC"@, p + "/proc"@),
                ("HOST_SYS"@, p + "/sys"@),
                ("HOST_ETC"@, p + "/etc"@),
                ("HOST_VAR"@, p + "/var"@),
                ("HOST_RUN"@, p + "/run"@),
            ]
        },
        None => Seq::empty(),
    }
}

/// The contents of a list of pairs.
pub open spec fn pairs(list: Seq<(String, String)>) -> Seq<(Seq<char>, Seq<char>)> {
    list.map_values(|p: (String, String)| (p.0@, p.1@))
}

fn note_pair(list: &mut Vec<(String, String)>, name: &str, value: String)
    ensures
        pairs(final(list)@) == pairs(old(list)@).push((name@, value@)),
{
    list.push((name.to_owned(), value));
    proof {
        assert(pairs(list@) =~= pairs(old(list)@).push((name@, value@)));
    }
}

impl Runtime {
    /// Whether this is what a runtime section resolves to.
    pub open spec fn resolves(self, raw: RuntimeConfig) -> bool {
        &&& self.shutdown_grace_period == raw.shutdown_grace_period
        &&& self.telegraf_start_timeout == raw.telegraf_start_timeout
        &&& self.generated_config_path@ == raw.generated_config_path@
        &&& text::optional(self.host_mount_prefix) == prefix_of(raw.host_mount_prefix@)
    }

    pub fn from_config(raw: RuntimeConfig) -> (r: Self)
        ensures
            r.resolves(raw),
    {
        Runtime {
            shutdown_grace_period: raw.shutdown_grace_period,
            telegraf_start_timeout: raw.telegraf_start_timeout,
            host_mount_prefix: normalise_prefix(&raw.host_mount_prefix),
            generated_config_path: raw.generated_config_path,
        }
    }

    /// The `HOST_*` environment variables Telegraf needs, derived from the one
    /// prefix the operator configures. Empty when there is no prefix.
    pub fn host_env(&self) -> (r: Vec<(String, String)>)
        ensures
            pairs(r@) == host_variables(text::optional(self.host_mount_prefix)),
    {
        let mut out: Vec<(String, String)> = Vec::new();
        proof {
            assert(pairs(out@) =~= Seq::<(Seq<char>, Seq<char>)>::empty());
        }
        let prefix = match &self.host_mount_prefix {
            Some(p) => p,
            None => return out,
        };
        let p = text::trim_trailing(prefix, '/');
        // This one strips the prefix from reported paths, so a filesystem at
        // /var is tagged `/var` and not `/hostfs/var`.
        note_pair(&mut out, "HOST_MOUNT_PREFIX", p.clone());
        note_pair(&mut out, "HOST_PROC", text::cat2(&p, "/proc"));
        note_pair(&mut out, "HOST_SYS", text::cat2(&p, "/sys"));
        note_pair(&mut out, "HOST_ETC", text::cat2(&p, "/etc"));
        note_pair(&mut out, "HOST_VAR", text::cat2(&p, "/var"));
        note_pair(&mut out, "HOST_RUN", text::cat2(&p, "/run"));
        out
    }
}

// ---------------------------------------------------------------------------
// Resolving
// ---------------------------------------------------------------------------

/// The fault of an address that does not parse at this point.
pub open spec fn unparsed_fault(value: Seq<char>, key: Seq<char>, host: Host) -> Option<Fault> {
    if host.address(value) is None {
        Some(
            Fault::Internal(
                key + " '"@ + value
                    + "' reached normalisation unparsed — validation should have rejected it"@,
            ),
        )
    } else {
        None
    }
}

fn parse_addr(value: &str, key: &str, host: &Host) -> (r: Result<ListenAddress, MuninnError>)
    ensures
        match r {
            Ok(a) => host.address(value@) == Some(a) && unparsed_fault(value@, key@, *host) is None,
            Err(e) => unparsed_fault(value@, key@, *host) == Some(e@),
        },
{
    match host.address_of(value) {
        Some(a) => Ok(a.copy()),
        None => Err(
            MuninnError::Internal(
                text::cat4(
                    key,
                    " '",
                    value,
                    "' reached normalisation unparsed — validation should have rejected it",
                ),
            ),
        ),
    }
}

impl Influxdb {
    /// Whether this is what an enabled output resolves to.
    pub open spec fn resolves(self, o: InfluxdbOutput, host: Host) -> bool {
        &&& self.url == o.url
        &&& self.organization == o.organization
        &&& self.bucket == o.bucket
        &&& host.secret(o.token_file@) == Ok::<Seq<char>, Fault>(self.token@)
        &&& self.timeout == o.timeout
        &&& self.tls == o.tls
    }
}

impl Prometheus {
    /// Whether this is what an enabled output resolves to.
    pub open spec fn resolves(self, o: PrometheusOutput, host: Host) -> bool {
        &&& host.address(o.listen@) == Some(self.listen)
        &&& self.path == o.path
        &&& self.expiration_interval == o.expiration_interval
        &&& self.tls == o.tls
        &&& match (o.basic_auth.username, o.basic_auth.password_file) {
            (Some(user), Some(file)) => self.basic_auth matches Some(auth) && auth.username == user
                && host.secret(file@) == Ok::<Seq<char>, Fault>(auth.password@),
            _ => self.basic_auth is None,
        }
    }
}

/// Why a configuration cannot be resolved, if it cannot.
pub open spec fn resolution_fault(cfg: ConfigV1, host: Host) -> Option<Fault> {
    let i = cfg.outputs.influxdb;
    let p = cfg.outputs.prometheus;
    or(
        unparsed_fault(cfg.health.listen@, "health.listen"@, host),
        or(
            if i.enabled {
                secret_fault(host, i.token_file@)
            } else {
                None
            },
            if p.enabled {
                or(
                    match (p.basic_auth.username, p.basic_auth.password_file) {
                        (Some(_), Some(file)) => secret_fault(host, file@),
                        _ => None,
                    },
                    unparsed_fault(p.listen@, "outputs.prometheus.listen"@, host),
                )
            } else {
                None
            },
        ),
    )
}

impl Config {
    /// Whether this is what a configuration resolves to.
    pub open spec fn resolves(self, cfg: ConfigV1, host: Host) -> bool {
        &&& self.agent == cfg.agent
        &&& self.runtime.resolves(cfg.runtime)
        &&& self.logging == cfg.logging
        &&& host.address(cfg.health.listen@) == Some(self.health.listen)
        &&& self.modules == cfg.modules
        &&& match self.outputs.influxdb {
            Some(i) => cfg.outputs.influxdb.enabled && i.resolves(cfg.outputs.influxdb, host),
            None => !cfg.outputs.influxdb.enabled,
        }
        &&& match self.outputs.prometheus {
            Some(p) => cfg.outputs.prometheus.enabled && p.resolves(
                cfg.outputs.prometheus,
                host,
            ),
            None => !cfg.outputs.prometheus.enabled,
        }
    }

    /// Resolves a validated configuration. A caller that skipped validation gets
    /// an error where it would have found one.
    pub fn from_v1(cfg: ConfigV1, host: &Host) -> (r: Result<Self, MuninnError>)
        ensures
            match r {
                Ok(c) => resolution_fault(cfg, *host) is None && c.resolves(cfg, *host),
                Err(e) => resolution_fault(cfg, *host) == Some(e@),
            },
    {
        let listen = match parse_addr(&cfg.health.listen, "health.listen", host) {
            Ok(a) => a,
            Err(e) => return Err(e),
        };
        let influxdb = if cfg.outputs.influxdb.enabled {
            let o = cfg.outputs.influxdb;
            let token = match host.secret_at(&o.token_file) {
                Ok(s) => s,
                Err(e) => return Err(e),
            };
            Some(
                Influxdb {
                    url: o.url,
                    organization: o.organization,
                    bucket: o.bucket,
                    token,
                    timeout: o.timeout,
                    tls: o.tls,
                },
            )
        } else {
            None
        };
        let prometheus = if cfg.outputs.prometheus.enabled {
            let o = cfg.outputs.prometheus;
            let basic_auth = match (o.basic_auth.username, o.basic_auth.password_file) {
                (Some(username), Some(file)) => {
                    let password = match host.secret_at(&file) {
                        Ok(s) => s,
                        Err(e) => return Err(e),
                    };
                    Some(BasicAuth { username, password })
                }
                _ => None,
            };
            let listen = match parse_addr(&o.listen, "outputs.prometheus.listen", host) {
                Ok(a) => a,
                Err(e) => return Err(e),
            };
            Some(
                Prometheus {
                    listen,
                    path: o.path,
                    expiration_interval: o.expiration_interval,
                    basic_auth,
                    tls: o.tls,
                },
            )
        } else {
            None
        };
        Ok(
            Config {
                agent: cfg.agent,
                runtime: Runtime::from_config(cfg.runtime),
                logging: cfg.logging,
                health: Health { listen },
                modules: cfg.modules,
                outputs: Outputs { influxdb, prometheus },
            },
        )
    }

    /// The secrets the configuration holds.
    pub open spec fn secrets(self) -> Seq<Seq<char>> {
        let list = match self.outputs.influxdb {
            Some(i) => Seq::empty().push(i.token@),
            None => Seq::empty(),
        };
        match self.outputs.prometheus {
            Some(p) => match p.basic_auth {
                Some(auth) => list.push(auth.password@),
                None => list,
            },
            None => list,
        }
    }

    /// A redactor for every secret the configuration holds.
    pub fn redactor(&self) -> (r: Redactor)
        ensures
            r@ == kept(self.secrets()),
    {
        let mut list: Vec<String> = Vec::new();
        proof {
            assert(text::texts(list@) =~= Seq::<Seq<char>>::empty());
        }
        match &self.outputs.influxdb {
            Some(i) => text::note(&mut list, i.token.expose().to_owned()),
            None => {}
        }
        match &self.outputs.prometheus {
            Some(p) => match &p.basic_auth {
                Some(auth) => text::note(&mut list, auth.password.expose().to_owned()),
                None => {}
            },
            None => {}
        }
        Redactor::new(list)
    }
}

/// What passed validation resolves.
pub proof fn law_a_valid_configuration_resolves(cfg: ConfigV1, host: Host)
    requires
        fault_of(cfg, host) is None,
    ensures
        resolution_fault(cfg, host) is None,
{
}

/// No secret of the configuration that is long enough to redact, and has no
/// character of the mask, survives its redactor.
pub proof fn law_no_configured_secret_survives(
    config: Config,
    line: Seq<char>,
    v: Seq<char>,
)
    requires
        config.secrets().contains(v),
        size(v) >= MIN_SECRET_LEN,
        text::disjoint(v, MASK@),
    ensures
        !text::occurs(redacted(kept(config.secrets()), line), v),
{
    law_no_given_secret_survives(config.secrets(), line, v);
}

/// Every host variable starts with the prefix, and without a prefix there are
/// none.
pub proof fn law_host_variables_follow_the_prefix(prefix: Option<Seq<char>>, i: int)
    requires
        0 <= i < host_variables(prefix).len(),
    ensures
        prefix matches Some(raw) && text::without_trailing(raw, '/').is_prefix_of(
            host_variables(prefix)[i].1,
        ),
{
    if let Some(raw) = prefix {
        let p = text::without_trailing(raw, '/');
        let v = host_variables(prefix)[i].1;
        assert(v.subrange(0, p.len() as int) =~= p);
    }
}

} // verus!
