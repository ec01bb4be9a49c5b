//! Which configurations are valid, what is remarked on, and what they resolve to.

use vstd::prelude::*;
use vstd::string::*;
use crate::config::host::{find_address, find_file, AddressFacts, FileFacts, Host, ListenAddress};
use crate::config::loader::{overridden, override_warnings, Overrides};
use crate::config::model::{
    level_named, format_named, ConfigV1, LogFormat, LogLevel, LoggingConfig, ModulesConfig,
    RuntimeConfig, TlsConfig,
};
use crate::config::normalised::{pairs, Config, Runtime};
use crate::config::validation::{
    addresses_collide, agent_fault, agent_warnings, basic_auth_fault, blank_at, blank_fault,
    docker_fault, endpoint_fault, listeners_fault, modules_fault, modules_warnings, outputs_fault,
    outputs_warnings, patterns_fault, runtime_fault, runtime_warnings, secret_fault, states_fault,
    tls_fault, updates_fault, validate,
};
use crate::duration::ConfigDuration;
use crate::error::MuninnError;
use crate::laws::text::{lemma_trimmed, lemma_without_trailing};
use crate::secret::{kept, FileRead, Redactor};
use crate::text;

verus! {

// ---------------------------------------------------------------------------
// Validity
// ---------------------------------------------------------------------------

/// Whether a period is longer than nothing.
pub open spec fn positive(d: ConfigDuration) -> bool {
    d.secs > 0 || d.nanos > 0
}

/// Whether a text starts with a slash.
pub open spec fn rooted(s: Seq<char>) -> bool {
    s.len() > 0 && s[0] == '/'
}

/// Whether every pattern of a list has something in it.
pub open spec fn filled(list: Seq<String>) -> bool {
    forall|i: int| 0 <= i < list.len() ==> !text::is_blank((#[trigger] list[i])@)
}

/// Whether an endpoint names something behind a scheme that is known.
pub open spec fn reachable(endpoint: Seq<char>) -> bool {
    ||| "unix://"@.is_prefix_of(endpoint) && endpoint != "unix://"@
    ||| "tcp://"@.is_prefix_of(endpoint) && endpoint != "tcp://"@
}

/// Whether a file holds a secret.
pub open spec fn holds_secret(host: Host, path: Seq<char>) -> bool {
    host.read(path) matches FileRead::Text(raw) && !text::is_blank(raw@)
}

/// Whether a file that is named is there.
pub open spec fn there(host: Host, path: Option<String>) -> bool {
    path matches Some(p) ==> p@.len() > 0 && host.holds(p@)
}

pub open spec fn valid_agent(cfg: ConfigV1) -> bool {
    &&& positive(cfg.agent.flush_interval)
    &&& cfg.agent.interval.secs >= 1 || cfg.agent.interval.nanos >= 1_000_000_000
}

pub open spec fn valid_runtime(cfg: ConfigV1) -> bool {
    &&& positive(cfg.runtime.shutdown_grace_period)
    &&& positive(cfg.runtime.telegraf_start_timeout)
    &&& rooted(cfg.runtime.generated_config_path@)
    &&& cfg.runtime.host_mount_prefix@.len() == 0 || rooted(cfg.runtime.host_mount_prefix@)
}

pub open spec fn valid_patterns(cfg: ConfigV1) -> bool {
    let m = cfg.modules;
    &&& filled(m.disks.exclude_filesystems@)
    &&& filled(m.disks.exclude_mountpoints@)
    &&& filled(m.disks.include_mountpoints@)
    &&& filled(m.disk_io.include_devices@)
    &&& filled(m.disk_io.exclude_devices@)
    &&& filled(m.network.include_interfaces@)
    &&& filled(m.network.exclude_interfaces@)
    &&& filled(m.docker.container_include@)
    &&& filled(m.docker.container_exclude@)
    &&& filled(m.image_updates.container_include@)
    &&& filled(m.image_updates.container_exclude@)
}

pub open spec fn is_state(s: Seq<char>) -> bool {
    ||| s == "created"@
    ||| s == "restarting"@
    ||| s == "running"@
    ||| s == "removing"@
    ||| s == "paused"@
    ||| s == "exited"@
    ||| s == "dead"@
}

pub open spec fn valid_modules(cfg: ConfigV1) -> bool {
    let m = cfg.modules;
    &&& m.cpu.enabled || m.memory.enabled || m.load.enabled || m.system.enabled || m.swap.enabled
        || m.processes.enabled || m.disks.enabled || m.disk_io.enabled || m.network.enabled
        || m.docker.enabled || m.updates.enabled || m.image_updates.enabled
    &&& valid_patterns(cfg)
    &&& m.docker.enabled ==> {
        &&& positive(m.docker.timeout)
        &&& reachable(m.docker.endpoint@)
        &&& m.docker.container_states@.len() > 0
        &&& forall|i: int|
            0 <= i < m.docker.container_states@.len() ==> is_state(
                (#[trigger] m.docker.container_states@[i])@,
            )
    }
    &&& m.updates.enabled ==> m.updates.interval.secs >= 60
    &&& m.image_updates.enabled ==> {
        &&& positive(m.image_updates.timeout)
        &&& positive(m.image_updates.registry_timeout)
        &&& reachable(m.image_updates.endpoint@)
        &&& m.image_updates.interval.secs >= 60
    }
}

pub open spec fn valid_tls(tls: TlsConfig, host: Host) -> bool {
    &&& tls.cert_file is Some <==> tls.key_file is Some
    &&& there(host, tls.ca_file)
    &&& there(host, tls.cert_file)
    &&& there(host, tls.key_file)
}

pub open spec fn valid_outputs(cfg: ConfigV1, host: Host) -> bool {
    let i = cfg.outputs.influxdb;
    let p = cfg.outputs.prometheus;
    &&& i.enabled || p.enabled
    &&& i.enabled ==> {
        &&& !text::is_blank(i.url@)
        &&& !text::is_blank(i.organization@)
        &&& !text::is_blank(i.bucket@)
        &&& !text::is_blank(i.token_file@)
        &&& positive(i.timeout)
        &&& "http://"@.is_prefix_of(i.url@) || "https://"@.is_prefix_of(i.url@)
        &&& holds_secret(host, i.token_file@)
        &&& valid_tls(i.tls, host)
    }
    &&& p.enabled ==> {
        &&& host.address(p.listen@) is Some
        &&& positive(p.expiration_interval)
        &&& rooted(p.path@)
        &&& match (p.basic_auth.username, p.basic_auth.password_file) {
            (Some(user), Some(file)) => user@.len() > 0 && holds_secret(host, file@),
            (None, None) => true,
            _ => false,
        }
    }
}

pub open spec fn valid_listeners(cfg: ConfigV1, host: Host) -> bool {
    &&& host.address(cfg.health.listen@) is Some
    &&& cfg.outputs.prometheus.enabled ==> {
        let a = host.address(cfg.health.listen@)->0;
        host.address(cfg.outputs.prometheus.listen@) matches Some(b) && (a.port == b.port ==> a.port
            == 0 || !(a.ip == 0 || b.ip == 0 || (a.ip == b.ip && a.v6 == b.v6)))
    }
}

proof fn lemma_blank(patterns: Seq<Seq<char>>, i: int)
    requires
        0 <= i <= patterns.len(),
    ensures
        blank_at(patterns, i) is None <==> forall|j: int|
            i <= j < patterns.len() ==> !text::is_blank(#[trigger] patterns[j]),
    decreases patterns.len() - i,
{
    if i < patterns.len() {
        lemma_blank(patterns, i + 1);
        if blank_at(patterns, i) is None {
            assert forall|j: int| i <= j < patterns.len() implies !text::is_blank(
                #[trigger] patterns[j],
            ) by {}
        }
    }
}

proof fn lemma_filled(list: Seq<String>, key: Seq<char>)
    ensures
        blank_fault(text::texts(list), key) is None <==> filled(list),
{
    let all = text::texts(list);
    lemma_blank(all, 0);
    assert(all.len() == list.len());
    if filled(list) {
        assert forall|j: int| 0 <= j < all.len() implies !text::is_blank(#[trigger] all[j]) by {
            assert(all[j] == list[j]@);
        }
    }
    if blank_at(all, 0) is None {
        assert forall|i: int| 0 <= i < list.len() implies !text::is_blank((#[trigger] list[i])@) by {
            assert(all[i] == list[i]@);
        }
    }
}

proof fn lemma_patterns(cfg: ConfigV1)
    ensures
        patterns_fault(cfg) is None <==> valid_patterns(cfg),
{
    let m = cfg.modules;
    lemma_filled(m.disks.exclude_filesystems@, "modules.disks.exclude_filesystems"@);
    lemma_filled(m.disks.exclude_mountpoints@, "modules.disks.exclude_mountpoints"@);
    lemma_filled(m.disks.include_mountpoints@, "modules.disks.include_mountpoints"@);
    lemma_filled(m.disk_io.include_devices@, "modules.disk_io.include_devices"@);
    lemma_filled(m.disk_io.exclude_devices@, "modules.disk_io.exclude_devices"@);
    lemma_filled(m.network.include_interfaces@, "modules.network.include_interfaces"@);
    lemma_filled(m.network.exclude_interfaces@, "modules.network.exclude_interfaces"@);
    lemma_filled(m.docker.container_include@, "modules.docker.container_include"@);
    lemma_filled(m.docker.container_exclude@, "modules.docker.container_exclude"@);
    lemma_filled(m.image_updates.container_include@, "modules.image_updates.container_include"@);
    lemma_filled(m.image_updates.container_exclude@, "modules.image_updates.container_exclude"@);
}

proof fn lemma_states(list: Seq<String>, i: int)
    requires
        0 <= i <= list.len(),
    ensures
        states_fault(text::texts(list), i) is None <==> forall|j: int|
            i <= j < list.len() ==> is_state((#[trigger] list[j])@),
    decreases list.len() - i,
{
    let all = text::texts(list);
    assert(all.len() == list.len());
    if i < list.len() {
        lemma_states(list, i + 1);
        assert(all[i] == list[i]@);
        if states_fault(all, i) is None {
            assert forall|j: int| i <= j < list.len() implies is_state((#[trigger] list[j])@) by {}
        }
    }
}

proof fn lemma_endpoint(endpoint: Seq<char>, module: Seq<char>)
    ensures
        endpoint_fault(endpoint, module) is None <==> reachable(endpoint),
{
    reveal_strlit("unix://");
    reveal_strlit("tcp://");
    assert("unix://"@[0] != "tcp://"@[0]);
}

proof fn lemma_modules(cfg: ConfigV1)
    ensures
        modules_fault(cfg) is None <==> valid_modules(cfg),
{
    let m = cfg.modules;
    lemma_patterns(cfg);
    lemma_states(m.docker.container_states@, 0);
    lemma_endpoint(m.docker.endpoint@, "docker"@);
    lemma_endpoint(m.image_updates.endpoint@, "image_updates"@);
    assert(docker_fault(m.docker) is None <==> (m.docker.enabled ==> {
        &&& positive(m.docker.timeout)
        &&& reachable(m.docker.endpoint@)
        &&& m.docker.container_states@.len() > 0
        &&& forall|i: int|
            0 <= i < m.docker.container_states@.len() ==> is_state(
                (#[trigger] m.docker.container_states@[i])@,
            )
    }));
    assert(updates_fault(cfg) is None <==> (m.updates.enabled ==> m.updates.interval.secs >= 60));
}

proof fn lemma_secret(host: Host, path: Seq<char>)
    ensures
        secret_fault(host, path) is None <==> holds_secret(host, path),
{
    if let FileRead::Text(raw) = host.read(path) {
        text::lemma_trimmed_empty_iff_blank(raw@);
    }
}

proof fn lemma_outputs(cfg: ConfigV1, host: Host)
    ensures
        outputs_fault(cfg, host) is None <==> valid_outputs(cfg, host),
{
    let i = cfg.outputs.influxdb;
    let p = cfg.outputs.prometheus;
    lemma_secret(host, i.token_file@);
    if let Some(file) = p.basic_auth.password_file {
        lemma_secret(host, file@);
    }
    assert(tls_fault(i.tls, "outputs.influxdb.tls"@, host) is None <==> valid_tls(i.tls, host));
    assert(basic_auth_fault(p, host) is None <==> match (
        p.basic_auth.username,
        p.basic_auth.password_file,
    ) {
        (Some(user), Some(file)) => user@.len() > 0 && holds_secret(host, file@),
        (None, None) => true,
        _ => false,
    });
}

/// A configuration is accepted exactly if every rule is kept: its periods are long
/// enough, its paths absolute, its patterns filled, its endpoints, outputs and
/// credentials complete, and its listeners apart.
pub proof fn law_exactly_the_valid_configurations_are_accepted(
    cfg: &ConfigV1,
    host: &Host,
    r: Result<Vec<String>, MuninnError>,
)
    requires
        call_ensures(validate, (cfg, host), r),
        cfg.agent.interval.wf(),
    ensures
        r is Ok <==> {
            &&& valid_agent(*cfg)
            &&& valid_runtime(*cfg)
            &&& valid_modules(*cfg)
            &&& valid_outputs(*cfg, *host)
            &&& valid_listeners(*cfg, *host)
        },
{
    lemma_modules(*cfg);
    lemma_outputs(*cfg, *host);
    assert(agent_fault(*cfg) is None <==> valid_agent(*cfg));
    assert(runtime_fault(*cfg) is None <==> valid_runtime(*cfg));
    if cfg.outputs.prometheus.enabled && outputs_fault(*cfg, *host) is None {
        assert(host.address(cfg.outputs.prometheus.listen@) is Some);
    }
    assert(listeners_fault(*cfg, *host) is None <==> valid_listeners(*cfg, *host));
}

/// Two listeners collide exactly if they share a fixed port and one address covers the
/// other.
pub proof fn law_listeners_collide_over_a_port(a: &ListenAddress, b: &ListenAddress, r: bool)
    requires
        call_ensures(addresses_collide, (a, b), r),
    ensures
        r <==> a.port == b.port && a.port != 0 && (a.ip == 0 || b.ip == 0 || (a.ip == b.ip && a.v6
            == b.v6)),
{
}

// ---------------------------------------------------------------------------
// Warnings
// ---------------------------------------------------------------------------

/// One where something holds.
pub open spec fn once(b: bool) -> nat {
    if b {
        1
    } else {
        0
    }
}

/// Whether a remark that starts so is made.
pub open spec fn remarks(w: Seq<Seq<char>>, start: Seq<char>) -> bool {
    exists|i: int| 0 <= i < w.len() && start.is_prefix_of(#[trigger] w[i])
}

/// How many of the first remarks there are, by what they are about.
pub open spec fn remarks_due(cfg: ConfigV1) -> nat {
    let (m, i, p) = (cfg.modules, cfg.outputs.influxdb, cfg.outputs.prometheus);
    let path = cfg.runtime.generated_config_path@;
    once(cfg.agent.interval.below(cfg.agent.flush_interval)) + once(
        cfg.agent.omit_hostname && cfg.agent.hostname@.len() > 0,
    ) + once(
        !"/run/"@.is_prefix_of(path) && !"/tmp/"@.is_prefix_of(path) && !"/dev/shm/"@.is_prefix_of(
            path,
        ),
    ) + once(i.enabled && !i.timeout.below(cfg.runtime.shutdown_grace_period)) + once(
        cfg.runtime.host_mount_prefix@.len() == 0 && (m.cpu.enabled || m.memory.enabled
            || m.load.enabled || m.system.enabled || m.swap.enabled || m.processes.enabled
            || m.disks.enabled || m.disk_io.enabled || m.network.enabled || m.updates.enabled),
    ) + once(m.disks.include_mountpoints@.len() > 0 && m.disks.exclude_mountpoints@.len() > 0)
        + once(m.disk_io.include_devices@.len() > 0 && m.disk_io.exclude_devices@.len() > 0) + once(
        m.network.include_interfaces@.len() > 0 && m.network.exclude_interfaces@.len() > 0,
    ) + once(m.docker.enabled) + once(
        m.image_updates.enabled && m.image_updates.registry_timeout.below(m.image_updates.timeout),
    ) + once(m.image_updates.enabled) + once(i.enabled && i.tls.insecure_skip_verify) + once(
        i.enabled && "http://"@.is_prefix_of(i.url@),
    ) + once(p.enabled && p.expiration_interval.below(cfg.agent.interval))
}

proof fn lemma_last_remark(w: Seq<Seq<char>>, item: Seq<char>, start: Seq<char>)
    requires
        start.is_prefix_of(item),
    ensures
        remarks(w.push(item), start),
{
    assert(w.push(item)[w.len() as int] == item);
}

proof fn lemma_remarks_stay(w: Seq<Seq<char>>, present: bool, item: Seq<char>, start: Seq<char>)
    requires
        remarks(w, start),
    ensures
        remarks(text::also(w, present, item), start),
{
    let i = choose|i: int| 0 <= i < w.len() && start.is_prefix_of(#[trigger] w[i]);
    assert(text::also(w, present, item)[i] == w[i]);
}

/// Everything that deserves a remark gets one, and nothing else does.
pub proof fn law_as_many_warnings_as_there_are_remarks_due(
    cfg: &ConfigV1,
    host: &Host,
    w: Vec<String>,
)
    requires
        call_ensures(validate, (cfg, host), Ok::<Vec<String>, MuninnError>(w)),
    ensures
        w@.len() == remarks_due(*cfg),
{
    assert(text::texts(w@).len() == w@.len());
    let e = Seq::<Seq<char>>::empty();
    let w1 = agent_warnings(*cfg, e);
    let w2 = runtime_warnings(*cfg, w1);
    let w3 = modules_warnings(*cfg, w2);
    let w4 = outputs_warnings(*cfg, w3);
    let (m, i, p) = (cfg.modules, cfg.outputs.influxdb, cfg.outputs.prometheus);
    assert(w1.len() == once(cfg.agent.interval.below(cfg.agent.flush_interval)) + once(
        cfg.agent.omit_hostname && cfg.agent.hostname@.len() > 0,
    ));
    assert(w4 == text::texts(w@));
}

/// The remarks say what they are about: plaintext, unverified certificates, the Docker
/// socket, a missing prefix, a file that outlives the process.
pub proof fn law_a_remark_says_what_it_is_about(
    cfg: &ConfigV1,
    host: &Host,
    w: Vec<String>,
)
    requires
        call_ensures(validate, (cfg, host), Ok::<Vec<String>, MuninnError>(w)),
    ensures
        cfg.outputs.influxdb.enabled && "http://"@.is_prefix_of(cfg.outputs.influxdb.url@)
            ==> remarks(text::texts(w@), "outputs.influxdb.url '"@ + cfg.outputs.influxdb.url@),
        cfg.outputs.influxdb.enabled && cfg.outputs.influxdb.tls.insecure_skip_verify ==> remarks(
            text::texts(w@),
            "outputs.influxdb.tls"@
                + ".insecure_skip_verify is true — certificate verification is DISABLED. Anyone able to intercept this connection can read your metrics and inject fabricated ones. Fix the certificate or set "@,
        ),
        cfg.outputs.prometheus.enabled && cfg.outputs.prometheus.expiration_interval.below(
            cfg.agent.interval,
        ) ==> remarks(text::texts(w@), "outputs.prometheus.expiration_interval ("@),
        cfg.modules.docker.enabled ==> remarks(text::texts(w@), "the "@ + "docker"@),
        cfg.modules.image_updates.enabled ==> remarks(text::texts(w@), "the "@ + "image_updates"@),
{
    let (i, p) = (cfg.outputs.influxdb, cfg.outputs.prometheus);
    let e = Seq::<Seq<char>>::empty();
    let w2 = runtime_warnings(*cfg, agent_warnings(*cfg, e));
    let lists = crate::config::validation::list_warnings(
        *cfg,
        crate::config::validation::prefix_warnings(*cfg, w2),
    );
    let docker_text = crate::config::validation::socket_warning("docker"@);
    let images_text = crate::config::validation::socket_warning("image_updates"@);
    let docker = text::also(lists, cfg.modules.docker.enabled, docker_text);
    let m = cfg.modules.image_updates;
    let short = "modules.image_updates.registry_timeout ("@ + m.registry_timeout.shown()
        + ") is shorter than modules.image_updates.timeout ("@ + m.timeout.shown()
        + ") — the call that reaches a registry gets less time than one the daemon answers itself, and lookups may fail as distribution_query_failed"@;
    let slow = m.enabled && m.registry_timeout.below(m.timeout);
    let w3 = modules_warnings(*cfg, w2);
    let one = text::also(docker, slow, short);
    assert(w3 == text::also(one, m.enabled, images_text));
    let skip = crate::config::validation::unverified_warning("outputs.influxdb.tls"@);
    let plain = "outputs.influxdb.url '"@ + i.url@
        + "' is plaintext HTTP — the API token is sent with every write and is readable by anyone on the path"@;
    let expiry = "outputs.prometheus.expiration_interval ("@ + p.expiration_interval.shown()
        + ") is shorter than agent.interval ("@ + cfg.agent.interval.shown()
        + ") — metrics will expire before they are refreshed and scrapes will show gaps"@;
    let w4 = text::also(w3, i.enabled && i.tls.insecure_skip_verify, skip);
    let w5 = text::also(w4, i.enabled && "http://"@.is_prefix_of(i.url@), plain);
    let gap = p.enabled && p.expiration_interval.below(cfg.agent.interval);
    let w6 = text::also(w5, gap, expiry);
    assert(text::texts(w@) == w6);
    if cfg.modules.docker.enabled {
        let start = "the "@ + "docker"@;
        assert(docker_text.subrange(0, start.len() as int) =~= start);
        lemma_last_remark(lists, docker_text, start);
        lemma_remarks_stay(docker, slow, short, start);
        lemma_remarks_stay(one, m.enabled, images_text, start);
        lemma_remarks_stay(w3, i.enabled && i.tls.insecure_skip_verify, skip, start);
        lemma_remarks_stay(w4, i.enabled && "http://"@.is_prefix_of(i.url@), plain, start);
        lemma_remarks_stay(w5, gap, expiry, start);
    }
    if m.enabled {
        let start = "the "@ + "image_updates"@;
        assert(images_text.subrange(0, start.len() as int) =~= start);
        lemma_last_remark(one, images_text, start);
        lemma_remarks_stay(w3, i.enabled && i.tls.insecure_skip_verify, skip, start);
        lemma_remarks_stay(w4, i.enabled && "http://"@.is_prefix_of(i.url@), plain, start);
        lemma_remarks_stay(w5, gap, expiry, start);
    }
    if i.enabled && i.tls.insecure_skip_verify {
        let start = "outputs.influxdb.tls"@
            + ".insecure_skip_verify is true — certificate verification is DISABLED. Anyone able to intercept this connection can read your metrics and inject fabricated ones. Fix the certificate or set "@;
        assert(skip.subrange(0, start.len() as int) =~= start);
        lemma_last_remark(w3, skip, start);
        lemma_remarks_stay(w4, "http://"@.is_prefix_of(i.url@), plain, start);
        lemma_remarks_stay(w5, gap, expiry, start);
    }
    if i.enabled && "http://"@.is_prefix_of(i.url@) {
        let start = "outputs.influxdb.url '"@ + i.url@;
        assert(plain.subrange(0, start.len() as int) =~= start);
        lemma_last_remark(w4, plain, start);
        lemma_remarks_stay(w5, gap, expiry, start);
    }
    if gap {
        let start = "outputs.prometheus.expiration_interval ("@;
        assert(expiry.subrange(0, start.len() as int) =~= start);
        lemma_last_remark(w5, expiry, start);
    }
}

// ---------------------------------------------------------------------------
// Resolution
// ---------------------------------------------------------------------------

/// A resolved configuration holds what was configured, each setting in its own place,
/// with every secret read from the file that is named for it.
pub proof fn law_a_resolved_configuration_holds_what_was_configured(
    cfg: ConfigV1,
    host: &Host,
    c: Config,
)
    requires
        call_ensures(Config::from_v1, (cfg, host), Ok::<Config, MuninnError>(c)),
    ensures
        c.agent == cfg.agent,
        c.logging == cfg.logging,
        c.modules == cfg.modules,
        c.runtime.shutdown_grace_period == cfg.runtime.shutdown_grace_period,
        c.runtime.telegraf_start_timeout == cfg.runtime.telegraf_start_timeout,
        c.runtime.generated_config_path@ == cfg.runtime.generated_config_path@,
        host.address(cfg.health.listen@) == Some(c.health.listen),
        c.outputs.influxdb is Some <==> cfg.outputs.influxdb.enabled,
        c.outputs.influxdb matches Some(i) ==> {
            let o = cfg.outputs.influxdb;
            &&& i.url@ == o.url@
            &&& i.organization@ == o.organization@
            &&& i.bucket@ == o.bucket@
            &&& i.timeout == o.timeout
            &&& i.tls.ca_file == o.tls.ca_file
            &&& i.tls.cert_file == o.tls.cert_file
            &&& i.tls.key_file == o.tls.key_file
            &&& i.tls.insecure_skip_verify == o.tls.insecure_skip_verify
            &&& host.read(o.token_file@) matches FileRead::Text(raw) && i.token@ == text::trimmed(
                raw@,
            )
        },
        c.outputs.prometheus is Some <==> cfg.outputs.prometheus.enabled,
        c.outputs.prometheus matches Some(p) ==> {
            let o = cfg.outputs.prometheus;
            &&& host.address(o.listen@) == Some(p.listen)
            &&& p.path@ == o.path@
            &&& p.expiration_interval == o.expiration_interval
            &&& p.tls.cert_file == o.tls.cert_file
            &&& p.tls.key_file == o.tls.key_file
            &&& p.tls.client_ca_file == o.tls.client_ca_file
            &&& match (o.basic_auth.username, o.basic_auth.password_file) {
                (Some(user), Some(file)) => p.basic_auth matches Some(auth) && auth.username@
                    == user@ && (host.read(file@) matches FileRead::Text(raw) && auth.password@
                    == text::trimmed(raw@)),
                _ => p.basic_auth is None,
            }
        },
{
}

/// A prefix loses the blanks around it and its trailing slashes, and the root alone is
/// no prefix.
pub proof fn law_a_prefix_is_tidied(
    a: Seq<char>,
    m: Seq<char>,
    slashes: nat,
    b: Seq<char>,
    raw: RuntimeConfig,
    r: Runtime,
)
    requires
        call_ensures(Runtime::from_config, (raw,), r),
        raw.host_mount_prefix@ == a + (m + Seq::new(slashes, |i: int| '/')) + b,
        forall|i: int| 0 <= i < a.len() ==> text::whitespace(#[trigger] a[i]),
        forall|i: int| 0 <= i < b.len() ==> text::whitespace(#[trigger] b[i]),
        m.len() > 0,
        !text::whitespace(m[0]),
        !text::whitespace(m.last()),
        m.last() != '/',
    ensures
        r.host_mount_prefix matches Some(p) && p@ == m,
        r.shutdown_grace_period == raw.shutdown_grace_period,
        r.telegraf_start_timeout == raw.telegraf_start_timeout,
        r.generated_config_path@ == raw.generated_config_path@,
{
    let tail = Seq::new(slashes, |i: int| '/');
    let t = m + tail;
    assert(t[0] == m[0]);
    assert(!text::whitespace(t.last())) by {
        if slashes > 0 {
            assert(t.last() == '/');
        } else {
            assert(t =~= m);
        }
    }
    lemma_trimmed(a, t, b);
    lemma_without_trailing(m, '/', slashes);
    reveal_strlit("/");
    if t == "/"@ {
        assert(m.len() == 1 && m[0] == t[0]);
    }
    assert(text::optional(r.host_mount_prefix) == Some(m));
}

/// Telegraf is told where each of the host's trees is mounted.
pub proof fn law_host_trees_are_below_the_prefix(runtime: &Runtime, r: Vec<(String, String)>)
    requires
        call_ensures(Runtime::host_env, (runtime,), r),
    ensures
        match runtime.host_mount_prefix {
            None => r@.len() == 0,
            Some(p) => p@.len() > 0 && p@.last() != '/' ==> {
                &&& pairs(r@).contains(("HOST_MOUNT_PREFIX"@, p@))
                &&& pairs(r@).contains(("HOST_PROC"@, p@ + "/proc"@))
                &&& pairs(r@).contains(("HOST_SYS"@, p@ + "/sys"@))
                &&& pairs(r@).contains(("HOST_ETC"@, p@ + "/etc"@))
                &&& pairs(r@).contains(("HOST_VAR"@, p@ + "/var"@))
                &&& pairs(r@).contains(("HOST_RUN"@, p@ + "/run"@))
            },
        },
{
    assert(pairs(r@).len() == r@.len());
    if let Some(p) = runtime.host_mount_prefix {
        if p@.len() > 0 && p@.last() != '/' {
            let l = pairs(r@);
            assert(l[0] == ("HOST_MOUNT_PREFIX"@, p@));
            assert(l[1] == ("HOST_PROC"@, p@ + "/proc"@));
            assert(l[2] == ("HOST_SYS"@, p@ + "/sys"@));
            assert(l[3] == ("HOST_ETC"@, p@ + "/etc"@));
            assert(l[4] == ("HOST_VAR"@, p@ + "/var"@));
            assert(l[5] == ("HOST_RUN"@, p@ + "/run"@));
        }
    }
}

/// The redactor of a configuration looks for its token and its password, where they are
/// long enough, and for nothing else.
pub proof fn law_the_redactor_knows_the_configured_secrets(c: &Config, r: Redactor, v: Seq<char>)
    requires
        call_ensures(Config::redactor, (c,), r),
    ensures
        r@.contains(v) <==> crate::secret::size(v) >= 8 && ((c.outputs.influxdb matches Some(i)
            && i.token@ == v) || (c.outputs.prometheus matches Some(p) && p.basic_auth matches Some(
            auth,
        ) && auth.password@ == v)),
{
    let list = c.secrets();
    crate::secret::law_redactor_holds_the_long_values_longest_first(list);
    if let Some(i) = c.outputs.influxdb {
        assert(list[0] == i.token@);
        assert(list.contains(i.token@));
    }
    if let Some(p) = c.outputs.prometheus {
        if let Some(auth) = p.basic_auth {
            assert(list[list.len() - 1] == auth.password@);
            assert(list.contains(auth.password@));
        }
    }
}

/// What is known of a file is found by its path, and of an address by how it is
/// written.
pub proof fn law_facts_are_found_by_name(files: Seq<FileFacts>, addresses: Seq<AddressFacts>, k: int)
    ensures
        0 <= k < files.len() && (forall|i: int|
            0 <= i < k ==> (#[trigger] files[i]).path@ != files[k].path@) ==> find_file(
            files,
            files[k].path@,
            0,
        ) == Some(files[k]),
        0 <= k < addresses.len() && (forall|i: int|
            0 <= i < k ==> (#[trigger] addresses[i]).written@ != addresses[k].written@)
            ==> find_address(addresses, addresses[k].written@, 0) == addresses[k].parsed,
{
    if 0 <= k < files.len() && (forall|i: int|
        0 <= i < k ==> (#[trigger] files[i]).path@ != files[k].path@) {
        lemma_file_skips(files, files[k].path@, 0, k);
    }
    if 0 <= k < addresses.len() && (forall|i: int|
        0 <= i < k ==> (#[trigger] addresses[i]).written@ != addresses[k].written@) {
        lemma_address_skips(addresses, addresses[k].written@, 0, k);
    }
}

proof fn lemma_file_skips(files: Seq<FileFacts>, path: Seq<char>, i: int, k: int)
    requires
        0 <= i <= k < files.len(),
        forall|j: int| i <= j < k ==> (#[trigger] files[j]).path@ != path,
    ensures
        find_file(files, path, i) == find_file(files, path, k),
    decreases k - i,
{
    if i < k {
        assert(files[i].path@ != path);
        lemma_file_skips(files, path, i + 1, k);
    }
}

proof fn lemma_address_skips(addresses: Seq<AddressFacts>, written: Seq<char>, i: int, k: int)
    requires
        0 <= i <= k < addresses.len(),
        forall|j: int| i <= j < k ==> (#[trigger] addresses[j]).written@ != written,
    ensures
        find_address(addresses, written, i) == find_address(addresses, written, k),
    decreases k - i,
{
    if i < k {
        assert(addresses[i].written@ != written);
        lemma_address_skips(addresses, written, i + 1, k);
    }
}

// ---------------------------------------------------------------------------
// Overrides
// ---------------------------------------------------------------------------

/// A level or format that is named, in whatever case, takes the place of the file's; one
/// that is not keeps it, with a warning; and the two do not touch each other.
pub proof fn law_an_override_is_taken_by_its_name(file: LoggingConfig, o: Overrides)
    ensures
        o.log_level matches Some(s) ==> {
            let t = text::lowered(s@);
            let level = overridden(file, o).level;
            &&& t == "trace"@ ==> level == LogLevel::Trace
            &&& t == "debug"@ ==> level == LogLevel::Debug
            &&& t == "info"@ ==> level == LogLevel::Info
            &&& t == "warn"@ ==> level == LogLevel::Warn
            &&& t == "error"@ ==> level == LogLevel::Error
            &&& t != "trace"@ && t != "debug"@ && t != "info"@ && t != "warn"@ && t != "error"@
                ==> level == file.level
        },
        o.log_level is None ==> overridden(file, o).level == file.level,
        o.log_format matches Some(s) ==> {
            let t = text::lowered(s@);
            let format = overridden(file, o).format;
            &&& t == "human"@ ==> format == LogFormat::Human
            &&& t == "json"@ ==> format == LogFormat::Json
            &&& t != "human"@ && t != "json"@ ==> format == file.format
        },
        o.log_format is None ==> overridden(file, o).format == file.format,
        override_warnings(file, o).len() == once(
            o.log_level matches Some(s) && level_named(text::lowered(s@)) is None,
        ) + once(o.log_format matches Some(s) && format_named(text::lowered(s@)) is None),
{
    reveal_strlit("trace");
    reveal_strlit("debug");
    reveal_strlit("info");
    reveal_strlit("warn");
    reveal_strlit("error");
    reveal_strlit("human");
    reveal_strlit("json");
    assert("trace"@[0] == 't' && "debug"@[0] == 'd' && "info"@[0] == 'i' && "warn"@[0] == 'w'
        && "error"@[0] == 'e');
    assert("human"@[0] == 'h' && "json"@[0] == 'j');
}

/// Every module that is on is named, and no other, in the order they are documented in.
pub proof fn law_the_enabled_modules_are_named(m: &ModulesConfig, r: Vec<&'static str>)
    requires
        call_ensures(ModulesConfig::enabled_names, (m,), r),
    ensures
        r@.len() == once(m.cpu.enabled) + once(m.memory.enabled) + once(m.load.enabled) + once(
            m.system.enabled,
        ) + once(m.swap.enabled) + once(m.processes.enabled) + once(m.disks.enabled) + once(
            m.disk_io.enabled,
        ) + once(m.network.enabled) + once(m.docker.enabled) + once(m.updates.enabled) + once(
            m.image_updates.enabled,
        ),
        m.cpu.enabled ==> text::slices(r@).contains("cpu"@),
        m.memory.enabled ==> text::slices(r@).contains("memory"@),
        m.load.enabled ==> text::slices(r@).contains("load"@),
        m.system.enabled ==> text::slices(r@).contains("system"@),
        m.swap.enabled ==> text::slices(r@).contains("swap"@),
        m.processes.enabled ==> text::slices(r@).contains("processes"@),
        m.disks.enabled ==> text::slices(r@).contains("disks"@),
        m.disk_io.enabled ==> text::slices(r@).contains("disk_io"@),
        m.network.enabled ==> text::slices(r@).contains("network"@),
        m.docker.enabled ==> text::slices(r@).contains("docker"@),
        m.updates.enabled ==> text::slices(r@).contains("updates"@),
        m.image_updates.enabled ==> text::slices(r@).contains("image_updates"@),
{
    assert(text::slices(r@).len() == r@.len());
    let n0 = Seq::<Seq<char>>::empty();
    lemma_also(n0, m.cpu.enabled, "cpu"@);
    let n1 = text::also(n0, m.cpu.enabled, "cpu"@);
    lemma_also(n1, m.memory.enabled, "memory"@);
    let n2 = text::also(n1, m.memory.enabled, "memory"@);
    lemma_also(n2, m.load.enabled, "load"@);
    let n3 = text::also(n2, m.load.enabled, "load"@);
    lemma_also(n3, m.system.enabled, "system"@);
    let n4 = text::also(n3, m.system.enabled, "system"@);
    lemma_also(n4, m.swap.enabled, "swap"@);
    let n5 = text::also(n4, m.swap.enabled, "swap"@);
    lemma_also(n5, m.processes.enabled, "processes"@);
    let n6 = text::also(n5, m.processes.enabled, "processes"@);
    lemma_also(n6, m.disks.enabled, "disks"@);
    let n7 = text::also(n6, m.disks.enabled, "disks"@);
    lemma_also(n7, m.disk_io.enabled, "disk_io"@);
    let n8 = text::also(n7, m.disk_io.enabled, "disk_io"@);
    lemma_also(n8, m.network.enabled, "network"@);
    let n9 = text::also(n8, m.network.enabled, "network"@);
    lemma_also(n9, m.docker.enabled, "docker"@);
    let n10 = text::also(n9, m.docker.enabled, "docker"@);
    lemma_also(n10, m.updates.enabled, "updates"@);
    let n11 = text::also(n10, m.updates.enabled, "updates"@);
    lemma_also(n11, m.image_updates.enabled, "image_updates"@);
    let n12 = text::also(n11, m.image_updates.enabled, "image_updates"@);
    assert(text::slices(r@) == n12);
}

proof fn lemma_also(list: Seq<Seq<char>>, present: bool, item: Seq<char>)
    ensures
        text::also(list, present, item).len() == list.len() + once(present),
        present ==> text::also(list, present, item).contains(item),
        forall|x: Seq<char>| #[trigger]
            list.contains(x) ==> text::also(list, present, item).contains(x),
{
    let all = text::also(list, present, item);
    if present {
        assert(all[list.len() as int] == item);
    }
    assert forall|x: Seq<char>| #[trigger] list.contains(x) implies all.contains(x) by {
        let k = choose|k: int| 0 <= k < list.len() && list[k] == x;
        assert(all[k] == x);
    }
}

/// A prefix of nothing but blanks, or the root alone, is no prefix.
pub proof fn law_the_root_is_no_prefix(raw: RuntimeConfig, r: Runtime)
    requires
        call_ensures(Runtime::from_config, (raw,), r),
        text::is_blank(raw.host_mount_prefix@) || raw.host_mount_prefix@ == "/"@,
    ensures
        r.host_mount_prefix is None,
{
    text::lemma_trimmed_empty_iff_blank(raw.host_mount_prefix@);
    reveal_strlit("/");
    if raw.host_mount_prefix@ == "/"@ {
        let none = Seq::<char>::empty();
        lemma_trimmed(none, "/"@, none);
        assert(none + "/"@ + none =~= "/"@);
    }
    assert(text::optional(r.host_mount_prefix) is None);
}

} // verus!
