//! What a configuration file means: every setting is read from the key of its own
//! name, and a valid configuration resolves to what it says.

use vstd::prelude::*;
use vstd::string::*;
use crate::config::host::Host;
use crate::config::loader::{from_document, from_str, overridden, parse, parsed, Overrides};
use crate::config::model::{logging_at, ConfigV1, LogFormat, LogLevel, LoggingConfig};
use crate::config::schema::{part, word_of};
use crate::duration::{span_of, ConfigDuration};
use crate::error::MuninnError;
use crate::text;
use crate::yaml::{find_key, lookup, yaml_document, Node, Yaml};

verus! {

// ---------------------------------------------------------------------------
// What a document says
// ---------------------------------------------------------------------------

/// A key leads to the value beside it, wherever in the mapping it stands.
pub proof fn law_a_key_leads_to_its_value(
    before: Seq<(Node, Node)>,
    key: Seq<char>,
    value: Node,
    after: Seq<(Node, Node)>,
)
    requires
        forall|i: int| 0 <= i < before.len() ==> (#[trigger] before[i]).0 is Text && before[i].0 != Node::Text(key),
    ensures
        lookup(Node::Table(before + seq![(Node::Text(key), value)] + after), key) == Some(value),
        lookup(Node::Table(before), key) is None,
        lookup(Node::Null, key) is None,
{
    let all = before + seq![(Node::Text(key), value)] + after;
    lemma_key_skips(all, key, 0, before.len() as int);
    assert(all[before.len() as int] == (Node::Text(key), value));
    lemma_key_skips(before, key, 0, before.len() as int);
}

proof fn lemma_key_skips(entries: Seq<(Node, Node)>, key: Seq<char>, i: int, k: int)
    requires
        0 <= i <= k <= entries.len(),
        forall|j: int| i <= j < k ==> (#[trigger] entries[j]).0 is Text && entries[j].0 != Node::Text(key),
    ensures
        find_key(entries, key, i) == find_key(entries, key, k),
    decreases k - i,
{
    if i < k {
        assert(entries[i].0 is Text && entries[i].0 != Node::Text(key));
        lemma_key_skips(entries, key, i + 1, k);
    }
}

/// What stands under a key; nothing where the key is not there.
pub open spec fn inside(n: Node, key: Seq<char>) -> Node {
    match lookup(n, key) {
        Some(v) => v,
        None => Node::Null,
    }
}

/// A text setting.
pub open spec fn word_says(n: Node, key: Seq<char>, value: Seq<char>, default: Seq<char>) -> bool {
    match lookup(n, key) {
        Some(Node::Text(t)) => value == t,
        Some(Node::Number(t)) => value == t,
        None => value == default,
        _ => true,
    }
}

/// An optional text setting.
pub open spec fn maybe_says(n: Node, key: Seq<char>, value: Option<String>) -> bool {
    match lookup(n, key) {
        Some(Node::Text(t)) => value matches Some(s) && s@ == t,
        Some(Node::Number(t)) => value matches Some(s) && s@ == t,
        Some(Node::Null) => value is None,
        None => value is None,
        _ => true,
    }
}

/// A switch.
pub open spec fn flag_says(n: Node, key: Seq<char>, value: bool, default: bool) -> bool {
    match lookup(n, key) {
        Some(Node::Bool(b)) => value == b,
        None => value == default,
        _ => true,
    }
}

/// A period.
pub open spec fn span_says(
    n: Node,
    key: Seq<char>,
    value: ConfigDuration,
    default: ConfigDuration,
) -> bool {
    match lookup(n, key) {
        Some(Node::Text(t)) => span_of(t) matches Some(d) ==> value == d,
        None => value == default,
        _ => true,
    }
}

/// A list of texts.
pub open spec fn words_says(
    n: Node,
    key: Seq<char>,
    value: Seq<String>,
    default: Seq<Seq<char>>,
) -> bool {
    match lookup(n, key) {
        Some(Node::List(items)) => {
            &&& value.len() == items.len()
            &&& forall|i: int|
                0 <= i < items.len() ==> (items[i] matches Node::Text(t) ==> (#[trigger] value[i])@
                    == t)
        },
        None => text::texts(value) == default,
        _ => true,
    }
}

/// The `agent` section: each setting is what stands under its own name, or its
/// documented default.
pub open spec fn agent_says(cfg: ConfigV1, root: Node) -> bool {
    let n = inside(root, "agent"@);
    let s = cfg.agent;
    &&& span_says(n, "interval"@, s.interval, ConfigDuration { secs: 30, nanos: 0 })
    &&& span_says(n, "flush_interval"@, s.flush_interval, ConfigDuration { secs: 30, nanos: 0 })
    &&& word_says(n, "hostname"@, s.hostname@, ""@)
    &&& flag_says(n, "omit_hostname"@, s.omit_hostname, false)
}

/// The `runtime` section: each setting is what stands under its own name, or its
/// documented default.
pub open spec fn runtime_says(cfg: ConfigV1, root: Node) -> bool {
    let n = inside(root, "runtime"@);
    let s = cfg.runtime;
    &&& span_says(n, "shutdown_grace_period"@, s.shutdown_grace_period, ConfigDuration { secs: 20, nanos: 0 })
    &&& span_says(n, "telegraf_start_timeout"@, s.telegraf_start_timeout, ConfigDuration { secs: 15, nanos: 0 })
    &&& word_says(n, "generated_config_path"@, s.generated_config_path@, "/run/muninn/telegraf.conf"@)
    &&& word_says(n, "host_mount_prefix"@, s.host_mount_prefix@, "/hostfs"@)
}

/// The `health` section: each setting is what stands under its own name, or its
/// documented default.
pub open spec fn health_says(cfg: ConfigV1, root: Node) -> bool {
    let n = inside(root, "health"@);
    let s = cfg.health;
    &&& word_says(n, "listen"@, s.listen@, "0.0.0.0:8080"@)
}

/// The `modules.cpu` section: each setting is what stands under its own name, or its
/// documented default.
pub open spec fn cpu_says(cfg: ConfigV1, root: Node) -> bool {
    let n = inside(inside(root, "modules"@), "cpu"@);
    let s = cfg.modules.cpu;
    &&& flag_says(n, "enabled"@, s.enabled, false)
}

/// The `modules.memory` section: each setting is what stands under its own name, or its
/// documented default.
pub open spec fn memory_says(cfg: ConfigV1, root: Node) -> bool {
    let n = inside(inside(root, "modules"@), "memory"@);
    let s = cfg.modules.memory;
    &&& flag_says(n, "enabled"@, s.enabled, false)
}

/// The `modules.load` section: each setting is what stands under its own name, or its
/// documented default.
pub open spec fn load_says(cfg: ConfigV1, root: Node) -> bool {
    let n = inside(inside(root, "modules"@), "load"@);
    let s = cfg.modules.load;
    &&& flag_says(n, "enabled"@, s.enabled, false)
}

/// The `modules.system` section: each setting is what stands under its own name, or its
/// documented default.
pub open spec fn system_says(cfg: ConfigV1, root: Node) -> bool {
    let n = inside(inside(root, "modules"@), "system"@);
    let s = cfg.modules.system;
    &&& flag_says(n, "enabled"@, s.enabled, false)
}

/// The `modules.swap` section: each setting is what stands under its own name, or its
/// documented default.
pub open spec fn swap_says(cfg: ConfigV1, root: Node) -> bool {
    let n = inside(inside(root, "modules"@), "swap"@);
    let s = cfg.modules.swap;
    &&& flag_says(n, "enabled"@, s.enabled, false)
}

/// The `modules.processes` section: each setting is what stands under its own name, or its
/// documented default.
pub open spec fn processes_says(cfg: ConfigV1, root: Node) -> bool {
    let n = inside(inside(root, "modules"@), "processes"@);
    let s = cfg.modules.processes;
    &&& flag_says(n, "enabled"@, s.enabled, false)
}

/// The `modules.disks` section: each setting is what stands under its own name, or its
/// documented default.
pub open spec fn disks_says(cfg: ConfigV1, root: Node) -> bool {
    let n = inside(inside(root, "modules"@), "disks"@);
    let s = cfg.modules.disks;
    &&& flag_says(n, "enabled"@, s.enabled, false)
    &&& words_says(n, "exclude_filesystems"@, s.exclude_filesystems@, Seq::empty())
    &&& words_says(n, "exclude_mountpoints"@, s.exclude_mountpoints@, Seq::empty())
    &&& words_says(n, "include_mountpoints"@, s.include_mountpoints@, Seq::empty())
}

/// The `modules.disk_io` section: each setting is what stands under its own name, or its
/// documented default.
pub open spec fn disk_io_says(cfg: ConfigV1, root: Node) -> bool {
    let n = inside(inside(root, "modules"@), "disk_io"@);
    let s = cfg.modules.disk_io;
    &&& flag_says(n, "enabled"@, s.enabled, false)
    &&& words_says(n, "include_devices"@, s.include_devices@, Seq::empty())
    &&& words_says(n, "exclude_devices"@, s.exclude_devices@, Seq::empty())
}

/// The `modules.network` section: each setting is what stands under its own name, or its
/// documented default.
pub open spec fn network_says(cfg: ConfigV1, root: Node) -> bool {
    let n = inside(inside(root, "modules"@), "network"@);
    let s = cfg.modules.network;
    &&& flag_says(n, "enabled"@, s.enabled, false)
    &&& words_says(n, "include_interfaces"@, s.include_interfaces@, Seq::empty())
    &&& words_says(n, "exclude_interfaces"@, s.exclude_interfaces@, Seq::empty())
}

/// The `modules.docker` section: each setting is what stands under its own name, or its
/// documented default.
pub open spec fn docker_says(cfg: ConfigV1, root: Node) -> bool {
    let n = inside(inside(root, "modules"@), "docker"@);
    let s = cfg.modules.docker;
    &&& flag_says(n, "enabled"@, s.enabled, false)
    &&& word_says(n, "endpoint"@, s.endpoint@, "unix:///var/run/docker.sock"@)
    &&& words_says(n, "container_include"@, s.container_include@, Seq::empty())
    &&& words_says(n, "container_exclude"@, s.container_exclude@, Seq::empty())
    &&& span_says(n, "timeout"@, s.timeout, ConfigDuration { secs: 5, nanos: 0 })
    &&& words_says(n, "container_states"@, s.container_states@, seq!["running"@])
}

/// The `modules.updates` section: each setting is what stands under its own name, or its
/// documented default.
pub open spec fn updates_says(cfg: ConfigV1, root: Node) -> bool {
    let n = inside(inside(root, "modules"@), "updates"@);
    let s = cfg.modules.updates;
    &&& flag_says(n, "enabled"@, s.enabled, false)
    &&& span_says(n, "interval"@, s.interval, ConfigDuration { secs: 3600, nanos: 0 })
    &&& flag_says(n, "security_only_metric"@, s.security_only_metric, true)
}

/// The `modules.image_updates` section: each setting is what stands under its own name, or its
/// documented default.
pub open spec fn image_updates_says(cfg: ConfigV1, root: Node) -> bool {
    let n = inside(inside(root, "modules"@), "image_updates"@);
    let s = cfg.modules.image_updates;
    &&& flag_says(n, "enabled"@, s.enabled, false)
    &&& word_says(n, "endpoint"@, s.endpoint@, "unix:///var/run/docker.sock"@)
    &&& span_says(n, "timeout"@, s.timeout, ConfigDuration { secs: 5, nanos: 0 })
    &&& span_says(n, "registry_timeout"@, s.registry_timeout, ConfigDuration { secs: 30, nanos: 0 })
    &&& span_says(n, "interval"@, s.interval, ConfigDuration { secs: 3600, nanos: 0 })
    &&& words_says(n, "container_include"@, s.container_include@, Seq::empty())
    &&& words_says(n, "container_exclude"@, s.container_exclude@, Seq::empty())
}

/// The `outputs.influxdb` section: each setting is what stands under its own name, or its
/// documented default.
pub open spec fn influxdb_says(cfg: ConfigV1, root: Node) -> bool {
    let n = inside(inside(root, "outputs"@), "influxdb"@);
    let s = cfg.outputs.influxdb;
    &&& flag_says(n, "enabled"@, s.enabled, false)
    &&& word_says(n, "url"@, s.url@, ""@)
    &&& word_says(n, "organization"@, s.organization@, ""@)
    &&& word_says(n, "bucket"@, s.bucket@, ""@)
    &&& word_says(n, "token_file"@, s.token_file@, ""@)
    &&& span_says(n, "timeout"@, s.timeout, ConfigDuration { secs: 5, nanos: 0 })
}

/// The `outputs.influxdb.tls` section: each setting is what stands under its own name, or its
/// documented default.
pub open spec fn influxdb_tls_says(cfg: ConfigV1, root: Node) -> bool {
    let n = inside(inside(inside(root, "outputs"@), "influxdb"@), "tls"@);
    let s = cfg.outputs.influxdb.tls;
    &&& maybe_says(n, "ca_file"@, s.ca_file)
    &&& maybe_says(n, "cert_file"@, s.cert_file)
    &&& maybe_says(n, "key_file"@, s.key_file)
    &&& flag_says(n, "insecure_skip_verify"@, s.insecure_skip_verify, false)
}

/// The `outputs.prometheus` section: each setting is what stands under its own name, or its
/// documented default.
pub open spec fn prometheus_says(cfg: ConfigV1, root: Node) -> bool {
    let n = inside(inside(root, "outputs"@), "prometheus"@);
    let s = cfg.outputs.prometheus;
    &&& flag_says(n, "enabled"@, s.enabled, false)
    &&& word_says(n, "listen"@, s.listen@, "0.0.0.0:9273"@)
    &&& word_says(n, "path"@, s.path@, "/metrics"@)
    &&& span_says(n, "expiration_interval"@, s.expiration_interval, ConfigDuration { secs: 60, nanos: 0 })
}

/// The `outputs.prometheus.basic_auth` section: each setting is what stands under its own name, or its
/// documented default.
pub open spec fn basic_auth_says(cfg: ConfigV1, root: Node) -> bool {
    let n = inside(inside(inside(root, "outputs"@), "prometheus"@), "basic_auth"@);
    let s = cfg.outputs.prometheus.basic_auth;
    &&& maybe_says(n, "username"@, s.username)
    &&& maybe_says(n, "password_file"@, s.password_file)
}

/// The `outputs.prometheus.tls` section: each setting is what stands under its own name, or its
/// documented default.
pub open spec fn prometheus_tls_says(cfg: ConfigV1, root: Node) -> bool {
    let n = inside(inside(inside(root, "outputs"@), "prometheus"@), "tls"@);
    let s = cfg.outputs.prometheus.tls;
    &&& maybe_says(n, "cert_file"@, s.cert_file)
    &&& maybe_says(n, "key_file"@, s.key_file)
    &&& maybe_says(n, "client_ca_file"@, s.client_ca_file)
}

/// The `logging` section of the file.
pub open spec fn logging_says(logging: LoggingConfig, root: Node) -> bool {
    let n = inside(root, "logging"@);
    &&& match lookup(n, "level"@) {
        Some(Node::Text(t)) => {
            &&& t == "trace"@ ==> logging.level == LogLevel::Trace
            &&& t == "debug"@ ==> logging.level == LogLevel::Debug
            &&& t == "info"@ ==> logging.level == LogLevel::Info
            &&& t == "warn"@ ==> logging.level == LogLevel::Warn
            &&& t == "error"@ ==> logging.level == LogLevel::Error
        },
        None => logging.level == LogLevel::Info,
        _ => true,
    }
    &&& match lookup(n, "format"@) {
        Some(Node::Text(t)) => {
            &&& t == "human"@ ==> logging.format == LogFormat::Human
            &&& t == "json"@ ==> logging.format == LogFormat::Json
        },
        None => logging.format == LogFormat::Human,
        _ => true,
    }
}

/// The credentials for registries, each from its own entry and in their order.
pub open spec fn registry_auth_says(cfg: ConfigV1, root: Node) -> bool {
    let n = inside(inside(root, "modules"@), "image_updates"@);
    let list = cfg.modules.image_updates.registry_auth@;
    match lookup(n, "registry_auth"@) {
        Some(Node::List(items)) => {
            &&& list.len() == items.len()
            &&& forall|i: int|
                0 <= i < items.len() ==> {
                    &&& word_says(items[i], "registry"@, (#[trigger] list[i]).registry@, ""@)
                    &&& word_says(items[i], "username"@, list[i].username@, ""@)
                    &&& word_says(items[i], "password_file"@, list[i].password_file@, ""@)
                }
        },
        None => list.len() == 0,
        _ => true,
    }
}

/// Every setting of a configuration is what the document says under its name.
pub open spec fn says(cfg: ConfigV1, root: Node) -> bool {
    &&& agent_says(cfg, root)
    &&& runtime_says(cfg, root)
    &&& health_says(cfg, root)
    &&& cpu_says(cfg, root)
    &&& memory_says(cfg, root)
    &&& load_says(cfg, root)
    &&& system_says(cfg, root)
    &&& swap_says(cfg, root)
    &&& processes_says(cfg, root)
    &&& disks_says(cfg, root)
    &&& disk_io_says(cfg, root)
    &&& network_says(cfg, root)
    &&& docker_says(cfg, root)
    &&& updates_says(cfg, root)
    &&& image_updates_says(cfg, root)
    &&& influxdb_says(cfg, root)
    &&& influxdb_tls_says(cfg, root)
    &&& prometheus_says(cfg, root)
    &&& basic_auth_says(cfg, root)
    &&& prometheus_tls_says(cfg, root)
    &&& registry_auth_says(cfg, root)
}

proof fn lemma_words(n: Node, key: Seq<char>, value: Seq<String>, default: Seq<Seq<char>>)
    requires
        text::texts(value) == crate::config::schema::words_at(n, key, default),
    ensures
        words_says(n, key, value, default),
{
    if let Some(Node::List(items)) = lookup(n, key) {
        let all = items.map_values(|v: Node| word_of(v));
        assert(text::texts(value).len() == value.len());
        assert forall|i: int| 0 <= i < items.len() implies (items[i] matches Node::Text(t)
            ==> (#[trigger] value[i])@ == t) by {
            assert(text::texts(value)[i] == value[i]@);
            assert(all[i] == word_of(items[i]));
        }
    }
}

proof fn lemma_agent(cfg: ConfigV1, root: Node)
    requires
        cfg.agent.reads(inside(root, "agent"@)),
    ensures
        agent_says(cfg, root),
{
}

proof fn lemma_runtime(cfg: ConfigV1, root: Node)
    requires
        cfg.runtime.reads(inside(root, "runtime"@)),
    ensures
        runtime_says(cfg, root),
{
}

proof fn lemma_health(cfg: ConfigV1, root: Node)
    requires
        cfg.health.reads(inside(root, "health"@)),
    ensures
        health_says(cfg, root),
{
}

proof fn lemma_cpu(cfg: ConfigV1, root: Node)
    requires
        cfg.modules.cpu.reads(inside(inside(root, "modules"@), "cpu"@)),
    ensures
        cpu_says(cfg, root),
{
}

proof fn lemma_memory(cfg: ConfigV1, root: Node)
    requires
        cfg.modules.memory.reads(inside(inside(root, "modules"@), "memory"@)),
    ensures
        memory_says(cfg, root),
{
}

proof fn lemma_load(cfg: ConfigV1, root: Node)
    requires
        cfg.modules.load.reads(inside(inside(root, "modules"@), "load"@)),
    ensures
        load_says(cfg, root),
{
}

proof fn lemma_system(cfg: ConfigV1, root: Node)
    requires
        cfg.modules.system.reads(inside(inside(root, "modules"@), "system"@)),
    ensures
        system_says(cfg, root),
{
}

proof fn lemma_swap(cfg: ConfigV1, root: Node)
    requires
        cfg.modules.swap.reads(inside(inside(root, "modules"@), "swap"@)),
    ensures
        swap_says(cfg, root),
{
}

proof fn lemma_processes(cfg: ConfigV1, root: Node)
    requires
        cfg.modules.processes.reads(inside(inside(root, "modules"@), "processes"@)),
    ensures
        processes_says(cfg, root),
{
}

proof fn lemma_disks(cfg: ConfigV1, root: Node)
    requires
        cfg.modules.disks.reads(inside(inside(root, "modules"@), "disks"@)),
    ensures
        disks_says(cfg, root),
{
    let n = inside(inside(root, "modules"@), "disks"@);
    lemma_words(n, "exclude_filesystems"@, cfg.modules.disks.exclude_filesystems@, Seq::empty());
    lemma_words(n, "exclude_mountpoints"@, cfg.modules.disks.exclude_mountpoints@, Seq::empty());
    lemma_words(n, "include_mountpoints"@, cfg.modules.disks.include_mountpoints@, Seq::empty());
}

proof fn lemma_disk_io(cfg: ConfigV1, root: Node)
    requires
        cfg.modules.disk_io.reads(inside(inside(root, "modules"@), "disk_io"@)),
    ensures
        disk_io_says(cfg, root),
{
    let n = inside(inside(root, "modules"@), "disk_io"@);
    lemma_words(n, "include_devices"@, cfg.modules.disk_io.include_devices@, Seq::empty());
    lemma_words(n, "exclude_devices"@, cfg.modules.disk_io.exclude_devices@, Seq::empty());
}

proof fn lemma_network(cfg: ConfigV1, root: Node)
    requires
        cfg.modules.network.reads(inside(inside(root, "modules"@), "network"@)),
    ensures
        network_says(cfg, root),
{
    let n = inside(inside(root, "modules"@), "network"@);
    lemma_words(n, "include_interfaces"@, cfg.modules.network.include_interfaces@, Seq::empty());
    lemma_words(n, "exclude_interfaces"@, cfg.modules.network.exclude_interfaces@, Seq::empty());
}

proof fn lemma_docker(cfg: ConfigV1, root: Node)
    requires
        cfg.modules.docker.reads(inside(inside(root, "modules"@), "docker"@)),
    ensures
        docker_says(cfg, root),
{
    let n = inside(inside(root, "modules"@), "docker"@);
    lemma_words(n, "container_include"@, cfg.modules.docker.container_include@, Seq::empty());
    lemma_words(n, "container_exclude"@, cfg.modules.docker.container_exclude@, Seq::empty());
    lemma_words(n, "container_states"@, cfg.modules.docker.container_states@, seq!["running"@]);
}

proof fn lemma_updates(cfg: ConfigV1, root: Node)
    requires
        cfg.modules.updates.reads(inside(inside(root, "modules"@), "updates"@)),
    ensures
        updates_says(cfg, root),
{
}

proof fn lemma_image_updates(cfg: ConfigV1, root: Node)
    requires
        cfg.modules.image_updates.reads(inside(inside(root, "modules"@), "image_updates"@)),
    ensures
        image_updates_says(cfg, root),
{
    let n = inside(inside(root, "modules"@), "image_updates"@);
    lemma_words(n, "container_include"@, cfg.modules.image_updates.container_include@, Seq::empty());
    lemma_words(n, "container_exclude"@, cfg.modules.image_updates.container_exclude@, Seq::empty());
}

proof fn lemma_influxdb(cfg: ConfigV1, root: Node)
    requires
        cfg.outputs.influxdb.reads(inside(inside(root, "outputs"@), "influxdb"@)),
    ensures
        influxdb_says(cfg, root),
{
}

proof fn lemma_influxdb_tls(cfg: ConfigV1, root: Node)
    requires
        cfg.outputs.influxdb.tls.reads(inside(inside(inside(root, "outputs"@), "influxdb"@), "tls"@)),
    ensures
        influxdb_tls_says(cfg, root),
{
}

proof fn lemma_prometheus(cfg: ConfigV1, root: Node)
    requires
        cfg.outputs.prometheus.reads(inside(inside(root, "outputs"@), "prometheus"@)),
    ensures
        prometheus_says(cfg, root),
{
}

proof fn lemma_basic_auth(cfg: ConfigV1, root: Node)
    requires
        cfg.outputs.prometheus.basic_auth.reads(inside(inside(inside(root, "outputs"@), "prometheus"@), "basic_auth"@)),
    ensures
        basic_auth_says(cfg, root),
{
}

proof fn lemma_prometheus_tls(cfg: ConfigV1, root: Node)
    requires
        cfg.outputs.prometheus.tls.reads(inside(inside(inside(root, "outputs"@), "prometheus"@), "tls"@)),
    ensures
        prometheus_tls_says(cfg, root),
{
}

proof fn lemma_registry_auth(cfg: ConfigV1, root: Node)
    requires
        cfg.modules.image_updates.reads(inside(inside(root, "modules"@), "image_updates"@)),
    ensures
        registry_auth_says(cfg, root),
{
    let n = inside(inside(root, "modules"@), "image_updates"@);
    let list = cfg.modules.image_updates.registry_auth@;
    if let Some(Node::List(items)) = lookup(n, "registry_auth"@) {
        assert forall|i: int| 0 <= i < items.len() implies {
            &&& word_says(items[i], "registry"@, (#[trigger] list[i]).registry@, ""@)
            &&& word_says(items[i], "username"@, list[i].username@, ""@)
            &&& word_says(items[i], "password_file"@, list[i].password_file@, ""@)
        } by {
            assert(list[i].reads(items[i]));
        }
    }
}

proof fn lemma_says(cfg: ConfigV1, root: Node, logging: LoggingConfig)
    requires
        cfg.reads_with(root, logging),
    ensures
        says(cfg, root),
{
    let (m, o) = (inside(root, "modules"@), inside(root, "outputs"@));
    assert(m == part(root, "modules"@) && o == part(root, "outputs"@));
    lemma_agent(cfg, root);
    lemma_runtime(cfg, root);
    lemma_health(cfg, root);
    lemma_cpu(cfg, root);
    lemma_memory(cfg, root);
    lemma_load(cfg, root);
    lemma_system(cfg, root);
    lemma_swap(cfg, root);
    lemma_processes(cfg, root);
    lemma_disks(cfg, root);
    lemma_disk_io(cfg, root);
    lemma_network(cfg, root);
    lemma_docker(cfg, root);
    lemma_updates(cfg, root);
    lemma_image_updates(cfg, root);
    lemma_influxdb(cfg, root);
    lemma_influxdb_tls(cfg, root);
    lemma_prometheus(cfg, root);
    lemma_basic_auth(cfg, root);
    lemma_prometheus_tls(cfg, root);
    lemma_registry_auth(cfg, root);
}

/// The configuration a document loads as has every setting from the key of its own
/// name, so that no two settings can be exchanged, and the documented default for
/// every key that is left out.
pub proof fn law_every_setting_is_read_from_its_own_key(
    doc: &Result<Option<Yaml>, String>,
    cfg: ConfigV1,
    root: Node,
)
    requires
        call_ensures(parse, (doc,), Ok::<ConfigV1, MuninnError>(cfg)),
        parsed(*doc) == Ok::<Option<Node>, Seq<char>>(Some(root)),
    ensures
        says(cfg, root),
        logging_says(cfg.logging, root),
        cfg.version == 1,
{
    lemma_says(cfg, root, logging_at(part(root, "logging"@)));
    lemma_logging(root);
}

proof fn lemma_logging(root: Node)
    ensures
        logging_says(logging_at(part(root, "logging"@)), root),
{
    reveal_strlit("trace");
    reveal_strlit("debug");
    reveal_strlit("info");
    reveal_strlit("warn");
    reveal_strlit("error");
    reveal_strlit("human");
    reveal_strlit("json");
    let words = seq!["trace"@, "debug"@, "info"@, "warn"@, "error"@];
    assert("trace"@[0] == 't' && "debug"@[0] == 'd' && "info"@[0] == 'i' && "warn"@[0] == 'w'
        && "error"@[0] == 'e');
    assert("human"@[0] == 'h' && "json"@[0] == 'j');
}

/// The same holds once the overrides are applied and the rules are kept: they change
/// nothing but the logging settings.
pub proof fn law_overrides_change_only_logging(
    doc: &Result<Option<Yaml>, String>,
    o: &Overrides,
    host: &Host,
    cfg: ConfigV1,
    w: Vec<String>,
    root: Node,
)
    requires
        call_ensures(
            from_document,
            (doc, o, host),
            Ok::<(ConfigV1, Vec<String>), MuninnError>((cfg, w)),
        ),
        parsed(*doc) == Ok::<Option<Node>, Seq<char>>(Some(root)),
    ensures
        says(cfg, root),
        o.log_level is None && o.log_format is None ==> logging_says(cfg.logging, root),
{
    let file = logging_at(part(root, "logging"@));
    lemma_says(cfg, root, overridden(file, *o));
    lemma_logging(root);
}

/// A text is loaded as the document it holds.
pub proof fn law_a_text_loads_as_its_document(
    content: &str,
    o: &Overrides,
    host: &Host,
    cfg: ConfigV1,
    w: Vec<String>,
    root: Node,
)
    requires
        call_ensures(
            from_str,
            (content, o, host),
            Ok::<(ConfigV1, Vec<String>), MuninnError>((cfg, w)),
        ),
        yaml_document(content@) == Ok::<Option<Node>, Seq<char>>(Some(root)),
    ensures
        says(cfg, root),
{
    let file = logging_at(part(root, "logging"@));
    lemma_says(cfg, root, overridden(file, *o));
}

} // verus!
