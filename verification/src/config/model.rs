//! The configuration as the file writes it: paths stay strings, secrets stay
//! paths, addresses stay unparsed.
//!
//! Everything is off by default. A module the file does not name does not
//! collect: what the file says is exactly what runs.

use vstd::prelude::*;
use vstd::string::*;
use crate::config::schema::{
    flag_at, items_at, maybe_word_at, part, read_flag, read_maybe_word, read_span, read_word,
    read_words, section, span_at, word_at, words_at,
};
use crate::duration::ConfigDuration;
use crate::text;
use crate::yaml::{Node, Yaml};

verus! {

/// The schema version this build understands.
pub const SCHEMA_VERSION: u32 = 1;

/// A span of whole seconds.
pub open spec fn seconds(n: u64) -> ConfigDuration {
    ConfigDuration { secs: n, nanos: 0 }
}

// ---------------------------------------------------------------------------
// Logging
// ---------------------------------------------------------------------------

#[derive(Debug, Clone, Copy, PartialEq, Eq, Structural)]
pub enum LogFormat {
    Human,
    Json,
}

#[derive(Debug, Clone, Copy, PartialEq, Eq, Structural)]
pub enum LogLevel {
    Trace,
    Debug,
    Info,
    Warn,
    Error,
}

/// The level a word names.
pub open spec fn level_named(t: Seq<char>) -> Option<LogLevel> {
    if t == "trace"@ {
        Some(LogLevel::Trace)
    } else if t == "debug"@ {
        Some(LogLevel::Debug)
    } else if t == "info"@ {
        Some(LogLevel::Info)
    } else if t == "warn"@ {
        Some(LogLevel::Warn)
    } else if t == "error"@ {
        Some(LogLevel::Error)
    } else {
        None
    }
}

/// The format a word names.
pub open spec fn format_named(t: Seq<char>) -> Option<LogFormat> {
    if t == "human"@ {
        Some(LogFormat::Human)
    } else if t == "json"@ {
        Some(LogFormat::Json)
    } else {
        None
    }
}

impl LogLevel {
    /// The level `t` names, if it names one.
    pub fn parse(t: &str) -> (r: Option<Self>)
        ensures
            r == level_named(t@),
    {
        if text::same(t, "trace") {
            Some(LogLevel::Trace)
        } else if text::same(t, "debug") {
            Some(LogLevel::Debug)
        } else if text::same(t, "info") {
            Some(LogLevel::Info)
        } else if text::same(t, "warn") {
            Some(LogLevel::Warn)
        } else if text::same(t, "error") {
            Some(LogLevel::Error)
        } else {
            None
        }
    }

    /// Telegraf's two verbosity knobs, `debug` and `quiet`, for this level.
    pub fn telegraf_flags(&self) -> (r: (bool, bool))
        ensures
            r.0 == (*self == LogLevel::Trace || *self == LogLevel::Debug),
            r.1 == (*self == LogLevel::Warn || *self == LogLevel::Error),
            !(r.0 && r.1),
    {
        match self {
            LogLevel::Trace | LogLevel::Debug => (true, false),
            LogLevel::Info => (false, false),
            LogLevel::Warn | LogLevel::Error => (false, true),
        }
    }

    pub open spec fn name(self) -> Seq<char> {
        match self {
            LogLevel::Trace => "trace"@,
            LogLevel::Debug => "debug"@,
            LogLevel::Info => "info"@,
            LogLevel::Warn => "warn"@,
            LogLevel::Error => "error"@,
        }
    }

    pub fn as_str(&self) -> (r: &'static str)
        ensures
            r@ == self.name(),
    {
        match self {
            LogLevel::Trace => "trace",
            LogLevel::Debug => "debug",
            LogLevel::Info => "info",
            LogLevel::Warn => "warn",
            LogLevel::Error => "error",
        }
    }
}

impl Default for LogLevel {
    fn default() -> (r: Self)
        ensures
            r == LogLevel::Info,
    {
        LogLevel::Info
    }
}

impl LogFormat {
    /// The format `t` names, if it names one.
    pub fn parse(t: &str) -> (r: Option<Self>)
        ensures
            r == format_named(t@),
    {
        if text::same(t, "human") {
            Some(LogFormat::Human)
        } else if text::same(t, "json") {
            Some(LogFormat::Json)
        } else {
            None
        }
    }

    pub open spec fn name(self) -> Seq<char> {
        match self {
            LogFormat::Human => "Human"@,
            LogFormat::Json => "Json"@,
        }
    }

    pub fn as_str(&self) -> (r: &'static str)
        ensures
            r@ == self.name(),
    {
        match self {
            LogFormat::Human => "Human",
            LogFormat::Json => "Json",
        }
    }
}

impl Default for LogFormat {
    fn default() -> (r: Self)
        ensures
            r == LogFormat::Human,
    {
        LogFormat::Human
    }
}

#[derive(Debug, Clone, Copy, PartialEq, Eq, Structural)]
pub struct LoggingConfig {
    pub format: LogFormat,
    pub level: LogLevel,
}

/// The logging section a document holds.
pub open spec fn logging_at(n: Node) -> LoggingConfig {
    LoggingConfig {
        format: match format_named(word_at(n, "format"@, "human"@)) {
            Some(f) => f,
            None => LogFormat::Human,
        },
        level: match level_named(word_at(n, "level"@, "info"@)) {
            Some(l) => l,
            None => LogLevel::Info,
        },
    }
}

impl LoggingConfig {
    pub fn decode(y: &Yaml) -> (r: Self)
        ensures
            r == logging_at(y@),
    {
        let format = match LogFormat::parse(&read_word(y, "format", "human")) {
            Some(f) => f,
            None => LogFormat::Human,
        };
        let level = match LogLevel::parse(&read_word(y, "level", "info")) {
            Some(l) => l,
            None => LogLevel::Info,
        };
        LoggingConfig { format, level }
    }
}

impl Default for LoggingConfig {
    fn default() -> (r: Self)
        ensures
            r.format == LogFormat::Human,
            r.level == LogLevel::Info,
    {
        LoggingConfig { format: LogFormat::Human, level: LogLevel::Info }
    }
}

// ---------------------------------------------------------------------------
// Agent, runtime, health
// ---------------------------------------------------------------------------

/// How often metrics are collected and sent, and under which name.
#[derive(Debug, Clone)]
pub struct AgentConfig {
    pub interval: ConfigDuration,
    pub flush_interval: ConfigDuration,
    /// Empty means "ask the operating system".
    pub hostname: String,
    pub omit_hostname: bool,
}

impl AgentConfig {
    /// Whether this is what a section reads as, documented defaults included.
    pub open spec fn reads(self, n: Node) -> bool {
        &&& self.interval == span_at(n, "interval"@, seconds(30))
        &&& self.flush_interval == span_at(n, "flush_interval"@, seconds(30))
        &&& self.hostname@ == word_at(n, "hostname"@, ""@)
        &&& self.omit_hostname == flag_at(n, "omit_hostname"@, false)
    }

    /// The section a document holds, with the documented defaults for what it
    /// leaves out.
    pub fn decode(y: &Yaml) -> (r: Self)
        ensures
            r.reads(y@),
    {
        AgentConfig {
            interval: read_span(y, "interval", ConfigDuration::from_secs(30)),
            flush_interval: read_span(y, "flush_interval", ConfigDuration::from_secs(30)),
            hostname: read_word(y, "hostname", ""),
            omit_hostname: read_flag(y, "omit_hostname", false),
        }
    }
}

impl Default for AgentConfig {
    fn default() -> (r: Self)
        ensures
            r.reads(Node::Null),
    {
        AgentConfig::decode(&Yaml::Null)
    }
}

/// How the agent itself runs.
#[derive(Debug, Clone)]
pub struct RuntimeConfig {
    pub shutdown_grace_period: ConfigDuration,
    pub telegraf_start_timeout: ConfigDuration,
    pub generated_config_path: String,
    /// Where the host filesystem is mounted; empty on the host itself.
    pub host_mount_prefix: String,
}

impl RuntimeConfig {
    /// Whether this is what a section reads as, documented defaults included.
    pub open spec fn reads(self, n: Node) -> bool {
        &&& self.shutdown_grace_period == span_at(n, "shutdown_grace_period"@, seconds(20))
        &&& self.telegraf_start_timeout == span_at(n, "telegraf_start_timeout"@, seconds(15))
        &&& self.generated_config_path@ == word_at(n, "generated_config_path"@, "/run/muninn/telegraf.conf"@)
        &&& self.host_mount_prefix@ == word_at(n, "host_mount_prefix"@, "/hostfs"@)
    }

    /// The section a document holds, with the documented defaults for what it
    /// leaves out.
    pub fn decode(y: &Yaml) -> (r: Self)
        ensures
            r.reads(y@),
    {
        RuntimeConfig {
            shutdown_grace_period: read_span(y, "shutdown_grace_period", ConfigDuration::from_secs(20)),
            telegraf_start_timeout: read_span(y, "telegraf_start_timeout", ConfigDuration::from_secs(15)),
            generated_config_path: read_word(y, "generated_config_path", "/run/muninn/telegraf.conf"),
            host_mount_prefix: read_word(y, "host_mount_prefix", "/hostfs"),
        }
    }
}

impl Default for RuntimeConfig {
    fn default() -> (r: Self)
        ensures
            r.reads(Node::Null),
    {
        RuntimeConfig::decode(&Yaml::Null)
    }
}

/// Where the health endpoints listen.
#[derive(Debug, Clone)]
pub struct HealthConfig {
    pub listen: String,
}

impl HealthConfig {
    /// Whether this is what a section reads as, documented defaults included.
    pub open spec fn reads(self, n: Node) -> bool {
        &&& self.listen@ == word_at(n, "listen"@, "0.0.0.0:8080"@)
    }

    /// The section a document holds, with the documented defaults for what it
    /// leaves out.
    pub fn decode(y: &Yaml) -> (r: Self)
        ensures
            r.reads(y@),
    {
        HealthConfig {
            listen: read_word(y, "listen", "0.0.0.0:8080"),
        }
    }
}

impl Default for HealthConfig {
    fn default() -> (r: Self)
        ensures
            r.reads(Node::Null),
    {
        HealthConfig::decode(&Yaml::Null)
    }
}

// ---------------------------------------------------------------------------
// Modules
// ---------------------------------------------------------------------------

/// A module with nothing to configure beyond being on or off.
#[derive(Debug, Clone, Copy)]
pub struct SimpleModule {
    pub enabled: bool,
}

impl SimpleModule {
    /// Whether this is what a section reads as, documented defaults included.
    pub open spec fn reads(self, n: Node) -> bool {
        &&& self.enabled == flag_at(n, "enabled"@, false)
    }

    /// The section a document holds, with the documented defaults for what it
    /// leaves out.
    pub fn decode(y: &Yaml) -> (r: Self)
        ensures
            r.reads(y@),
    {
        SimpleModule {
            enabled: read_flag(y, "enabled", false),
        }
    }
}

impl Default for SimpleModule {
    fn default() -> (r: Self)
        ensures
            r.reads(Node::Null),
    {
        SimpleModule::decode(&Yaml::Null)
    }
}

/// Disk usage.
#[derive(Debug, Clone)]
pub struct DisksModule {
    pub enabled: bool,
    /// Filesystem types to skip.
    pub exclude_filesystems: Vec<String>,
    /// Mount-point globs to drop.
    pub exclude_mountpoints: Vec<String>,
    /// Restricts collection to these mount points.
    pub include_mountpoints: Vec<String>,
}

impl DisksModule {
    /// Whether this is what a section reads as, documented defaults included.
    pub open spec fn reads(self, n: Node) -> bool {
        &&& self.enabled == flag_at(n, "enabled"@, false)
        &&& text::texts(self.exclude_filesystems@) == words_at(n, "exclude_filesystems"@, Seq::empty())
        &&& text::texts(self.exclude_mountpoints@) == words_at(n, "exclude_mountpoints"@, Seq::empty())
        &&& text::texts(self.include_mountpoints@) == words_at(n, "include_mountpoints"@, Seq::empty())
    }

    /// The section a document holds, with the documented defaults for what it
    /// leaves out.
    pub fn decode(y: &Yaml) -> (r: Self)
        ensures
            r.reads(y@),
    {
        let exclude_filesystems_default: Vec<String> = Vec::new();
        proof {
            assert(text::texts(exclude_filesystems_default@) =~= Seq::<Seq<char>>::empty());
        }
        let exclude_mountpoints_default: Vec<String> = Vec::new();
        proof {
            assert(text::texts(exclude_mountpoints_default@) =~= Seq::<Seq<char>>::empty());
        }
        let include_mountpoints_default: Vec<String> = Vec::new();
        proof {
            assert(text::texts(include_mountpoints_default@) =~= Seq::<Seq<char>>::empty());
        }
        DisksModule {
            enabled: read_flag(y, "enabled", false),
            exclude_filesystems: read_words(y, "exclude_filesystems", exclude_filesystems_default),
            exclude_mountpoints: read_words(y, "exclude_mountpoints", exclude_mountpoints_default),
            include_mountpoints: read_words(y, "include_mountpoints", include_mountpoints_default),
        }
    }
}

impl Default for DisksModule {
    fn default() -> (r: Self)
        ensures
            r.reads(Node::Null),
    {
        DisksModule::decode(&Yaml::Null)
    }
}

/// Disk throughput.
#[derive(Debug, Clone)]
pub struct DiskIoModule {
    pub enabled: bool,
    pub include_devices: Vec<String>,
    pub exclude_devices: Vec<String>,
}

impl DiskIoModule {
    /// Whether this is what a section reads as, documented defaults included.
    pub open spec fn reads(self, n: Node) -> bool {
        &&& self.enabled == flag_at(n, "enabled"@, false)
        &&& text::texts(self.include_devices@) == words_at(n, "include_devices"@, Seq::empty())
        &&& text::texts(self.exclude_devices@) == words_at(n, "exclude_devices"@, Seq::empty())
    }

    /// The section a document holds, with the documented defaults for what it
    /// leaves out.
    pub fn decode(y: &Yaml) -> (r: Self)
        ensures
            r.reads(y@),
    {
        let include_devices_default: Vec<String> = Vec::new();
        proof {
            assert(text::texts(include_devices_default@) =~= Seq::<Seq<char>>::empty());
        }
        let exclude_devices_default: Vec<String> = Vec::new();
        proof {
            assert(text::texts(exclude_devices_default@) =~= Seq::<Seq<char>>::empty());
        }
        DiskIoModule {
            enabled: read_flag(y, "enabled", false),
            include_devices: read_words(y, "include_devices", include_devices_default),
            exclude_devices: read_words(y, "exclude_devices", exclude_devices_default),
        }
    }
}

impl Default for DiskIoModule {
    fn default() -> (r: Self)
        ensures
            r.reads(Node::Null),
    {
        DiskIoModule::decode(&Yaml::Null)
    }
}

/// Network interfaces.
#[derive(Debug, Clone)]
pub struct NetworkModule {
    pub enabled: bool,
    pub include_interfaces: Vec<String>,
    pub exclude_interfaces: Vec<String>,
}

impl NetworkModule {
    /// Whether this is what a section reads as, documented defaults included.
    pub open spec fn reads(self, n: Node) -> bool {
        &&& self.enabled == flag_at(n, "enabled"@, false)
        &&& text::texts(self.include_interfaces@) == words_at(n, "include_interfaces"@, Seq::empty())
        &&& text::texts(self.exclude_interfaces@) == words_at(n, "exclude_interfaces"@, Seq::empty())
    }

    /// The section a document holds, with the documented defaults for what it
    /// leaves out.
    pub fn decode(y: &Yaml) -> (r: Self)
        ensures
            r.reads(y@),
    {
        let include_interfaces_default: Vec<String> = Vec::new();
        proof {
            assert(text::texts(include_interfaces_default@) =~= Seq::<Seq<char>>::empty());
        }
        let exclude_interfaces_default: Vec<String> = Vec::new();
        proof {
            assert(text::texts(exclude_interfaces_default@) =~= Seq::<Seq<char>>::empty());
        }
        NetworkModule {
            enabled: read_flag(y, "enabled", false),
            include_interfaces: read_words(y, "include_interfaces", include_interfaces_default),
            exclude_interfaces: read_words(y, "exclude_interfaces", exclude_interfaces_default),
        }
    }
}

impl Default for NetworkModule {
    fn default() -> (r: Self)
        ensures
            r.reads(Node::Null),
    {
        NetworkModule::decode(&Yaml::Null)
    }
}

/// Off by default: socket access is root-equivalent on the host.
#[derive(Debug, Clone)]
pub struct DockerModule {
    pub enabled: bool,
    pub endpoint: String,
    pub container_include: Vec<String>,
    pub container_exclude: Vec<String>,
    pub timeout: ConfigDuration,
    /// Which container states to collect.
    pub container_states: Vec<String>,
}

impl DockerModule {
    /// Whether this is what a section reads as, documented defaults included.
    pub open spec fn reads(self, n: Node) -> bool {
        &&& self.enabled == flag_at(n, "enabled"@, false)
        &&& self.endpoint@ == word_at(n, "endpoint"@, "unix:///var/run/docker.sock"@)
        &&& text::texts(self.container_include@) == words_at(n, "container_include"@, Seq::empty())
        &&& text::texts(self.container_exclude@) == words_at(n, "container_exclude"@, Seq::empty())
        &&& self.timeout == span_at(n, "timeout"@, seconds(5))
        &&& text::texts(self.container_states@) == words_at(n, "container_states"@, seq!["running"@])
    }

    /// The section a document holds, with the documented defaults for what it
    /// leaves out.
    pub fn decode(y: &Yaml) -> (r: Self)
        ensures
            r.reads(y@),
    {
        let container_include_default: Vec<String> = Vec::new();
        proof {
            assert(text::texts(container_include_default@) =~= Seq::<Seq<char>>::empty());
        }
        let container_exclude_default: Vec<String> = Vec::new();
        proof {
            assert(text::texts(container_exclude_default@) =~= Seq::<Seq<char>>::empty());
        }
        let mut container_states_default: Vec<String> = Vec::new();
        proof {
            assert(text::texts(container_states_default@) =~= Seq::<Seq<char>>::empty());
        }
        text::note(&mut container_states_default, "running".to_owned());
        DockerModule {
            enabled: read_flag(y, "enabled", false),
            endpoint: read_word(y, "endpoint", "unix:///var/run/docker.sock"),
            container_include: read_words(y, "container_include", container_include_default),
            container_exclude: read_words(y, "container_exclude", container_exclude_default),
            timeout: read_span(y, "timeout", ConfigDuration::from_secs(5)),
            container_states: read_words(y, "container_states", container_states_default),
        }
    }
}

impl Default for DockerModule {
    fn default() -> (r: Self)
        ensures
            r.reads(Node::Null),
    {
        DockerModule::decode(&Yaml::Null)
    }
}

/// Pending package updates on the host.
#[derive(Debug, Clone)]
pub struct UpdatesModule {
    pub enabled: bool,
    pub interval: ConfigDuration,
    pub security_only_metric: bool,
}

impl UpdatesModule {
    /// Whether this is what a section reads as, documented defaults included.
    pub open spec fn reads(self, n: Node) -> bool {
        &&& self.enabled == flag_at(n, "enabled"@, false)
        &&& self.interval == span_at(n, "interval"@, seconds(3600))
        &&& self.security_only_metric == flag_at(n, "security_only_metric"@, true)
    }

    /// The section a document holds, with the documented defaults for what it
    /// leaves out.
    pub fn decode(y: &Yaml) -> (r: Self)
        ensures
            r.reads(y@),
    {
        UpdatesModule {
            enabled: read_flag(y, "enabled", false),
            interval: read_span(y, "interval", ConfigDuration::from_secs(3600)),
            security_only_metric: read_flag(y, "security_only_metric", true),
        }
    }
}

impl Default for UpdatesModule {
    fn default() -> (r: Self)
        ensures
            r.reads(Node::Null),
    {
        UpdatesModule::decode(&Yaml::Null)
    }
}

/// Credentials for one registry. A path, never a password.
#[derive(Debug, Clone)]
pub struct RegistryAuth {
    pub registry: String,
    pub username: String,
    pub password_file: String,
}

impl RegistryAuth {
    /// Whether this is what a section reads as, documented defaults included.
    pub open spec fn reads(self, n: Node) -> bool {
        &&& self.registry@ == word_at(n, "registry"@, ""@)
        &&& self.username@ == word_at(n, "username"@, ""@)
        &&& self.password_file@ == word_at(n, "password_file"@, ""@)
    }

    /// The section a document holds, with the documented defaults for what it
    /// leaves out.
    pub fn decode(y: &Yaml) -> (r: Self)
        ensures
            r.reads(y@),
    {
        RegistryAuth {
            registry: read_word(y, "registry", ""),
            username: read_word(y, "username", ""),
            password_file: read_word(y, "password_file", ""),
        }
    }
}

impl Default for RegistryAuth {
    fn default() -> (r: Self)
        ensures
            r.reads(Node::Null),
    {
        RegistryAuth::decode(&Yaml::Null)
    }
}

fn decode_registry_auth(y: &Yaml) -> (r: Vec<RegistryAuth>)
    ensures
        r@.len() == items_at(y@, "registry_auth"@).len(),
        forall|i: int|
            0 <= i < r@.len() ==> (#[trigger] r@[i]).reads(items_at(y@, "registry_auth"@)[i]),
{
    let mut out: Vec<RegistryAuth> = Vec::new();
    match y.get("registry_auth") {
        Some(Yaml::List(items)) => {
            let ghost nodes = items_at(y@, "registry_auth"@);
            let mut i: usize = 0;
            while i < items.len()
                invariant
                    i <= items.len(),
                    nodes == items_at(y@, "registry_auth"@),
                    nodes.len() == items.len(),
                    forall|j: int| 0 <= j < items.len() ==> #[trigger] nodes[j] == items@[j]@,
                    out@.len() == i,
                    forall|j: int| 0 <= j < i ==> (#[trigger] out@[j]).reads(nodes[j]),
                decreases items.len() - i,
            {
                proof {
                    assert(nodes[i as int] == items@[i as int]@);
                }
                out.push(RegistryAuth::decode(&items[i]));
                i += 1;
            }
        }
        _ => {}
    }
    out
}

/// Whether a newer image is available, under the same tag, for each running
/// container. Off by default: it needs the same socket access as `docker`.
#[derive(Debug, Clone)]
pub struct ImageUpdatesModule {
    pub enabled: bool,
    pub endpoint: String,
    /// For each Docker API call the daemon answers itself.
    pub timeout: ConfigDuration,
    /// For the call that makes the daemon ask a registry.
    pub registry_timeout: ConfigDuration,
    pub interval: ConfigDuration,
    pub container_include: Vec<String>,
    pub container_exclude: Vec<String>,
    pub registry_auth: Vec<RegistryAuth>,
}

impl ImageUpdatesModule {
    /// Whether this is what a section reads as, documented defaults included.
    pub open spec fn reads(self, n: Node) -> bool {
        &&& self.enabled == flag_at(n, "enabled"@, false)
        &&& self.endpoint@ == word_at(n, "endpoint"@, "unix:///var/run/docker.sock"@)
        &&& self.timeout == span_at(n, "timeout"@, seconds(5))
        &&& self.registry_timeout == span_at(n, "registry_timeout"@, seconds(30))
        &&& self.interval == span_at(n, "interval"@, seconds(3600))
        &&& text::texts(self.container_include@) == words_at(n, "container_include"@, Seq::empty())
        &&& text::texts(self.container_exclude@) == words_at(n, "container_exclude"@, Seq::empty())
        &&& self.registry_auth@.len() == items_at(n, "registry_auth"@).len()
        &&& forall|i: int| 0 <= i < self.registry_auth@.len() ==> (#[trigger] self.registry_auth@[i]).reads(items_at(n, "registry_auth"@)[i])
    }

    /// The section a document holds, with the documented defaults for what it
    /// leaves out.
    pub fn decode(y: &Yaml) -> (r: Self)
        ensures
            r.reads(y@),
    {
        let container_include_default: Vec<String> = Vec::new();
        proof {
            assert(text::texts(container_include_default@) =~= Seq::<Seq<char>>::empty());
        }
        let container_exclude_default: Vec<String> = Vec::new();
        proof {
            assert(text::texts(container_exclude_default@) =~= Seq::<Seq<char>>::empty());
        }
        ImageUpdatesModule {
            enabled: read_flag(y, "enabled", false),
            endpoint: read_word(y, "endpoint", "unix:///var/run/docker.sock"),
            timeout: read_span(y, "timeout", ConfigDuration::from_secs(5)),
            registry_timeout: read_span(y, "registry_timeout", ConfigDuration::from_secs(30)),
            interval: read_span(y, "interval", ConfigDuration::from_secs(3600)),
            container_include: read_words(y, "container_include", container_include_default),
            container_exclude: read_words(y, "container_exclude", container_exclude_default),
            registry_auth: decode_registry_auth(y),
        }
    }
}

impl Default for ImageUpdatesModule {
    fn default() -> (r: Self)
        ensures
            r.reads(Node::Null),
    {
        ImageUpdatesModule::decode(&Yaml::Null)
    }
}

/// The monitoring modules.
#[derive(Debug, Clone)]
pub struct ModulesConfig {
    pub cpu: SimpleModule,
    pub memory: SimpleModule,
    pub load: SimpleModule,
    pub system: SimpleModule,
    pub swap: SimpleModule,
    pub processes: SimpleModule,
    pub disks: DisksModule,
    pub disk_io: DiskIoModule,
    pub network: NetworkModule,
    pub docker: DockerModule,
    pub updates: UpdatesModule,
    pub image_updates: ImageUpdatesModule,
}

impl ModulesConfig {
    /// Whether this is what a section reads as, documented defaults included.
    pub open spec fn reads(self, n: Node) -> bool {
        &&& self.cpu.reads(part(n, "cpu"@))
        &&& self.memory.reads(part(n, "memory"@))
        &&& self.load.reads(part(n, "load"@))
        &&& self.system.reads(part(n, "system"@))
        &&& self.swap.reads(part(n, "swap"@))
        &&& self.processes.reads(part(n, "processes"@))
        &&& self.disks.reads(part(n, "disks"@))
        &&& self.disk_io.reads(part(n, "disk_io"@))
        &&& self.network.reads(part(n, "network"@))
        &&& self.docker.reads(part(n, "docker"@))
        &&& self.updates.reads(part(n, "updates"@))
        &&& self.image_updates.reads(part(n, "image_updates"@))
    }

    /// The section a document holds, with the documented defaults for what it
    /// leaves out.
    pub fn decode(y: &Yaml) -> (r: Self)
        ensures
            r.reads(y@),
    {
        let blank = Yaml::Null;
        ModulesConfig {
            cpu: SimpleModule::decode(section(y, "cpu", &blank)),
            memory: SimpleModule::decode(section(y, "memory", &blank)),
            load: SimpleModule::decode(section(y, "load", &blank)),
            system: SimpleModule::decode(section(y, "system", &blank)),
            swap: SimpleModule::decode(section(y, "swap", &blank)),
            processes: SimpleModule::decode(section(y, "processes", &blank)),
            disks: DisksModule::decode(section(y, "disks", &blank)),
            disk_io: DiskIoModule::decode(section(y, "disk_io", &blank)),
            network: NetworkModule::decode(section(y, "network", &blank)),
            docker: DockerModule::decode(section(y, "docker", &blank)),
            updates: UpdatesModule::decode(section(y, "updates", &blank)),
            image_updates: ImageUpdatesModule::decode(section(y, "image_updates", &blank)),
        }
    }

    /// The names of the enabled modules, in a fixed order.
    pub open spec fn enabled(self) -> Seq<Seq<char>> {
        let names = Seq::<Seq<char>>::empty();
        let names = text::also(names, self.cpu.enabled, "cpu"@);
        let names = text::also(names, self.memory.enabled, "memory"@);
        let names = text::also(names, self.load.enabled, "load"@);
        let names = text::also(names, self.system.enabled, "system"@);
        let names = text::also(names, self.swap.enabled, "swap"@);
        let names = text::also(names, self.processes.enabled, "processes"@);
        let names = text::also(names, self.disks.enabled, "disks"@);
        let names = text::also(names, self.disk_io.enabled, "disk_io"@);
        let names = text::also(names, self.network.enabled, "network"@);
        let names = text::also(names, self.docker.enabled, "docker"@);
        let names = text::also(names, self.updates.enabled, "updates"@);
        let names = text::also(names, self.image_updates.enabled, "image_updates"@);
        names
    }

    /// Names of the enabled modules, in a fixed order: the order of the file
    /// does not show.
    pub fn enabled_names(&self) -> (r: Vec<&'static str>)
        ensures
            text::slices(r@) == self.enabled(),
    {
        let mut names: Vec<&'static str> = Vec::new();
        proof {
            assert(text::slices(names@) =~= Seq::<Seq<char>>::empty());
        }
        if self.cpu.enabled {
            text::note_name(&mut names, "cpu");
        }
        if self.memory.enabled {
            text::note_name(&mut names, "memory");
        }
        if self.load.enabled {
            text::note_name(&mut names, "load");
        }
        if self.system.enabled {
            text::note_name(&mut names, "system");
        }
        if self.swap.enabled {
            text::note_name(&mut names, "swap");
        }
        if self.processes.enabled {
            text::note_name(&mut names, "processes");
        }
        if self.disks.enabled {
            text::note_name(&mut names, "disks");
        }
        if self.disk_io.enabled {
            text::note_name(&mut names, "disk_io");
        }
        if self.network.enabled {
            text::note_name(&mut names, "network");
        }
        if self.docker.enabled {
            text::note_name(&mut names, "docker");
        }
        if self.updates.enabled {
            text::note_name(&mut names, "updates");
        }
        if self.image_updates.enabled {
            text::note_name(&mut names, "image_updates");
        }
        names
    }

    /// Whether any module is enabled.
    pub open spec fn collects(self) -> bool {
        ||| self.cpu.enabled
        ||| self.memory.enabled
        ||| self.load.enabled
        ||| self.system.enabled
        ||| self.swap.enabled
        ||| self.processes.enabled
        ||| self.disks.enabled
        ||| self.disk_io.enabled
        ||| self.network.enabled
        ||| self.docker.enabled
        ||| self.updates.enabled
        ||| self.image_updates.enabled
    }

    pub fn any_enabled(&self) -> (r: bool)
        ensures
            r == self.collects(),
            r == (self.enabled().len() > 0),
    {
        self.enabled_names().len() > 0
    }

    /// Whether any enabled module reads host state through the mount prefix.
    pub open spec fn reads_host(self) -> bool {
        ||| self.cpu.enabled
        ||| self.memory.enabled
        ||| self.load.enabled
        ||| self.system.enabled
        ||| self.swap.enabled
        ||| self.processes.enabled
        ||| self.disks.enabled
        ||| self.disk_io.enabled
        ||| self.network.enabled
        ||| self.updates.enabled
    }

    pub fn any_needs_host_mount(&self) -> (r: bool)
        ensures
            r == self.reads_host(),
    {
        self.cpu.enabled
            || self.memory.enabled
            || self.load.enabled
            || self.system.enabled
            || self.swap.enabled
            || self.processes.enabled
            || self.disks.enabled
            || self.disk_io.enabled
            || self.network.enabled
            || self.updates.enabled
    }
}

impl Default for ModulesConfig {
    fn default() -> (r: Self)
        ensures
            r.reads(Node::Null),
    {
        ModulesConfig::decode(&Yaml::Null)
    }
}

// ---------------------------------------------------------------------------
// Outputs
// ---------------------------------------------------------------------------

/// TLS towards an output.
#[derive(Debug, Clone)]
pub struct TlsConfig {
    pub ca_file: Option<String>,
    pub cert_file: Option<String>,
    pub key_file: Option<String>,
    /// Disables certificate verification entirely.
    pub insecure_skip_verify: bool,
}

impl TlsConfig {
    /// Whether this is what a section reads as, documented defaults included.
    pub open spec fn reads(self, n: Node) -> bool {
        &&& text::optional(self.ca_file) == maybe_word_at(n, "ca_file"@)
        &&& text::optional(self.cert_file) == maybe_word_at(n, "cert_file"@)
        &&& text::optional(self.key_file) == maybe_word_at(n, "key_file"@)
        &&& self.insecure_skip_verify == flag_at(n, "insecure_skip_verify"@, false)
    }

    /// The section a document holds, with the documented defaults for what it
    /// leaves out.
    pub fn decode(y: &Yaml) -> (r: Self)
        ensures
            r.reads(y@),
    {
        TlsConfig {
            ca_file: read_maybe_word(y, "ca_file"),
            cert_file: read_maybe_word(y, "cert_file"),
            key_file: read_maybe_word(y, "key_file"),
            insecure_skip_verify: read_flag(y, "insecure_skip_verify", false),
        }
    }
}

impl Default for TlsConfig {
    fn default() -> (r: Self)
        ensures
            r.reads(Node::Null),
    {
        TlsConfig::decode(&Yaml::Null)
    }
}

/// The InfluxDB output.
#[derive(Debug, Clone)]
pub struct InfluxdbOutput {
    pub enabled: bool,
    pub url: String,
    pub organization: String,
    pub bucket: String,
    /// A path, never a token.
    pub token_file: String,
    pub timeout: ConfigDuration,
    pub tls: TlsConfig,
}

impl InfluxdbOutput {
    /// Whether this is what a section reads as, documented defaults included.
    pub open spec fn reads(self, n: Node) -> bool {
        &&& self.enabled == flag_at(n, "enabled"@, false)
        &&& self.url@ == word_at(n, "url"@, ""@)
        &&& self.organization@ == word_at(n, "organization"@, ""@)
        &&& self.bucket@ == word_at(n, "bucket"@, ""@)
        &&& self.token_file@ == word_at(n, "token_file"@, ""@)
        &&& self.timeout == span_at(n, "timeout"@, seconds(5))
        &&& self.tls.reads(part(n, "tls"@))
    }

    /// The section a document holds, with the documented defaults for what it
    /// leaves out.
    pub fn decode(y: &Yaml) -> (r: Self)
        ensures
            r.reads(y@),
    {
        let blank = Yaml::Null;
        InfluxdbOutput {
            enabled: read_flag(y, "enabled", false),
            url: read_word(y, "url", ""),
            organization: read_word(y, "organization", ""),
            bucket: read_word(y, "bucket", ""),
            token_file: read_word(y, "token_file", ""),
            timeout: read_span(y, "timeout", ConfigDuration::from_secs(5)),
            tls: TlsConfig::decode(section(y, "tls", &blank)),
        }
    }
}

impl Default for InfluxdbOutput {
    fn default() -> (r: Self)
        ensures
            r.reads(Node::Null),
    {
        InfluxdbOutput::decode(&Yaml::Null)
    }
}

/// Basic authentication of the scrape endpoint: both halves, or neither.
#[derive(Debug, Clone)]
pub struct BasicAuthConfig {
    pub username: Option<String>,
    /// A path, never a password.
    pub password_file: Option<String>,
}

impl BasicAuthConfig {
    /// Whether this is what a section reads as, documented defaults included.
    pub open spec fn reads(self, n: Node) -> bool {
        &&& text::optional(self.username) == maybe_word_at(n, "username"@)
        &&& text::optional(self.password_file) == maybe_word_at(n, "password_file"@)
    }

    /// The section a document holds, with the documented defaults for what it
    /// leaves out.
    pub fn decode(y: &Yaml) -> (r: Self)
        ensures
            r.reads(y@),
    {
        BasicAuthConfig {
            username: read_maybe_word(y, "username"),
            password_file: read_maybe_word(y, "password_file"),
        }
    }
}

impl Default for BasicAuthConfig {
    fn default() -> (r: Self)
        ensures
            r.reads(Node::Null),
    {
        BasicAuthConfig::decode(&Yaml::Null)
    }
}

/// TLS of the scrape endpoint.
#[derive(Debug, Clone)]
pub struct PrometheusTlsConfig {
    pub cert_file: Option<String>,
    pub key_file: Option<String>,
    pub client_ca_file: Option<String>,
}

impl PrometheusTlsConfig {
    /// Whether this is what a section reads as, documented defaults included.
    pub open spec fn reads(self, n: Node) -> bool {
        &&& text::optional(self.cert_file) == maybe_word_at(n, "cert_file"@)
        &&& text::optional(self.key_file) == maybe_word_at(n, "key_file"@)
        &&& text::optional(self.client_ca_file) == maybe_word_at(n, "client_ca_file"@)
    }

    /// The section a document holds, with the documented defaults for what it
    /// leaves out.
    pub fn decode(y: &Yaml) -> (r: Self)
        ensures
            r.reads(y@),
    {
        PrometheusTlsConfig {
            cert_file: read_maybe_word(y, "cert_file"),
            key_file: read_maybe_word(y, "key_file"),
            client_ca_file: read_maybe_word(y, "client_ca_file"),
        }
    }
}

impl Default for PrometheusTlsConfig {
    fn default() -> (r: Self)
        ensures
            r.reads(Node::Null),
    {
        PrometheusTlsConfig::decode(&Yaml::Null)
    }
}

/// The scrape endpoint.
#[derive(Debug, Clone)]
pub struct PrometheusOutput {
    pub enabled: bool,
    pub listen: String,
    pub path: String,
    pub expiration_interval: ConfigDuration,
    pub basic_auth: BasicAuthConfig,
    pub tls: PrometheusTlsConfig,
}

impl PrometheusOutput {
    /// Whether this is what a section reads as, documented defaults included.
    pub open spec fn reads(self, n: Node) -> bool {
        &&& self.enabled == flag_at(n, "enabled"@, false)
        &&& self.listen@ == word_at(n, "listen"@, "0.0.0.0:9273"@)
        &&& self.path@ == word_at(n, "path"@, "/metrics"@)
        &&& self.expiration_interval == span_at(n, "expiration_interval"@, seconds(60))
        &&& self.basic_auth.reads(part(n, "basic_auth"@))
        &&& self.tls.reads(part(n, "tls"@))
    }

    /// The section a document holds, with the documented defaults for what it
    /// leaves out.
    pub fn decode(y: &Yaml) -> (r: Self)
        ensures
            r.reads(y@),
    {
        let blank = Yaml::Null;
        PrometheusOutput {
            enabled: read_flag(y, "enabled", false),
            listen: read_word(y, "listen", "0.0.0.0:9273"),
            path: read_word(y, "path", "/metrics"),
            expiration_interval: read_span(y, "expiration_interval", ConfigDuration::from_secs(60)),
            basic_auth: BasicAuthConfig::decode(section(y, "basic_auth", &blank)),
            tls: PrometheusTlsConfig::decode(section(y, "tls", &blank)),
        }
    }
}

impl Default for PrometheusOutput {
    fn default() -> (r: Self)
        ensures
            r.reads(Node::Null),
    {
        PrometheusOutput::decode(&Yaml::Null)
    }
}

/// The outputs.
#[derive(Debug, Clone)]
pub struct OutputsConfig {
    pub influxdb: InfluxdbOutput,
    pub prometheus: PrometheusOutput,
}

impl OutputsConfig {
    /// Whether this is what a section reads as, documented defaults included.
    pub open spec fn reads(self, n: Node) -> bool {
        &&& self.influxdb.reads(part(n, "influxdb"@))
        &&& self.prometheus.reads(part(n, "prometheus"@))
    }

    /// The section a document holds, with the documented defaults for what it
    /// leaves out.
    pub fn decode(y: &Yaml) -> (r: Self)
        ensures
            r.reads(y@),
    {
        let blank = Yaml::Null;
        OutputsConfig {
            influxdb: InfluxdbOutput::decode(section(y, "influxdb", &blank)),
            prometheus: PrometheusOutput::decode(section(y, "prometheus", &blank)),
        }
    }

    /// The names of the enabled outputs, in a fixed order.
    pub open spec fn enabled(self) -> Seq<Seq<char>> {
        let names = text::also(Seq::empty(), self.influxdb.enabled, "influxdb"@);
        text::also(names, self.prometheus.enabled, "prometheus"@)
    }

    pub fn enabled_names(&self) -> (r: Vec<&'static str>)
        ensures
            text::slices(r@) == self.enabled(),
    {
        let mut names: Vec<&'static str> = Vec::new();
        proof {
            assert(text::slices(names@) =~= Seq::<Seq<char>>::empty());
        }
        if self.influxdb.enabled {
            text::note_name(&mut names, "influxdb");
        }
        if self.prometheus.enabled {
            text::note_name(&mut names, "prometheus");
        }
        names
    }

    /// Whether any output is enabled.
    pub open spec fn sends(self) -> bool {
        self.influxdb.enabled || self.prometheus.enabled
    }

    pub fn any_enabled(&self) -> (r: bool)
        ensures
            r == self.sends(),
    {
        self.influxdb.enabled || self.prometheus.enabled
    }
}

impl Default for OutputsConfig {
    fn default() -> (r: Self)
        ensures
            r.reads(Node::Null),
    {
        OutputsConfig::decode(&Yaml::Null)
    }
}

// ---------------------------------------------------------------------------
// The whole file
// ---------------------------------------------------------------------------

/// The configuration file.
#[derive(Debug, Clone)]
pub struct ConfigV1 {
    pub version: u32,
    pub agent: AgentConfig,
    pub runtime: RuntimeConfig,
    pub logging: LoggingConfig,
    pub health: HealthConfig,
    pub modules: ModulesConfig,
    pub outputs: OutputsConfig,
}

impl ConfigV1 {
    /// Whether this is what a document reads as, with `logging` in place of its
    /// logging section.
    pub open spec fn reads_with(self, n: Node, logging: LoggingConfig) -> bool {
        &&& self.version == SCHEMA_VERSION
        &&& self.agent.reads(part(n, "agent"@))
        &&& self.runtime.reads(part(n, "runtime"@))
        &&& self.logging == logging
        &&& self.health.reads(part(n, "health"@))
        &&& self.modules.reads(part(n, "modules"@))
        &&& self.outputs.reads(part(n, "outputs"@))
    }

    /// The configuration a document of the understood version holds.
    pub fn decode(y: &Yaml) -> (r: Self)
        ensures
            r.reads_with(y@, logging_at(part(y@, "logging"@))),
    {
        let blank = Yaml::Null;
        ConfigV1 {
            version: SCHEMA_VERSION,
            agent: AgentConfig::decode(section(y, "agent", &blank)),
            runtime: RuntimeConfig::decode(section(y, "runtime", &blank)),
            logging: LoggingConfig::decode(section(y, "logging", &blank)),
            health: HealthConfig::decode(section(y, "health", &blank)),
            modules: ModulesConfig::decode(section(y, "modules", &blank)),
            outputs: OutputsConfig::decode(section(y, "outputs", &blank)),
        }
    }
}

/// A module the document does not name is off.
pub proof fn law_every_unnamed_module_is_off(m: ModulesConfig)
    requires
        m.reads(Node::Null),
    ensures
        !m.collects(),
        m.enabled() == Seq::<Seq<char>>::empty(),
{
}

/// An empty section reads as an omitted one does.
pub proof fn law_an_empty_section_reads_as_an_omitted_one(
    agent: AgentConfig,
    runtime: RuntimeConfig,
    health: HealthConfig,
    modules: ModulesConfig,
    outputs: OutputsConfig,
)
    ensures
        agent.reads(Node::Table(Seq::empty())) == agent.reads(Node::Null),
        runtime.reads(Node::Table(Seq::empty())) == runtime.reads(Node::Null),
        health.reads(Node::Table(Seq::empty())) == health.reads(Node::Null),
        modules.reads(Node::Table(Seq::empty())) == modules.reads(Node::Null),
        outputs.reads(Node::Table(Seq::empty())) == outputs.reads(Node::Null),
        logging_at(Node::Table(Seq::empty())) == logging_at(Node::Null),
{
}

} // verus!
