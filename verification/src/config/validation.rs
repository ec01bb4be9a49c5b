//! Semantic validation: the rules the shape of the file cannot express.
//!
//! An error is a configuration that cannot do what it says. A warning is one
//! that can, but probably does not mean to. Warnings are returned rather than
//! logged: the log level comes from the very configuration being validated.

use vstd::prelude::*;
use vstd::string::*;
use crate::config::host::{Host, ListenAddress};
use crate::config::model::{
    ConfigV1, DockerModule, ImageUpdatesModule, InfluxdbOutput, PrometheusOutput, TlsConfig,
};
use crate::duration::ConfigDuration;
use crate::error::{Fault, MuninnError};
use crate::text;

verus! {

/// The first of two possible faults.
pub open spec fn or(a: Option<Fault>, b: Option<Fault>) -> Option<Fault> {
    if a is Some {
        a
    } else {
        b
    }
}

/// A configuration fault, where its condition holds.
pub open spec fn fault_if(condition: bool, message: Seq<char>) -> Option<Fault> {
    if condition {
        Some(Fault::Config(message))
    } else {
        None
    }
}

/// What a check reports, against the fault it should report.
pub open spec fn reports(r: Result<(), MuninnError>, fault: Option<Fault>) -> bool {
    match r {
        Ok(_) => fault is None,
        Err(e) => fault == Some(e@),
    }
}

fn fail(message: String) -> (r: Result<(), MuninnError>)
    ensures
        r matches Err(e) && e@ == Fault::Config(message@),
{
    Err(MuninnError::Config(message))
}

// ---------------------------------------------------------------------------
// Helpers
// ---------------------------------------------------------------------------

pub open spec fn zero_fault(d: ConfigDuration, key: Seq<char>) -> Option<Fault> {
    fault_if(d.secs == 0 && d.nanos == 0, key + " must be greater than zero"@)
}

fn require_positive(d: &ConfigDuration, key: &str) -> (r: Result<(), MuninnError>)
    ensures
        reports(r, zero_fault(*d, key@)),
{
    if d.is_zero() {
        return fail(text::cat2(key, " must be greater than zero"));
    }
    Ok(())
}

pub open spec fn empty_fault(value: Seq<char>, key: Seq<char>) -> Option<Fault> {
    fault_if(text::is_blank(value), key + " must not be empty"@)
}

fn require_non_empty(value: &str, key: &str) -> (r: Result<(), MuninnError>)
    ensures
        reports(r, empty_fault(value@, key@)),
{
    if text::blank(value) {
        return fail(text::cat2(key, " must not be empty"));
    }
    Ok(())
}

/// The first pattern from `i` on that holds nothing but whitespace.
pub open spec fn blank_at(patterns: Seq<Seq<char>>, i: int) -> Option<int>
    decreases patterns.len() - i,
{
    if i < 0 || i >= patterns.len() {
        None
    } else if text::is_blank(patterns[i]) {
        Some(i)
    } else {
        blank_at(patterns, i + 1)
    }
}

pub open spec fn blank_fault(patterns: Seq<Seq<char>>, key: Seq<char>) -> Option<Fault> {
    match blank_at(patterns, 0) {
        Some(i) => Some(
            Fault::Config(
                key + "["@ + text::decimal(i as nat)
                    + "] is empty — remove the entry, or give it a pattern"@,
            ),
        ),
        None => None,
    }
}

/// An empty or whitespace-only glob matches nothing and is always a mistake.
fn reject_blank_patterns(patterns: &Vec<String>, key: &str) -> (r: Result<(), MuninnError>)
    ensures
        reports(r, blank_fault(text::texts(patterns@), key@)),
{
    let ghost all = text::texts(patterns@);
    let mut i: usize = 0;
    while i < patterns.len()
        invariant
            i <= patterns.len(),
            all == text::texts(patterns@),
            blank_at(all, 0) == blank_at(all, i as int),
        decreases patterns.len() - i,
    {
        proof {
            assert(all[i as int] == patterns@[i as int]@);
        }
        if text::blank(&patterns[i]) {
            return fail(
                text::cat4(
                    key,
                    "[",
                    &text::decimal_of(i as u128),
                    "] is empty — remove the entry, or give it a pattern",
                ),
            );
        }
        i += 1;
    }
    Ok(())
}

/// The warning for a module that sets both an include and an exclude list.
pub open spec fn both_lists(module: Seq<char>, noun: Seq<char>) -> Seq<char> {
    module + " sets both include_"@ + noun + " and exclude_"@ + noun
        + " — the include list is already an allow-list, so the exclusions only apply within it"@
}

fn warn_on_include_and_exclude(
    include_list: &Vec<String>,
    exclude_list: &Vec<String>,
    module: &str,
    noun: &str,
    warnings: &mut Vec<String>,
)
    ensures
        text::texts(final(warnings)@) == text::also(
            text::texts(old(warnings)@),
            include_list@.len() > 0 && exclude_list@.len() > 0,
            both_lists(module@, noun@),
        ),
{
    if include_list.len() > 0 && exclude_list.len() > 0 {
        text::note(
            warnings,
            text::cat6(
                module,
                " sets both include_",
                noun,
                " and exclude_",
                noun,
                " — the include list is already an allow-list, so the exclusions only apply within it",
            ),
        );
    }
}

/// Whether a path is absolute.
pub open spec fn absolute(path: Seq<char>) -> bool {
    path.len() > 0 && path[0] == '/'
}

fn is_absolute_path(value: &str) -> (r: bool)
    ensures
        r == absolute(value@),
{
    let c = text::chars_of(value);
    c.len() > 0 && c[0] == '/'
}

// ---------------------------------------------------------------------------
// Agent
// ---------------------------------------------------------------------------

pub open spec fn agent_fault(cfg: ConfigV1) -> Option<Fault> {
    or(
        zero_fault(cfg.agent.interval, "agent.interval"@),
        or(
            zero_fault(cfg.agent.flush_interval, "agent.flush_interval"@),
            fault_if(
                cfg.agent.interval.millis() < 1000,
                "agent.interval is "@ + cfg.agent.interval.shown()
                    + " — sub-second collection is not supported; use 1s or more"@,
            ),
        ),
    )
}

pub open spec fn agent_warnings(cfg: ConfigV1, before: Seq<Seq<char>>) -> Seq<Seq<char>> {
    let w = text::also(
        before,
        cfg.agent.interval.below(cfg.agent.flush_interval),
        "agent.flush_interval ("@ + cfg.agent.flush_interval.shown()
            + ") is longer than agent.interval ("@ + cfg.agent.interval.shown()
            + ") — metrics will be delayed by up to one flush period"@,
    );
    text::also(
        w,
        cfg.agent.omit_hostname && cfg.agent.hostname@.len() > 0,
        "agent.omit_hostname is true, so agent.hostname ('"@ + cfg.agent.hostname@
            + "') has no effect"@,
    )
}

/// The warnings once the section is judged: a fault comes before any of them.
pub open spec fn agent_noted(cfg: ConfigV1, before: Seq<Seq<char>>) -> Seq<Seq<char>> {
    if agent_fault(cfg) is Some {
        before
    } else {
        agent_warnings(cfg, before)
    }
}

fn validate_agent(cfg: &ConfigV1, warnings: &mut Vec<String>) -> (r: Result<(), MuninnError>)
    ensures
        reports(r, agent_fault(*cfg)),
        text::texts(final(warnings)@) == agent_noted(*cfg, text::texts(old(warnings)@)),
{
    // A zero interval makes Telegraf's collection timer fire continuously.
    if let Err(e) = require_positive(&cfg.agent.interval, "agent.interval") {
        return Err(e);
    }
    if let Err(e) = require_positive(&cfg.agent.flush_interval, "agent.flush_interval") {
        return Err(e);
    }
    // Almost always a unit mistake: `500ms` where `500s` was meant.
    if cfg.agent.interval.as_millis() < 1000 {
        return fail(
            text::cat3(
                "agent.interval is ",
                &cfg.agent.interval.display(),
                " — sub-second collection is not supported; use 1s or more",
            ),
        );
    }
    if cfg.agent.interval.shorter_than(&cfg.agent.flush_interval) {
        text::note(
            warnings,
            text::cat5(
                "agent.flush_interval (",
                &cfg.agent.flush_interval.display(),
                ") is longer than agent.interval (",
                &cfg.agent.interval.display(),
                ") — metrics will be delayed by up to one flush period",
            ),
        );
    }
    if cfg.agent.omit_hostname && !cfg.agent.hostname.as_str().is_empty() {
        text::note(
            warnings,
            text::cat3(
                "agent.omit_hostname is true, so agent.hostname ('",
                &cfg.agent.hostname,
                "') has no effect",
            ),
        );
    }
    Ok(())
}

// ---------------------------------------------------------------------------
// Runtime
// ---------------------------------------------------------------------------

/// What is wrong with the periods and with where the generated file goes.
pub open spec fn generated_path_fault(cfg: ConfigV1) -> Option<Fault> {
    or(
        zero_fault(cfg.runtime.shutdown_grace_period, "runtime.shutdown_grace_period"@),
        or(
            zero_fault(cfg.runtime.telegraf_start_timeout, "runtime.telegraf_start_timeout"@),
            fault_if(
                !absolute(cfg.runtime.generated_config_path@),
                "runtime.generated_config_path '"@ + cfg.runtime.generated_config_path@
                    + "' must be an absolute path"@,
            ),
        ),
    )
}

pub open spec fn runtime_fault(cfg: ConfigV1) -> Option<Fault> {
    or(
        generated_path_fault(cfg),
        fault_if(
            cfg.runtime.host_mount_prefix@.len() > 0 && !absolute(cfg.runtime.host_mount_prefix@),
            "runtime.host_mount_prefix '"@ + cfg.runtime.host_mount_prefix@
                + "' must be an absolute path, or empty to mean 'running directly on the host'"@,
        ),
    )
}

/// The warning about a generated file that may outlive the process.
pub open spec fn generated_path_warnings(cfg: ConfigV1, before: Seq<Seq<char>>) -> Seq<Seq<char>> {
    let path = cfg.runtime.generated_config_path@;
    text::also(
        before,
        !"/run/"@.is_prefix_of(path) && !"/tmp/"@.is_prefix_of(path) && !"/dev/shm/"@.is_prefix_of(
            path,
        ),
        "runtime.generated_config_path '"@ + path
            + "' is outside /run, /tmp and /dev/shm — this file contains resolved secrets and must live on a tmpfs, never on persistent storage"@,
    )
}

pub open spec fn runtime_warnings(cfg: ConfigV1, before: Seq<Seq<char>>) -> Seq<Seq<char>> {
    text::also(
        generated_path_warnings(cfg, before),
        cfg.outputs.influxdb.enabled && !cfg.outputs.influxdb.timeout.below(
            cfg.runtime.shutdown_grace_period,
        ),
        "runtime.shutdown_grace_period ("@ + cfg.runtime.shutdown_grace_period.shown()
            + ") does not exceed outputs.influxdb.timeout ("@
            + cfg.outputs.influxdb.timeout.shown()
            + ") — a shutdown flush cannot complete even one write attempt, so buffered metrics will be lost on every restart"@,
    )
}

/// The warnings once the section is judged. A fault of the prefix leaves the one
/// about the generated file; any other comes before all of them.
pub open spec fn runtime_noted(cfg: ConfigV1, before: Seq<Seq<char>>) -> Seq<Seq<char>> {
    if generated_path_fault(cfg) is Some {
        before
    } else if runtime_fault(cfg) is Some {
        generated_path_warnings(cfg, before)
    } else {
        runtime_warnings(cfg, before)
    }
}

fn validate_runtime(cfg: &ConfigV1, warnings: &mut Vec<String>) -> (r: Result<(), MuninnError>)
    ensures
        reports(r, runtime_fault(*cfg)),
        text::texts(final(warnings)@) == runtime_noted(*cfg, text::texts(old(warnings)@)),
{
    if let Err(e) = require_positive(
        &cfg.runtime.shutdown_grace_period,
        "runtime.shutdown_grace_period",
    ) {
        return Err(e);
    }
    if let Err(e) = require_positive(
        &cfg.runtime.telegraf_start_timeout,
        "runtime.telegraf_start_timeout",
    ) {
        return Err(e);
    }
    let path = cfg.runtime.generated_config_path.as_str();
    // A relative path would be resolved against whatever directory the process
    // happens to start in.
    if !is_absolute_path(path) {
        return fail(
            text::cat3("runtime.generated_config_path '", path, "' must be an absolute path"),
        );
    }
    // The generated file holds resolved secrets, so it belongs on a tmpfs.
    if !text::starts_with(path, "/run/") && !text::starts_with(path, "/tmp/")
        && !text::starts_with(path, "/dev/shm/") {
        text::note(
            warnings,
            text::cat3(
                "runtime.generated_config_path '",
                path,
                "' is outside /run, /tmp and /dev/shm — this file contains resolved secrets and must live on a tmpfs, never on persistent storage",
            ),
        );
    }
    let prefix = cfg.runtime.host_mount_prefix.as_str();
    if !prefix.is_empty() && !is_absolute_path(prefix) {
        return fail(
            text::cat3(
                "runtime.host_mount_prefix '",
                prefix,
                "' must be an absolute path, or empty to mean 'running directly on the host'",
            ),
        );
    }
    // What the grace period has to cover is one write attempt, not a collection
    // cycle: Telegraf flushes immediately on shutdown.
    if cfg.outputs.influxdb.enabled && !cfg.outputs.influxdb.timeout.shorter_than(
        &cfg.runtime.shutdown_grace_period,
    ) {
        text::note(
            warnings,
            text::cat5(
                "runtime.shutdown_grace_period (",
                &cfg.runtime.shutdown_grace_period.display(),
                ") does not exceed outputs.influxdb.timeout (",
                &cfg.outputs.influxdb.timeout.display(),
                ") — a shutdown flush cannot complete even one write attempt, so buffered metrics will be lost on every restart",
            ),
        );
    }
    Ok(())
}

// ---------------------------------------------------------------------------
// Modules
// ---------------------------------------------------------------------------

/// What is wrong with a Docker endpoint: it names nothing, or not with a scheme
/// the Docker client knows.
pub open spec fn endpoint_fault(endpoint: Seq<char>, module: Seq<char>) -> Option<Fault> {
    or(
        fault_if(
            endpoint.len() == 0,
            "modules."@ + module + ".endpoint must not be empty when the "@ + module
                + " module is enabled"@,
        ),
        or(
            fault_if(
                !"unix://"@.is_prefix_of(endpoint) && !"tcp://"@.is_prefix_of(endpoint),
                "modules."@ + module + ".endpoint '"@ + endpoint
                    + "' must start with unix:// or tcp://"@,
            ),
            fault_if(
                endpoint == "unix://"@ || endpoint == "tcp://"@,
                "modules."@ + module + ".endpoint '"@ + endpoint
                    + "' names no address — use e.g. unix:///var/run/docker.sock or tcp://docker-proxy:2375"@,
            ),
        ),
    )
}

fn validate_endpoint(endpoint: &str, module: &str) -> (r: Result<(), MuninnError>)
    ensures
        reports(r, endpoint_fault(endpoint@, module@)),
{
    if endpoint.is_empty() {
        return fail(
            text::cat5(
                "modules.",
                module,
                ".endpoint must not be empty when the ",
                module,
                " module is enabled",
            ),
        );
    }
    if !text::starts_with(endpoint, "unix://") && !text::starts_with(endpoint, "tcp://") {
        return fail(
            text::cat5(
                "modules.",
                module,
                ".endpoint '",
                endpoint,
                "' must start with unix:// or tcp://",
            ),
        );
    }
    if text::same(endpoint, "unix://") || text::same(endpoint, "tcp://") {
        return fail(
            text::cat5(
                "modules.",
                module,
                ".endpoint '",
                endpoint,
                "' names no address — use e.g. unix:///var/run/docker.sock or tcp://docker-proxy:2375",
            ),
        );
    }
    Ok(())
}

/// The states a container can be in.
pub open spec fn container_state(s: Seq<char>) -> bool {
    ||| s == "created"@
    ||| s == "restarting"@
    ||| s == "running"@
    ||| s == "removing"@
    ||| s == "paused"@
    ||| s == "exited"@
    ||| s == "dead"@
}

fn is_container_state(s: &str) -> (r: bool)
    ensures
        r == container_state(s@),
{
    text::same(s, "created") || text::same(s, "restarting") || text::same(s, "running")
        || text::same(s, "removing") || text::same(s, "paused") || text::same(s, "exited")
        || text::same(s, "dead")
}

/// The first state from `i` on that no container can be in.
pub open spec fn states_fault(states: Seq<Seq<char>>, i: int) -> Option<Fault>
    decreases states.len() - i,
{
    if i < 0 || i >= states.len() {
        None
    } else if !container_state(states[i]) {
        Some(
            Fault::Config(
                "modules.docker.container_states["@ + text::decimal(i as nat) + "] '"@ + states[i]
                    + "' is not a container state — use created, restarting, running, removing, paused, exited or dead"@,
            ),
        )
    } else {
        states_fault(states, i + 1)
    }
}

fn validate_states(states: &Vec<String>) -> (r: Result<(), MuninnError>)
    ensures
        reports(r, states_fault(text::texts(states@), 0)),
{
    let ghost all = text::texts(states@);
    let mut i: usize = 0;
    while i < states.len()
        invariant
            i <= states.len(),
            all == text::texts(states@),
            states_fault(all, 0) == states_fault(all, i as int),
        decreases states.len() - i,
    {
        proof {
            assert(all[i as int] == states@[i as int]@);
        }
        if !is_container_state(&states[i]) {
            return fail(
                text::cat5(
                    "modules.docker.container_states[",
                    &text::decimal_of(i as u128),
                    "] '",
                    &states[i],
                    "' is not a container state — use created, restarting, running, removing, paused, exited or dead",
                ),
            );
        }
        i += 1;
    }
    Ok(())
}

pub open spec fn docker_fault(m: DockerModule) -> Option<Fault> {
    if !m.enabled {
        None
    } else {
        or(
            zero_fault(m.timeout, "modules.docker.timeout"@),
            or(
                endpoint_fault(m.endpoint@, "docker"@),
                or(
                    fault_if(
                        m.container_states@.len() == 0,
                        "modules.docker.container_states must not be empty — no container would be reported"@,
                    ),
                    states_fault(text::texts(m.container_states@), 0),
                ),
            ),
        )
    }
}

pub open spec fn socket_warning(module: Seq<char>) -> Seq<char> {
    "the "@ + module
        + " module is enabled: access to the Docker socket is equivalent to root on the host, and mounting it read-only does not change that. Consider a socket proxy — see docs/modules.md#"@
        + module
}

fn warn_about_socket(module: &str) -> (r: String)
    ensures
        r@ == socket_warning(module@),
{
    text::cat4(
        "the ",
        module,
        " module is enabled: access to the Docker socket is equivalent to root on the host, and mounting it read-only does not change that. Consider a socket proxy — see docs/modules.md#",
        module,
    )
}

fn validate_docker(m: &DockerModule, warnings: &mut Vec<String>) -> (r: Result<(), MuninnError>)
    ensures
        reports(r, docker_fault(*m)),
        text::texts(final(warnings)@) == text::also(
            text::texts(old(warnings)@),
            m.enabled && r is Ok,
            socket_warning("docker"@),
        ),
{
    if !m.enabled {
        return Ok(());
    }
    if let Err(e) = require_positive(&m.timeout, "modules.docker.timeout") {
        return Err(e);
    }
    if let Err(e) = validate_endpoint(&m.endpoint, "docker") {
        return Err(e);
    }
    if m.container_states.len() == 0 {
        return fail(
            "modules.docker.container_states must not be empty — no container would be reported".to_owned(),
        );
    }
    // An unknown state matches no container, which reads as "no containers".
    if let Err(e) = validate_states(&m.container_states) {
        return Err(e);
    }
    text::note(warnings, warn_about_socket("docker"));
    Ok(())
}

pub open spec fn too_often(key: Seq<char>, interval: ConfigDuration, what: Seq<char>) -> Option<
    Fault,
> {
    fault_if(
        interval.secs < 60,
        key + " is "@ + interval.shown() + " — "@ + what
            + " does not change that fast; use 1m or more (1h is the default and is usually right)"@,
    )
}

fn reject_too_often(key: &str, interval: &ConfigDuration, what: &str) -> (r: Result<
    (),
    MuninnError,
>)
    ensures
        reports(r, too_often(key@, *interval, what@)),
{
    if interval.as_secs() < 60 {
        return fail(
            text::cat6(
                key,
                " is ",
                &interval.display(),
                " — ",
                what,
                " does not change that fast; use 1m or more (1h is the default and is usually right)",
            ),
        );
    }
    Ok(())
}

pub open spec fn image_updates_fault(m: ImageUpdatesModule) -> Option<Fault> {
    if !m.enabled {
        None
    } else {
        or(
            zero_fault(m.timeout, "modules.image_updates.timeout"@),
            or(
                zero_fault(m.registry_timeout, "modules.image_updates.registry_timeout"@),
                or(
                    zero_fault(m.interval, "modules.image_updates.interval"@),
                    or(
                        endpoint_fault(m.endpoint@, "image_updates"@),
                        too_often("modules.image_updates.interval"@, m.interval, "image state"@),
                    ),
                ),
            ),
        )
    }
}

pub open spec fn image_updates_warnings(
    m: ImageUpdatesModule,
    before: Seq<Seq<char>>,
) -> Seq<Seq<char>> {
    let w = text::also(
        before,
        m.enabled && m.registry_timeout.below(m.timeout),
        "modules.image_updates.registry_timeout ("@ + m.registry_timeout.shown()
            + ") is shorter than modules.image_updates.timeout ("@ + m.timeout.shown()
            + ") — the call that reaches a registry gets less time than one the daemon answers itself, and lookups may fail as distribution_query_failed"@,
    );
    text::also(w, m.enabled, socket_warning("image_updates"@))
}

/// The warnings once the module is judged: a fault comes before any of them.
pub open spec fn image_updates_noted(
    m: ImageUpdatesModule,
    before: Seq<Seq<char>>,
) -> Seq<Seq<char>> {
    if image_updates_fault(m) is Some {
        before
    } else {
        image_updates_warnings(m, before)
    }
}

fn validate_image_updates(m: &ImageUpdatesModule, warnings: &mut Vec<String>) -> (r: Result<
    (),
    MuninnError,
>)
    ensures
        reports(r, image_updates_fault(*m)),
        text::texts(final(warnings)@) == image_updates_noted(*m, text::texts(old(warnings)@)),
{
    if !m.enabled {
        return Ok(());
    }
    if let Err(e) = require_positive(&m.timeout, "modules.image_updates.timeout") {
        return Err(e);
    }
    if let Err(e) = require_positive(
        &m.registry_timeout,
        "modules.image_updates.registry_timeout",
    ) {
        return Err(e);
    }
    if let Err(e) = require_positive(&m.interval, "modules.image_updates.interval") {
        return Err(e);
    }
    if let Err(e) = validate_endpoint(&m.endpoint, "image_updates") {
        return Err(e);
    }
    if let Err(e) = reject_too_often("modules.image_updates.interval", &m.interval, "image state") {
        return Err(e);
    }
    if m.registry_timeout.shorter_than(&m.timeout) {
        text::note(
            warnings,
            text::cat5(
                "modules.image_updates.registry_timeout (",
                &m.registry_timeout.display(),
                ") is shorter than modules.image_updates.timeout (",
                &m.timeout.display(),
                ") — the call that reaches a registry gets less time than one the daemon answers itself, and lookups may fail as distribution_query_failed",
            ),
        );
    }
    text::note(warnings, warn_about_socket("image_updates"));
    Ok(())
}

/// What is wrong with the pattern lists of the modules.
pub open spec fn patterns_fault(cfg: ConfigV1) -> Option<Fault> {
    let m = cfg.modules;
    let f = blank_fault(text::texts(m.image_updates.container_exclude@), "modules.image_updates.container_exclude"@);
    let f = or(blank_fault(text::texts(m.image_updates.container_include@), "modules.image_updates.container_include"@), f);
    let f = or(blank_fault(text::texts(m.docker.container_exclude@), "modules.docker.container_exclude"@), f);
    let f = or(blank_fault(text::texts(m.docker.container_include@), "modules.docker.container_include"@), f);
    let f = or(blank_fault(text::texts(m.network.exclude_interfaces@), "modules.network.exclude_interfaces"@), f);
    let f = or(blank_fault(text::texts(m.network.include_interfaces@), "modules.network.include_interfaces"@), f);
    let f = or(blank_fault(text::texts(m.disk_io.exclude_devices@), "modules.disk_io.exclude_devices"@), f);
    let f = or(blank_fault(text::texts(m.disk_io.include_devices@), "modules.disk_io.include_devices"@), f);
    let f = or(blank_fault(text::texts(m.disks.include_mountpoints@), "modules.disks.include_mountpoints"@), f);
    let f = or(blank_fault(text::texts(m.disks.exclude_mountpoints@), "modules.disks.exclude_mountpoints"@), f);
    or(blank_fault(text::texts(m.disks.exclude_filesystems@), "modules.disks.exclude_filesystems"@), f)
}

fn validate_patterns(cfg: &ConfigV1) -> (r: Result<(), MuninnError>)
    ensures
        reports(r, patterns_fault(*cfg)),
{
    let m = &cfg.modules;
    if let Err(e) = reject_blank_patterns(&m.disks.exclude_filesystems, "modules.disks.exclude_filesystems") {
        return Err(e);
    }
    if let Err(e) = reject_blank_patterns(&m.disks.exclude_mountpoints, "modules.disks.exclude_mountpoints") {
        return Err(e);
    }
    if let Err(e) = reject_blank_patterns(&m.disks.include_mountpoints, "modules.disks.include_mountpoints") {
        return Err(e);
    }
    if let Err(e) = reject_blank_patterns(&m.disk_io.include_devices, "modules.disk_io.include_devices") {
        return Err(e);
    }
    if let Err(e) = reject_blank_patterns(&m.disk_io.exclude_devices, "modules.disk_io.exclude_devices") {
        return Err(e);
    }
    if let Err(e) = reject_blank_patterns(&m.network.include_interfaces, "modules.network.include_interfaces") {
        return Err(e);
    }
    if let Err(e) = reject_blank_patterns(&m.network.exclude_interfaces, "modules.network.exclude_interfaces") {
        return Err(e);
    }
    if let Err(e) = reject_blank_patterns(&m.docker.container_include, "modules.docker.container_include") {
        return Err(e);
    }
    if let Err(e) = reject_blank_patterns(&m.docker.container_exclude, "modules.docker.container_exclude") {
        return Err(e);
    }
    if let Err(e) = reject_blank_patterns(&m.image_updates.container_include, "modules.image_updates.container_include") {
        return Err(e);
    }
    if let Err(e) = reject_blank_patterns(&m.image_updates.container_exclude, "modules.image_updates.container_exclude") {
        return Err(e);
    }
    Ok(())
}

pub open spec fn nothing_collected() -> Seq<char> {
    "no module is enabled — muninn would collect nothing. Enable at least one under `modules:` (see docs/modules.md)"@
}

pub open spec fn no_prefix_warning() -> Seq<char> {
    "runtime.host_mount_prefix is empty, which means 'running directly on the host'. In a container this reports the container's own CPU, memory and disks as if they were the host's — set it to /hostfs and mount /:/hostfs:ro"@
}

/// What is wrong with how often package state is looked at.
pub open spec fn updates_fault(cfg: ConfigV1) -> Option<Fault> {
    let m = cfg.modules;
    if m.updates.enabled {
        or(
            zero_fault(m.updates.interval, "modules.updates.interval"@),
            too_often("modules.updates.interval"@, m.updates.interval, "package state"@),
        )
    } else {
        None
    }
}

pub open spec fn modules_fault(cfg: ConfigV1) -> Option<Fault> {
    let m = cfg.modules;
    or(
        fault_if(!m.collects(), nothing_collected()),
        or(
            patterns_fault(cfg),
            or(
                docker_fault(m.docker),
                or(updates_fault(cfg), image_updates_fault(m.image_updates)),
            ),
        ),
    )
}

/// The warning about host metrics without a prefix.
pub open spec fn prefix_warnings(cfg: ConfigV1, before: Seq<Seq<char>>) -> Seq<Seq<char>> {
    text::also(
        before,
        cfg.runtime.host_mount_prefix@.len() == 0 && cfg.modules.reads_host(),
        no_prefix_warning(),
    )
}

/// The warnings about modules that set both an include and an exclude list.
pub open spec fn list_warnings(cfg: ConfigV1, before: Seq<Seq<char>>) -> Seq<Seq<char>> {
    let m = cfg.modules;
    let w = text::also(
        before,
        m.disks.include_mountpoints@.len() > 0 && m.disks.exclude_mountpoints@.len() > 0,
        both_lists("modules.disks"@, "mountpoints"@),
    );
    let w = text::also(
        w,
        m.disk_io.include_devices@.len() > 0 && m.disk_io.exclude_devices@.len() > 0,
        both_lists("modules.disk_io"@, "devices"@),
    );
    text::also(
        w,
        m.network.include_interfaces@.len() > 0 && m.network.exclude_interfaces@.len() > 0,
        both_lists("modules.network"@, "interfaces"@),
    )
}

pub open spec fn modules_warnings(cfg: ConfigV1, before: Seq<Seq<char>>) -> Seq<Seq<char>> {
    let m = cfg.modules;
    let w = list_warnings(cfg, prefix_warnings(cfg, before));
    let w = text::also(w, m.docker.enabled, socket_warning("docker"@));
    image_updates_warnings(m.image_updates, w)
}

/// The warnings once the modules are judged: those of the rules before the fault.
pub open spec fn modules_noted(cfg: ConfigV1, before: Seq<Seq<char>>) -> Seq<Seq<char>> {
    let m = cfg.modules;
    let prefix = prefix_warnings(cfg, before);
    let lists = list_warnings(cfg, prefix);
    let docker = text::also(lists, m.docker.enabled, socket_warning("docker"@));
    if !m.collects() {
        before
    } else if patterns_fault(cfg) is Some {
        prefix
    } else if docker_fault(m.docker) is Some {
        lists
    } else if updates_fault(cfg) is Some {
        docker
    } else {
        image_updates_noted(m.image_updates, docker)
    }
}

fn validate_modules(cfg: &ConfigV1, warnings: &mut Vec<String>) -> (r: Result<(), MuninnError>)
    ensures
        reports(r, modules_fault(*cfg)),
        text::texts(final(warnings)@) == modules_noted(*cfg, text::texts(old(warnings)@)),
{
    let m = &cfg.modules;
    // An agent without modules starts, connects, and reports nothing.
    if !m.any_enabled() {
        return fail(
            "no module is enabled — muninn would collect nothing. Enable at least one under `modules:` (see docs/modules.md)".to_owned(),
        );
    }
    // Host metrics from a container need the prefix: without it Telegraf reports
    // plausible numbers about the wrong machine.
    if cfg.runtime.host_mount_prefix.as_str().is_empty() && m.any_needs_host_mount() {
        text::note(
            warnings,
            "runtime.host_mount_prefix is empty, which means 'running directly on the host'. In a container this reports the container's own CPU, memory and disks as if they were the host's — set it to /hostfs and mount /:/hostfs:ro".to_owned(),
        );
    }
    if let Err(e) = validate_patterns(cfg) {
        return Err(e);
    }
    // An exclude list on top of an allow-list only applies within it.
    warn_on_include_and_exclude(
        &m.disks.include_mountpoints,
        &m.disks.exclude_mountpoints,
        "modules.disks",
        "mountpoints",
        warnings,
    );
    warn_on_include_and_exclude(
        &m.disk_io.include_devices,
        &m.disk_io.exclude_devices,
        "modules.disk_io",
        "devices",
        warnings,
    );
    warn_on_include_and_exclude(
        &m.network.include_interfaces,
        &m.network.exclude_interfaces,
        "modules.network",
        "interfaces",
        warnings,
    );
    if let Err(e) = validate_docker(&m.docker, warnings) {
        return Err(e);
    }
    if m.updates.enabled {
        if let Err(e) = require_positive(&m.updates.interval, "modules.updates.interval") {
            return Err(e);
        }
        if let Err(e) = reject_too_often(
            "modules.updates.interval",
            &m.updates.interval,
            "package state",
        ) {
            return Err(e);
        }
    }
    validate_image_updates(&m.image_updates, warnings)
}

// ---------------------------------------------------------------------------
// Outputs
// ---------------------------------------------------------------------------

/// What is wrong with one file a TLS section names.
pub open spec fn tls_file_fault(
    path: Option<String>,
    prefix: Seq<char>,
    key: Seq<char>,
    host: Host,
) -> Option<Fault> {
    match path {
        Some(p) => if p@.len() == 0 {
            Some(
                Fault::Config(
                    prefix + "."@ + key
                        + " must not be empty (omit it to use the system trust store)"@,
                ),
            )
        } else if !host.holds(p@) {
            Some(Fault::Runtime(prefix + "."@ + key + " '"@ + p@ + "' does not exist"@))
        } else {
            None
        },
        None => None,
    }
}

fn validate_tls_file(path: &Option<String>, prefix: &str, key: &str, host: &Host) -> (r: Result<
    (),
    MuninnError,
>)
    ensures
        reports(r, tls_file_fault(*path, prefix@, key@, *host)),
{
    match path {
        Some(p) => {
            if p.as_str().is_empty() {
                return fail(
                    text::cat4(
                        prefix,
                        ".",
                        key,
                        " must not be empty (omit it to use the system trust store)",
                    ),
                );
            }
            if !host.path_exists(p) {
                return Err(
                    MuninnError::Runtime(
                        text::cat6(prefix, ".", key, " '", p, "' does not exist"),
                    ),
                );
            }
            Ok(())
        }
        None => Ok(()),
    }
}

pub open spec fn tls_fault(tls: TlsConfig, prefix: Seq<char>, host: Host) -> Option<Fault> {
    or(
        fault_if(
            tls.cert_file is Some && tls.key_file is None,
            prefix + ".cert_file is set but key_file is not — mutual TLS needs both"@,
        ),
        or(
            fault_if(
                tls.cert_file is None && tls.key_file is Some,
                prefix + ".key_file is set but cert_file is not — mutual TLS needs both"@,
            ),
            or(
                tls_file_fault(tls.ca_file, prefix, "ca_file"@, host),
                or(
                    tls_file_fault(tls.cert_file, prefix, "cert_file"@, host),
                    tls_file_fault(tls.key_file, prefix, "key_file"@, host),
                ),
            ),
        ),
    )
}

pub open spec fn unverified_warning(prefix: Seq<char>) -> Seq<char> {
    prefix
        + ".insecure_skip_verify is true — certificate verification is DISABLED. Anyone able to intercept this connection can read your metrics and inject fabricated ones. Fix the certificate or set "@
        + prefix + ".ca_file instead"@
}

fn validate_tls(tls: &TlsConfig, prefix: &str, host: &Host, warnings: &mut Vec<String>) -> (r:
    Result<(), MuninnError>)
    ensures
        reports(r, tls_fault(*tls, prefix@, *host)),
        text::texts(final(warnings)@) == text::also(
            text::texts(old(warnings)@),
            tls.insecure_skip_verify && r is Ok,
            unverified_warning(prefix@),
        ),
{
    // Half a client certificate would silently fall back to server-only
    // authentication.
    if tls.cert_file.is_some() && tls.key_file.is_none() {
        return fail(
            text::cat2(prefix, ".cert_file is set but key_file is not — mutual TLS needs both"),
        );
    }
    if tls.cert_file.is_none() && tls.key_file.is_some() {
        return fail(
            text::cat2(prefix, ".key_file is set but cert_file is not — mutual TLS needs both"),
        );
    }
    if let Err(e) = validate_tls_file(&tls.ca_file, prefix, "ca_file", host) {
        return Err(e);
    }
    if let Err(e) = validate_tls_file(&tls.cert_file, prefix, "cert_file", host) {
        return Err(e);
    }
    if let Err(e) = validate_tls_file(&tls.key_file, prefix, "key_file", host) {
        return Err(e);
    }
    if tls.insecure_skip_verify {
        text::note(
            warnings,
            text::cat4(
                prefix,
                ".insecure_skip_verify is true — certificate verification is DISABLED. Anyone able to intercept this connection can read your metrics and inject fabricated ones. Fix the certificate or set ",
                prefix,
                ".ca_file instead",
            ),
        );
    }
    Ok(())
}

/// The fault of a secret file, if it has one.
pub open spec fn secret_fault(host: Host, path: Seq<char>) -> Option<Fault> {
    match host.secret(path) {
        Ok(_) => None,
        Err(fault) => Some(fault),
    }
}

fn validate_secret(host: &Host, path: &str) -> (r: Result<(), MuninnError>)
    ensures
        reports(r, secret_fault(*host, path@)),
{
    match host.secret_at(path) {
        Ok(_) => Ok(()),
        Err(e) => Err(e),
    }
}

pub open spec fn influxdb_fault(o: InfluxdbOutput, host: Host) -> Option<Fault> {
    or(
        empty_fault(o.url@, "outputs.influxdb.url"@),
        or(
            empty_fault(o.organization@, "outputs.influxdb.organization"@),
            or(
                empty_fault(o.bucket@, "outputs.influxdb.bucket"@),
                or(
                    empty_fault(o.token_file@, "outputs.influxdb.token_file"@),
                    or(
                        zero_fault(o.timeout, "outputs.influxdb.timeout"@),
                        or(
                            fault_if(
                                !"http://"@.is_prefix_of(o.url@) && !"https://"@.is_prefix_of(
                                    o.url@,
                                ),
                                "outputs.influxdb.url '"@ + o.url@
                                    + "' must be an absolute URL starting with http:// or https://"@,
                            ),
                            or(
                                secret_fault(host, o.token_file@),
                                tls_fault(o.tls, "outputs.influxdb.tls"@, host),
                            ),
                        ),
                    ),
                ),
            ),
        ),
    )
}

pub open spec fn influxdb_warnings(o: InfluxdbOutput, before: Seq<Seq<char>>) -> Seq<Seq<char>> {
    let w = text::also(
        before,
        o.tls.insecure_skip_verify,
        unverified_warning("outputs.influxdb.tls"@),
    );
    text::also(
        w,
        "http://"@.is_prefix_of(o.url@),
        "outputs.influxdb.url '"@ + o.url@
            + "' is plaintext HTTP — the API token is sent with every write and is readable by anyone on the path"@,
    )
}

/// The warnings once the output is judged: a fault comes before any of them.
pub open spec fn influxdb_noted(
    o: InfluxdbOutput,
    host: Host,
    before: Seq<Seq<char>>,
) -> Seq<Seq<char>> {
    if influxdb_fault(o, host) is Some {
        before
    } else {
        influxdb_warnings(o, before)
    }
}

fn validate_influxdb(o: &InfluxdbOutput, host: &Host, warnings: &mut Vec<String>) -> (r: Result<
    (),
    MuninnError,
>)
    ensures
        reports(r, influxdb_fault(*o, *host)),
        text::texts(final(warnings)@) == influxdb_noted(
            *o,
            *host,
            text::texts(old(warnings)@),
        ),
{
    if let Err(e) = require_non_empty(&o.url, "outputs.influxdb.url") {
        return Err(e);
    }
    if let Err(e) = require_non_empty(&o.organization, "outputs.influxdb.organization") {
        return Err(e);
    }
    if let Err(e) = require_non_empty(&o.bucket, "outputs.influxdb.bucket") {
        return Err(e);
    }
    if let Err(e) = require_non_empty(&o.token_file, "outputs.influxdb.token_file") {
        return Err(e);
    }
    if let Err(e) = require_positive(&o.timeout, "outputs.influxdb.timeout") {
        return Err(e);
    }
    if !text::starts_with(&o.url, "http://") && !text::starts_with(&o.url, "https://") {
        return fail(
            text::cat3(
                "outputs.influxdb.url '",
                &o.url,
                "' must be an absolute URL starting with http:// or https://",
            ),
        );
    }
    // A missing token discovered at the first write looks like an outage;
    // discovered here it names the path.
    if let Err(e) = validate_secret(host, &o.token_file) {
        return Err(e);
    }
    if let Err(e) = validate_tls(&o.tls, "outputs.influxdb.tls", host, warnings) {
        return Err(e);
    }
    if text::starts_with(&o.url, "http://") {
        text::note(
            warnings,
            text::cat3(
                "outputs.influxdb.url '",
                &o.url,
                "' is plaintext HTTP — the API token is sent with every write and is readable by anyone on the path",
            ),
        );
    }
    Ok(())
}

pub open spec fn listen_fault(value: Seq<char>, key: Seq<char>, host: Host) -> Option<Fault> {
    fault_if(
        host.address(value) is None,
        key + " '"@ + value
            + "' must be an address and port, e.g. '0.0.0.0:8080' or '[::]:8080'. In a container use 0.0.0.0 — a published port never reaches the container's loopback"@,
    )
}

fn parse_listen<'a>(value: &str, key: &str, host: &'a Host) -> (r: Result<
    &'a ListenAddress,
    MuninnError,
>)
    ensures
        match r {
            Ok(a) => host.address(value@) == Some(*a) && listen_fault(value@, key@, *host) is None,
            Err(e) => listen_fault(value@, key@, *host) == Some(e@),
        },
{
    match host.address_of(value) {
        Some(a) => Ok(a),
        None => Err(
            MuninnError::Config(
                text::cat4(
                    key,
                    " '",
                    value,
                    "' must be an address and port, e.g. '0.0.0.0:8080' or '[::]:8080'. In a container use 0.0.0.0 — a published port never reaches the container's loopback",
                ),
            ),
        ),
    }
}

/// Half a credential is not a credential.
pub open spec fn basic_auth_fault(o: PrometheusOutput, host: Host) -> Option<Fault> {
    match (o.basic_auth.username, o.basic_auth.password_file) {
        (Some(user), Some(file)) => if user@.len() == 0 {
            Some(Fault::Config("outputs.prometheus.basic_auth.username must not be empty"@))
        } else {
            secret_fault(host, file@)
        },
        (Some(_), None) => Some(
            Fault::Config(
                "outputs.prometheus.basic_auth.username is set but password_file is not — set both, or neither to disable authentication"@,
            ),
        ),
        (None, Some(_)) => Some(
            Fault::Config(
                "outputs.prometheus.basic_auth.password_file is set but username is not — set both, or neither to disable authentication"@,
            ),
        ),
        (None, None) => None,
    }
}

fn validate_basic_auth(o: &PrometheusOutput, host: &Host) -> (r: Result<(), MuninnError>)
    ensures
        reports(r, basic_auth_fault(*o, *host)),
{
    match (&o.basic_auth.username, &o.basic_auth.password_file) {
        (Some(user), Some(file)) => {
            if user.as_str().is_empty() {
                return fail(
                    "outputs.prometheus.basic_auth.username must not be empty".to_owned(),
                );
            }
            validate_secret(host, file)
        }
        (Some(_), None) => fail(
            "outputs.prometheus.basic_auth.username is set but password_file is not — set both, or neither to disable authentication".to_owned(),
        ),
        (None, Some(_)) => fail(
            "outputs.prometheus.basic_auth.password_file is set but username is not — set both, or neither to disable authentication".to_owned(),
        ),
        (None, None) => Ok(()),
    }
}

/// What is wrong with the endpoint itself, its credentials aside.
pub open spec fn endpoint_settings_fault(o: PrometheusOutput, host: Host) -> Option<Fault> {
    or(
        listen_fault(o.listen@, "outputs.prometheus.listen"@, host),
        or(
            zero_fault(o.expiration_interval, "outputs.prometheus.expiration_interval"@),
            fault_if(
                !absolute(o.path@),
                "outputs.prometheus.path '"@ + o.path@ + "' must start with '/'"@,
            ),
        ),
    )
}

pub open spec fn prometheus_fault(o: PrometheusOutput, host: Host) -> Option<Fault> {
    or(endpoint_settings_fault(o, host), basic_auth_fault(o, host))
}

pub open spec fn prometheus_warnings(
    o: PrometheusOutput,
    interval: ConfigDuration,
    before: Seq<Seq<char>>,
) -> Seq<Seq<char>> {
    text::also(
        before,
        o.expiration_interval.below(interval),
        "outputs.prometheus.expiration_interval ("@ + o.expiration_interval.shown()
            + ") is shorter than agent.interval ("@ + interval.shown()
            + ") — metrics will expire before they are refreshed and scrapes will show gaps"@,
    )
}

/// The warnings once the endpoint is judged. Only a fault of its credentials comes
/// after them.
pub open spec fn prometheus_noted(
    o: PrometheusOutput,
    interval: ConfigDuration,
    host: Host,
    before: Seq<Seq<char>>,
) -> Seq<Seq<char>> {
    if endpoint_settings_fault(o, host) is Some {
        before
    } else {
        prometheus_warnings(o, interval, before)
    }
}

fn validate_prometheus(
    o: &PrometheusOutput,
    interval: &ConfigDuration,
    host: &Host,
    warnings: &mut Vec<String>,
) -> (r: Result<(), MuninnError>)
    ensures
        reports(r, prometheus_fault(*o, *host)),
        text::texts(final(warnings)@) == prometheus_noted(
            *o,
            *interval,
            *host,
            text::texts(old(warnings)@),
        ),
{
    if let Err(e) = parse_listen(&o.listen, "outputs.prometheus.listen", host) {
        return Err(e);
    }
    if let Err(e) = require_positive(
        &o.expiration_interval,
        "outputs.prometheus.expiration_interval",
    ) {
        return Err(e);
    }
    if !is_absolute_path(&o.path) {
        return fail(text::cat3("outputs.prometheus.path '", &o.path, "' must start with '/'"));
    }
    // Shorter than the collection interval, and scrapes see gaps for metrics
    // that are being collected perfectly well.
    if o.expiration_interval.shorter_than(interval) {
        text::note(
            warnings,
            text::cat5(
                "outputs.prometheus.expiration_interval (",
                &o.expiration_interval.display(),
                ") is shorter than agent.interval (",
                &interval.display(),
                ") — metrics will expire before they are refreshed and scrapes will show gaps",
            ),
        );
    }
    validate_basic_auth(o, host)
}

pub open spec fn nothing_sent() -> Seq<char> {
    "no output is enabled — muninn would collect metrics and send them nowhere. Enable outputs.influxdb, outputs.prometheus, or both"@
}

pub open spec fn outputs_fault(cfg: ConfigV1, host: Host) -> Option<Fault> {
    let o = cfg.outputs;
    or(
        fault_if(!o.sends(), nothing_sent()),
        or(
            if o.influxdb.enabled {
                influxdb_fault(o.influxdb, host)
            } else {
                None
            },
            if o.prometheus.enabled {
                prometheus_fault(o.prometheus, host)
            } else {
                None
            },
        ),
    )
}

pub open spec fn outputs_warnings(cfg: ConfigV1, before: Seq<Seq<char>>) -> Seq<Seq<char>> {
    let o = cfg.outputs;
    let w = if o.influxdb.enabled {
        influxdb_warnings(o.influxdb, before)
    } else {
        before
    };
    if o.prometheus.enabled {
        prometheus_warnings(o.prometheus, cfg.agent.interval, w)
    } else {
        w
    }
}

/// The warnings once the outputs are judged: those of the rules before the fault.
pub open spec fn outputs_noted(cfg: ConfigV1, host: Host, before: Seq<Seq<char>>) -> Seq<
    Seq<char>,
> {
    let o = cfg.outputs;
    let w = if o.influxdb.enabled {
        influxdb_noted(o.influxdb, host, before)
    } else {
        before
    };
    if o.influxdb.enabled && influxdb_fault(o.influxdb, host) is Some {
        w
    } else if o.prometheus.enabled {
        prometheus_noted(o.prometheus, cfg.agent.interval, host, w)
    } else {
        w
    }
}

fn validate_outputs(cfg: &ConfigV1, host: &Host, warnings: &mut Vec<String>) -> (r: Result<
    (),
    MuninnError,
>)
    ensures
        reports(r, outputs_fault(*cfg, *host)),
        text::texts(final(warnings)@) == outputs_noted(
            *cfg,
            *host,
            text::texts(old(warnings)@),
        ),
{
    let o = &cfg.outputs;
    if !o.any_enabled() {
        return fail(
            "no output is enabled — muninn would collect metrics and send them nowhere. Enable outputs.influxdb, outputs.prometheus, or both".to_owned(),
        );
    }
    if o.influxdb.enabled {
        if let Err(e) = validate_influxdb(&o.influxdb, host, warnings) {
            return Err(e);
        }
    }
    if o.prometheus.enabled {
        if let Err(e) = validate_prometheus(&o.prometheus, &cfg.agent.interval, host, warnings) {
            return Err(e);
        }
    }
    Ok(())
}

// ---------------------------------------------------------------------------
// Listeners
// ---------------------------------------------------------------------------

/// Whether two listeners would fight over the same socket: they share a port
/// that is not picked freely, and one address covers the other.
pub open spec fn collide(a: ListenAddress, b: ListenAddress) -> bool {
    &&& a.port == b.port
    &&& a.port != 0
    &&& (a.v6 == b.v6 && a.ip == b.ip) || a.wildcard() || b.wildcard()
}

/// Whether two listeners would fight over the same socket.
///
/// Equality is not enough: a wildcard address already covers every specific one,
/// so the second bind fails. Port 0 means "any free port" and never collides.
pub fn addresses_collide(a: &ListenAddress, b: &ListenAddress) -> (r: bool)
    ensures
        r == collide(*a, *b),
{
    if a.port != b.port || a.port == 0 {
        return false;
    }
    (a.v6 == b.v6 && a.ip == b.ip) || a.is_unspecified() || b.is_unspecified()
}

pub open spec fn collision_message(cfg: ConfigV1, port: u16) -> Seq<char> {
    "health.listen ("@ + cfg.health.listen@ + ") and outputs.prometheus.listen ("@
        + cfg.outputs.prometheus.listen@ + ") cannot both bind — they share port "@
        + text::decimal(port as nat) + ". Give one of them a different port"@
}

pub open spec fn listeners_fault(cfg: ConfigV1, host: Host) -> Option<Fault> {
    or(
        listen_fault(cfg.health.listen@, "health.listen"@, host),
        if cfg.outputs.prometheus.enabled {
            or(
                listen_fault(cfg.outputs.prometheus.listen@, "outputs.prometheus.listen"@, host),
                match (
                    host.address(cfg.health.listen@),
                    host.address(cfg.outputs.prometheus.listen@),
                ) {
                    (Some(a), Some(b)) => fault_if(
                        collide(a, b),
                        collision_message(cfg, a.port),
                    ),
                    _ => None,
                },
            )
        } else {
            None
        },
    )
}

fn validate_listeners(cfg: &ConfigV1, host: &Host) -> (r: Result<(), MuninnError>)
    ensures
        reports(r, listeners_fault(*cfg, *host)),
{
    let health = match parse_listen(&cfg.health.listen, "health.listen", host) {
        Ok(a) => a,
        Err(e) => return Err(e),
    };
    if cfg.outputs.prometheus.enabled {
        let prometheus = match parse_listen(
            &cfg.outputs.prometheus.listen,
            "outputs.prometheus.listen",
            host,
        ) {
            Ok(a) => a,
            Err(e) => return Err(e),
        };
        if addresses_collide(health, prometheus) {
            return fail(
                text::cat7(
                    "health.listen (",
                    &cfg.health.listen,
                    ") and outputs.prometheus.listen (",
                    &cfg.outputs.prometheus.listen,
                    ") cannot both bind — they share port ",
                    &text::decimal_of(health.port as u128),
                    ". Give one of them a different port",
                ),
            );
        }
    }
    Ok(())
}

// ---------------------------------------------------------------------------
// The whole configuration
// ---------------------------------------------------------------------------

/// The first rule a configuration breaks, if it breaks one.
pub open spec fn fault_of(cfg: ConfigV1, host: Host) -> Option<Fault> {
    or(
        agent_fault(cfg),
        or(
            runtime_fault(cfg),
            or(modules_fault(cfg), or(outputs_fault(cfg, host), listeners_fault(cfg, host))),
        ),
    )
}

/// Everything about a valid configuration that deserves a second look.
pub open spec fn warnings_of(cfg: ConfigV1) -> Seq<Seq<char>> {
    let w = agent_warnings(cfg, Seq::empty());
    let w = runtime_warnings(cfg, w);
    let w = modules_warnings(cfg, w);
    outputs_warnings(cfg, w)
}

/// Validates `cfg`, returning warnings on success.
pub fn validate(cfg: &ConfigV1, host: &Host) -> (r: Result<Vec<String>, MuninnError>)
    ensures
        match r {
            Ok(w) => fault_of(*cfg, *host) is None && text::texts(w@) == warnings_of(*cfg),
            Err(e) => fault_of(*cfg, *host) == Some(e@),
        },
{
    let mut warnings: Vec<String> = Vec::new();
    proof {
        assert(text::texts(warnings@) =~= Seq::<Seq<char>>::empty());
    }
    if let Err(e) = validate_agent(cfg, &mut warnings) {
        return Err(e);
    }
    if let Err(e) = validate_runtime(cfg, &mut warnings) {
        return Err(e);
    }
    if let Err(e) = validate_modules(cfg, &mut warnings) {
        return Err(e);
    }
    if let Err(e) = validate_outputs(cfg, host, &mut warnings) {
        return Err(e);
    }
    if let Err(e) = validate_listeners(cfg, host) {
        return Err(e);
    }
    Ok(warnings)
}

/// A valid configuration collects something and sends it somewhere.
pub proof fn law_a_valid_configuration_collects_and_sends(cfg: ConfigV1, host: Host)
    requires
        fault_of(cfg, host) is None,
    ensures
        cfg.modules.collects(),
        cfg.outputs.sends(),
{
}

/// A valid configuration collects no faster than once a second, and none of its
/// periods is zero.
pub proof fn law_valid_periods_are_positive(cfg: ConfigV1, host: Host)
    requires
        fault_of(cfg, host) is None,
    ensures
        cfg.agent.interval.millis() >= 1000,
        zero_fault(cfg.agent.flush_interval, ""@) is None,
        zero_fault(cfg.runtime.shutdown_grace_period, ""@) is None,
        zero_fault(cfg.runtime.telegraf_start_timeout, ""@) is None,
        cfg.modules.updates.enabled ==> cfg.modules.updates.interval.secs >= 60,
        cfg.modules.image_updates.enabled ==> cfg.modules.image_updates.interval.secs >= 60,
{
}

/// The listeners of a valid configuration can all bind.
pub proof fn law_valid_listeners_do_not_collide(cfg: ConfigV1, host: Host)
    requires
        fault_of(cfg, host) is None,
        cfg.outputs.prometheus.enabled,
    ensures
        host.address(cfg.health.listen@) matches Some(a) && host.address(
            cfg.outputs.prometheus.listen@,
        ) matches Some(b) && !collide(a, b),
{
}

/// It does not matter which of two listeners is asked about the other.
pub proof fn law_collision_is_symmetric(a: ListenAddress, b: ListenAddress)
    ensures
        collide(a, b) == collide(b, a),
{
}

/// A disabled output is not validated: what its section says changes neither the
/// verdict nor the warnings.
pub proof fn law_a_disabled_output_is_not_validated(a: ConfigV1, b: ConfigV1, host: Host)
    requires
        !a.outputs.influxdb.enabled,
        !b.outputs.influxdb.enabled,
        b == (ConfigV1 {
            outputs: crate::config::model::OutputsConfig {
                influxdb: b.outputs.influxdb,
                ..a.outputs
            },
            ..a
        }),
    ensures
        fault_of(a, host) == fault_of(b, host),
        warnings_of(a) == warnings_of(b),
        outputs_fault(a, host) == outputs_fault(b, host),
        forall|w: Seq<Seq<char>>| #[trigger] outputs_noted(a, host, w) == outputs_noted(b, host, w),
{
}

/// The same for the scrape endpoint: switched off, nothing its section says
/// matters, its address included.
pub proof fn law_a_disabled_endpoint_is_not_validated(a: ConfigV1, b: ConfigV1, host: Host)
    requires
        !a.outputs.prometheus.enabled,
        !b.outputs.prometheus.enabled,
        b == (ConfigV1 {
            outputs: crate::config::model::OutputsConfig {
                prometheus: b.outputs.prometheus,
                ..a.outputs
            },
            ..a
        }),
    ensures
        fault_of(a, host) == fault_of(b, host),
        warnings_of(a) == warnings_of(b),
        outputs_fault(a, host) == outputs_fault(b, host),
        forall|w: Seq<Seq<char>>| #[trigger] outputs_noted(a, host, w) == outputs_noted(b, host, w),
{
}

} // verus!
