//! The modules and outputs, and the Telegraf configuration they make up.

use muninn::config::host::{AddressFacts, Host, ListenAddress};
use muninn::config::model::{LogLevel, TlsConfig};
use muninn::config::normalised;
use muninn::config::{loader, Config, Overrides};
use muninn::duration::ConfigDuration;
use muninn::modules::image_updates::{budget, exec_timeout, MAX_BUDGET_SECS};
use muninn::modules::inputs::{
    ImageUpdates, Load, System, Updates, RANK_CPU, RANK_DISK, RANK_DISKIO, RANK_DOCKER,
    RANK_MEM, RANK_NET, RANK_PROCESSES, RANK_SWAP, RANK_SYSTEM, RANK_UPDATES,
};
use muninn::modules::{
    agent, all_modules, build, outputs, requirements_of_enabled, Endpoint, EndpointKind,
    MonitoringModule, RenderContext,
};
use muninn::secret::Secret;
use muninn::telegraf::model::{PluginInstance, TomlValue};
use muninn::telegraf::render as render_toml;

// ---------------------------------------------------------------------------
// Helpers
// ---------------------------------------------------------------------------

/// The content of a secret file.
fn token_file(content: &str) -> String {
    content.to_string()
}

fn host() -> Host {
    Host {
        files: Vec::new(),
        addresses: [("0.0.0.0:8080", 8080), ("0.0.0.0:9273", 9273)]
            .iter()
            .map(|(text, port)| AddressFacts {
                written: text.to_string(),
                parsed: Some(ListenAddress {
                    v6: false,
                    ip: 0,
                    port: *port,
                    text: text.to_string(),
                }),
            })
            .collect(),
    }
}

/// A minimal resolved configuration — Prometheus on, everything else off —
/// which the closure then adjusts.
///
/// Built through the real loader rather than by hand, so a test cannot
/// accidentally construct a configuration the validator would have rejected.
fn config_with(adjust: impl FnOnce(&mut Config)) -> Config {
    let yaml = r#"
version: 1
modules:
  cpu:
    enabled: true
outputs:
  prometheus:
    enabled: true
"#;
    let (v1, _) =
        loader::from_str(yaml, &Overrides::default(), &host()).expect("fixture must load");
    let mut cfg = match Config::from_v1(v1, &host()) {
        Ok(c) => c,
        Err(e) => panic!("fixture must resolve: {}", e.message()),
    };
    cfg.modules.cpu.enabled = false; // the closure decides what is on
    adjust(&mut cfg);
    cfg
}

/// Switch InfluxDB on in an already-resolved configuration.
fn enable_influx(cfg: &mut Config, token: &str) {
    cfg.modules.cpu.enabled = true;
    cfg.outputs.influxdb = Some(normalised::Influxdb {
        url: "https://influx.example:8086".to_string(),
        organization: "infra".to_string(),
        bucket: "servers".to_string(),
        token: Secret::from_value(token),
        timeout: ConfigDuration::from_secs(5),
        tls: TlsConfig::default(),
    });
}

fn render_of(cfg: &Config) -> String {
    render_toml(&build(&RenderContext::new(cfg)), "0.1.0")
}

// ---------------------------------------------------------------------------
// Module selection
// ---------------------------------------------------------------------------

#[test]
fn only_enabled_modules_appear() {
    let cfg = config_with(|c| {
        c.modules.cpu.enabled = true;
        c.modules.swap.enabled = true;
    });
    let out = render_of(&cfg);
    assert!(out.contains("[[inputs.cpu]]"));
    assert!(out.contains("[[inputs.swap]]"));
    assert!(!out.contains("[[inputs.mem]]"), "memory was not enabled");
    assert!(!out.contains("[[inputs.disk]]"), "disks was not enabled");
}

/// Every module in the registry must be reachable from the configuration, or it
/// is dead code that looks like a feature.
#[test]
fn every_module_can_be_enabled() {
    for module in all_modules() {
        let id = module.id();
        let cfg = config_with(|c| match id {
            "cpu" => c.modules.cpu.enabled = true,
            "memory" => c.modules.memory.enabled = true,
            "load" => c.modules.load.enabled = true,
            "system" => c.modules.system.enabled = true,
            "swap" => c.modules.swap.enabled = true,
            "processes" => c.modules.processes.enabled = true,
            "disks" => c.modules.disks.enabled = true,
            "disk_io" => c.modules.disk_io.enabled = true,
            "network" => c.modules.network.enabled = true,
            "docker" => c.modules.docker.enabled = true,
            "updates" => c.modules.updates.enabled = true,
            "image_updates" => c.modules.image_updates.enabled = true,
            other => panic!("module '{other}' has no way to be enabled from the configuration"),
        });
        assert!(
            module.enabled(&cfg),
            "{id} did not report itself enabled after being switched on"
        );
        assert!(
            !module.render(&RenderContext::new(&cfg)).is_empty(),
            "{id} rendered nothing"
        );
    }
}

// ---------------------------------------------------------------------------
// The load/system merge
// ---------------------------------------------------------------------------

/// Four cases, because the merge is the one mapping in the codebase that is not
/// one-to-one and is therefore the one a refactor is most likely to break.
#[test]
fn load_and_system_produce_exactly_one_instance() {
    let cases = [
        (true, false, Some(vec!["load"])),
        (false, true, Some(vec!["uptime", "users"])),
        (true, true, Some(vec!["load", "uptime", "users"])),
        (false, false, None),
    ];

    for (load, system, expected) in cases {
        let cfg = config_with(|c| {
            c.modules.cpu.enabled = true; // so the config is never empty
            c.modules.load.enabled = load;
            c.modules.system.enabled = system;
        });
        let out = render_of(&cfg);
        let blocks = out.matches("[[inputs.system]]").count();

        match expected {
            None => assert_eq!(blocks, 0, "neither enabled: expected no system block"),
            Some(groups) => {
                assert_eq!(
                    blocks, 1,
                    "load={load} system={system}: expected exactly one [[inputs.system]], \
                     two would collect every metric twice\n{out}"
                );
                let want = format!(
                    "include = [{}]",
                    groups
                        .iter()
                        .map(|g| format!("\"{g}\""))
                        .collect::<Vec<_>>()
                        .join(", ")
                );
                assert!(out.contains(&want), "expected {want}\n{out}");
            }
        }
    }
}

// ---------------------------------------------------------------------------
// Exclusions
// ---------------------------------------------------------------------------

/// Each `exclude_*` must land on the right tag. Getting the tag name wrong
/// produces a filter that matches nothing — valid TOML, accepted by Telegraf,
/// and silently ineffective.
#[test]
fn exclusions_render_onto_the_correct_tag() {
    let cfg = config_with(|c| {
        c.modules.disks.enabled = true;
        c.modules.disks.exclude_mountpoints = vec!["/snap*".into()];
        c.modules.disk_io.enabled = true;
        c.modules.disk_io.exclude_devices = vec!["loop*".into()];
        c.modules.network.enabled = true;
        c.modules.network.exclude_interfaces = vec!["veth*".into()];
    });
    let out = render_of(&cfg);
    assert!(
        out.contains("[inputs.disk.tagdrop]\n    path = [\"/snap*\"]"),
        "{out}"
    );
    assert!(
        out.contains("[inputs.diskio.tagdrop]\n    name = [\"loop*\"]"),
        "{out}"
    );
    assert!(
        out.contains("[inputs.net.tagdrop]\n    interface = [\"veth*\"]"),
        "{out}"
    );
}

#[test]
fn include_lists_render_as_plugin_options_not_filters() {
    let cfg = config_with(|c| {
        c.modules.network.enabled = true;
        c.modules.network.include_interfaces = vec!["eth0".into()];
    });
    let out = render_of(&cfg);
    assert!(out.contains("interfaces = [\"eth0\"]"));
    assert!(
        !out.contains("tagpass"),
        "an include is a plugin option, not a filter"
    );
}

/// The rule ADR-0007 exists for, checked on real module output rather than on a
/// hand-built instance.
#[test]
fn a_scalar_never_follows_a_subtable_within_a_plugin_block() {
    let cfg = config_with(|c| {
        c.modules.disks.enabled = true;
        c.modules.disks.exclude_filesystems = vec!["tmpfs".into()];
        c.modules.disks.exclude_mountpoints = vec!["/snap*".into()];
    });
    let out = render_of(&cfg);
    let ignore_at = out.find("ignore_fs").expect("ignore_fs missing");
    let drop_at = out.find("[inputs.disk.tagdrop]").expect("tagdrop missing");
    assert!(
        ignore_at < drop_at,
        "ignore_fs would be swallowed by the tagdrop table:\n{out}"
    );
}

// ---------------------------------------------------------------------------
// Determinism
// ---------------------------------------------------------------------------

#[test]
fn the_whole_pipeline_is_deterministic() {
    let t = token_file("tok");
    let cfg = config_with(|c| {
        enable_influx(c, &t);
        c.modules.load.enabled = true;
        c.modules.system.enabled = true;
        c.modules.disks.enabled = true;
        c.modules.disks.exclude_mountpoints = vec!["/snap*".into(), "/var/lib/docker/*".into()];
    });
    assert_eq!(render_of(&cfg), render_of(&cfg));
}

// ---------------------------------------------------------------------------
// Redaction
// ---------------------------------------------------------------------------

/// `render-config` output must be safe to paste into an issue.
#[test]
fn redacted_rendering_contains_no_secret() {
    let t = token_file("super-secret-token");
    let cfg = config_with(|c| enable_influx(c, &t));

    let redacted = render_toml(&build(&RenderContext::redacted(&cfg)), "0.1.0");
    assert!(
        !redacted.contains("super-secret-token"),
        "the redacted rendering leaked the token:\n{redacted}"
    );
    assert!(redacted.contains("token = \"***\""));

    // ...and the runtime path still emits the real value, or Telegraf could not
    // authenticate.
    let real = render_of(&cfg);
    assert!(real.contains("token = \"super-secret-token\""));
}

// ---------------------------------------------------------------------------
// Requirements
// ---------------------------------------------------------------------------

#[test]
fn requirements_are_collected_only_for_enabled_modules() {
    let cfg = config_with(|c| {
        c.modules.cpu.enabled = true;
        c.modules.disk_io.enabled = true;
    });
    let reqs = requirements_of_enabled(&cfg);
    let ids: Vec<&str> = reqs.iter().map(|(id, _)| *id).collect();
    assert_eq!(ids, vec!["cpu", "disk_io"]);
    assert!(
        reqs.iter().any(|(_, r)| r.host_paths.contains(&"sys")),
        "disk_io needs /sys"
    );
}

/// Nothing should be demanded on behalf of a module nobody enabled — that is the
/// whole reason requirements are per-module.
#[test]
fn a_configuration_with_one_module_demands_almost_nothing() {
    let cfg = config_with(|c| c.modules.cpu.enabled = true);
    let reqs = requirements_of_enabled(&cfg);
    assert_eq!(reqs.len(), 1);
    assert_eq!(reqs[0].1.host_paths, vec!["proc"]);
    assert!(reqs[0].1.absolute_paths.is_empty());
}

// ---------------------------------------------------------------------------
// Docker
// ---------------------------------------------------------------------------

/// Every option the module exposes has to reach the generated file. A filter
/// that silently failed to render would be the worst kind of bug here: the
/// operator believes they excluded a noisy container and the cardinality it
/// costs shows up on the bill instead.
#[test]
fn the_docker_module_renders_every_option_it_offers() {
    let cfg = config_with(|c| {
        c.modules.docker.enabled = true;
        c.modules.docker.endpoint = "tcp://docker-socket-proxy:2375".into();
        c.modules.docker.container_include = vec!["web-*".into()];
        c.modules.docker.container_exclude = vec!["*-build".into()];
        c.modules.docker.container_states = vec!["running".into(), "exited".into()];
        c.modules.docker.timeout = ConfigDuration::from_secs(12);
    });
    let toml = render_of(&cfg);

    assert!(toml.contains("[[inputs.docker]]"), "{toml}");
    assert!(
        toml.contains(r#"endpoint = "tcp://docker-socket-proxy:2375""#),
        "{toml}"
    );
    assert!(toml.contains(r#"timeout = "12s""#), "{toml}");
    assert!(
        toml.contains(r#"container_name_include = ["web-*"]"#),
        "{toml}"
    );
    assert!(
        toml.contains(r#"container_name_exclude = ["*-build"]"#),
        "{toml}"
    );
    assert!(
        toml.contains(r#"container_state_include = ["running", "exited"]"#),
        "state selection must reach the file: {toml}"
    );
}

/// The default is running only, and that is a decision rather than an accident:
/// a stopped container reporting zeros is indistinguishable from an idle one.
#[test]
fn the_docker_module_collects_running_containers_by_default() {
    let cfg = config_with(|c| c.modules.docker.enabled = true);
    assert!(
        render_of(&cfg).contains(r#"container_state_include = ["running"]"#),
        "{}",
        render_of(&cfg)
    );
}

/// Empty filters are omitted rather than rendered empty — an empty
/// `container_name_include` in Telegraf is not "include everything" by accident
/// but by a rule worth not depending on.
#[test]
fn unset_docker_filters_are_omitted() {
    let cfg = config_with(|c| c.modules.docker.enabled = true);
    let toml = render_of(&cfg);
    assert!(!toml.contains("container_name_include"), "{toml}");
    assert!(!toml.contains("container_name_exclude"), "{toml}");
}

/// A unix endpoint is two requirements, not one: the socket file has to be
/// mounted *and* the daemon behind it has to answer. They fail differently and
/// are fixed differently.
#[test]
fn a_unix_docker_endpoint_demands_the_socket_file_and_the_service() {
    let cfg = config_with(|c| {
        c.modules.docker.enabled = true;
        c.modules.docker.endpoint = "unix:///var/run/docker.sock".into();
    });
    let reqs = requirements_of_enabled(&cfg);
    let (_, docker) = reqs.iter().find(|(id, _)| *id == "docker").unwrap();

    assert_eq!(docker.absolute_paths, vec!["/var/run/docker.sock"]);
    assert_eq!(
        docker.endpoints,
        vec![Endpoint {
            kind: EndpointKind::UnixSocket("/var/run/docker.sock".into()),
            timeout: ConfigDuration::from_secs(5),
        }]
    );
}

/// The recommended deployment. A proxy is reached over TCP and has no socket
/// file at all — demanding one would refuse the safest setup, which is the bug
/// this replaced.
#[test]
fn a_proxy_endpoint_demands_no_socket_file() {
    let cfg = config_with(|c| {
        c.modules.docker.enabled = true;
        c.modules.docker.endpoint = "tcp://docker-socket-proxy:2375".into();
    });
    let reqs = requirements_of_enabled(&cfg);
    let (_, docker) = reqs.iter().find(|(id, _)| *id == "docker").unwrap();

    assert!(
        docker.absolute_paths.is_empty(),
        "a proxy deployment has no socket to mount: {:?}",
        docker.absolute_paths
    );
    assert_eq!(
        docker.endpoints[0].kind,
        EndpointKind::Tcp("docker-socket-proxy:2375".into())
    );
}

/// The probe waits as long as the operator said the module may, not a number
/// invented here — otherwise a deployment the running agent tolerates could be
/// refused at startup.
#[test]
fn the_endpoint_carries_the_configured_timeout() {
    let cfg = config_with(|c| {
        c.modules.docker.enabled = true;
        c.modules.docker.timeout = ConfigDuration::from_secs(30);
    });
    let reqs = requirements_of_enabled(&cfg);
    let (_, docker) = reqs.iter().find(|(id, _)| *id == "docker").unwrap();
    assert_eq!(
        docker.endpoints[0].timeout,
        ConfigDuration::from_secs(30)
    );
}

/// A module nobody enabled demands nothing — including no probe, which would
/// otherwise make a disabled module able to fail a startup.
#[test]
fn a_disabled_docker_module_demands_nothing() {
    let cfg = config_with(|c| c.modules.docker.enabled = false);
    let reqs = requirements_of_enabled(&cfg);
    assert!(!reqs.iter().any(|(id, _)| *id == "docker"));
}

#[test]
fn intervals_come_from_the_configuration() {
    let cfg = config_with(|c| {
        c.agent.interval = ConfigDuration::from_secs(10);
        c.agent.flush_interval = ConfigDuration::from_secs(60);
    });
    let rendered = agent::render(&RenderContext::new(&cfg));
    let get = |key: &str| {
        rendered
            .agent
            .iter()
            .find(|(k, _)| k == key)
            .map(|(_, v)| v.render())
    };
    assert_eq!(get("interval").as_deref(), Some("\"10s\""));
    assert_eq!(get("flush_interval").as_deref(), Some("\"60s\""));
}

/// Telegraf has two verbosity knobs, not five, and they must never both be
/// set.
#[test]
fn the_log_level_maps_onto_debug_and_quiet() {
    for (level, want_debug, want_quiet) in [
        (LogLevel::Trace, true, false),
        (LogLevel::Debug, true, false),
        (LogLevel::Info, false, false),
        (LogLevel::Warn, false, true),
        (LogLevel::Error, false, true),
    ] {
        let cfg = config_with(|c| c.logging.level = level);
        let rendered = agent::render(&RenderContext::new(&cfg));
        let get = |key: &str| {
            rendered
                .agent
                .iter()
                .find(|(k, _)| k == key)
                .map(|(_, v)| v.render())
                .unwrap()
        };
        assert_eq!(get("debug"), want_debug.to_string(), "{level:?}");
        assert_eq!(get("quiet"), want_quiet.to_string(), "{level:?}");
    }
}

/// Order is part of the byte-for-byte guarantee, so it is pinned rather than
/// left to whichever order the builder happens to use.
#[test]
fn the_agent_options_render_in_a_fixed_order() {
    let cfg = config_with(|_| {});
    let rendered = agent::render(&RenderContext::new(&cfg));
    let keys: Vec<&str> = rendered.agent.iter().map(|(k, _)| k.as_str()).collect();
    assert_eq!(
        keys,
        vec![
            "interval",
            "round_interval",
            "metric_batch_size",
            "metric_buffer_limit",
            "collection_jitter",
            "flush_interval",
            "flush_jitter",
            "precision",
            "hostname",
            "omit_hostname",
            "debug",
            "quiet",
            "logfile",
            "skip_processors_after_aggregators",
        ]
    );
}

#[test]
fn ranks_are_unique_and_ordered() {
    let ranks = [
        RANK_CPU,
        RANK_MEM,
        RANK_SYSTEM,
        RANK_SWAP,
        RANK_PROCESSES,
        RANK_DISK,
        RANK_DISKIO,
        RANK_NET,
        RANK_DOCKER,
        RANK_UPDATES,
    ];
    let mut sorted = ranks.to_vec();
    sorted.sort_unstable();
    sorted.dedup();
    assert_eq!(sorted.len(), ranks.len(), "ranks must be unique");
    assert_eq!(sorted, ranks.to_vec(), "ranks must already be in order");
}

/// `load` and `system` must agree on the merge key, or they emit two
/// `[[inputs.system]]` blocks and every metric is collected twice.
#[test]
fn load_and_system_share_a_merge_key() {
    let cfg = config_with(|c| {
        c.modules.load.enabled = true;
        c.modules.system.enabled = true;
    });
    let ctx = RenderContext::new(&cfg);
    let load = Load.render(&ctx).remove(0);
    let system = System.render(&ctx).remove(0);
    assert_eq!(load.merge_key, system.merge_key);
    assert!(load.merge_key.is_some());
    assert_eq!(load.plugin, system.plugin);
}

/// No MVP module may require a Linux capability: the hardening baseline
/// drops them all, so a module that needed one would silently not work.
#[test]
fn no_module_requires_a_capability() {
    let cfg = config_with(|_| {});
    for module in all_modules() {
        assert!(
            module.requirements(&cfg).capabilities.is_empty(),
            "{} requires a capability, which the hardening baseline drops",
            module.id()
        );
    }
}

/// Found during the WP1 spike: /etc/os-release is a symlink into /usr/lib,
/// so a mount set with /etc but not /usr reports "not a Debian host".
#[test]
fn the_updates_module_requires_usr_for_the_os_release_symlink() {
    let cfg = config_with(|_| {});
    let req = Updates.requirements(&cfg);
    assert!(req.host_paths.contains(&"usr"), "got: {:?}", req.host_paths);
    assert!(req.debian_family_only);
}

fn find(instance: &PluginInstance, key: &str) -> Option<String> {
    instance
        .scalars()
        .iter()
        .find(|(k, _)| k == key)
        .map(|(_, v)| v.render())
}

#[test]
fn influxdb_url_renders_as_an_array() {
    let t = token_file("tok");
    let cfg = config_with(|c| enable_influx(c, &t));
    let out = outputs::render(&RenderContext::new(&cfg));
    let influx = out.iter().find(|i| i.plugin == "influxdb_v2").unwrap();
    assert_eq!(
        find(influx, "urls").as_deref(),
        Some("[\"https://influx.example:8086\"]"),
        "the plugin takes a list and rejects a bare string"
    );
}

/// The whole point of `render-config`: its output must be safe to paste into
/// an issue.
#[test]
fn redaction_replaces_the_token() {
    let t = token_file("super-secret-token");
    let cfg = config_with(|c| enable_influx(c, &t));

    let plain = outputs::render(&RenderContext::new(&cfg));
    let influx = plain.iter().find(|i| i.plugin == "influxdb_v2").unwrap();
    assert_eq!(
        find(influx, "token").as_deref(),
        Some("\"super-secret-token\"")
    );

    let redacted = outputs::render(&RenderContext::redacted(&cfg));
    let influx = redacted.iter().find(|i| i.plugin == "influxdb_v2").unwrap();
    assert_eq!(find(influx, "token").as_deref(), Some("\"***\""));
}

#[test]
fn unset_tls_options_are_omitted_rather_than_emitted_empty() {
    let t = token_file("tok");
    let cfg = config_with(|c| enable_influx(c, &t));
    let out = outputs::render(&RenderContext::new(&cfg));
    let influx = out.iter().find(|i| i.plugin == "influxdb_v2").unwrap();
    assert!(find(influx, "tls_ca").is_none());
    assert!(find(influx, "tls_cert").is_none());
    assert!(find(influx, "tls_key").is_none());
}

/// Always stated, even when false: an auditor should be able to confirm it
/// at a glance rather than look up a default.
#[test]
fn insecure_skip_verify_is_always_stated() {
    let t = token_file("tok");
    let cfg = config_with(|c| enable_influx(c, &t));
    let out = outputs::render(&RenderContext::new(&cfg));
    let influx = out.iter().find(|i| i.plugin == "influxdb_v2").unwrap();
    assert_eq!(
        find(influx, "insecure_skip_verify").as_deref(),
        Some("false")
    );
}

#[test]
fn prometheus_renders_its_listener_and_excludes_agent_collectors() {
    let cfg = config_with(|c| c.modules.cpu.enabled = true);
    let out = outputs::render(&RenderContext::new(&cfg));
    let prom = out
        .iter()
        .find(|i| i.plugin == "prometheus_client")
        .unwrap();
    assert_eq!(find(prom, "listen").as_deref(), Some("\"0.0.0.0:9273\""));
    assert_eq!(find(prom, "path").as_deref(), Some("\"/metrics\""));
    assert_eq!(
        find(prom, "collectors_exclude").as_deref(),
        Some("[\"gocollector\", \"process\"]"),
        "host metrics only — Telegraf's own health belongs on the health port"
    );
}

// ── The Prometheus credential and its TLS ───────────────────────────────
//
// The `basic_auth` branch shipped with **no rendering test at all**: the
// tests above cover urls, redaction, TLS omission, the listener and
// ordering, and none of them ever set it, while the shipped example leaves
// both keys null so it is absent from the reference config too. The first
// execution of that code was an operator's.

fn with_basic_auth(cfg: &mut Config, password: &str) {
    cfg.modules.cpu.enabled = true;
    let prom = cfg.outputs.prometheus.as_mut().unwrap();
    prom.basic_auth = Some(normalised::BasicAuth {
        username: "scraper".to_string(),
        password: Secret::from_value(password),
    });
}

fn prometheus_of(cfg: &Config) -> PluginInstance {
    outputs::render(&RenderContext::new(cfg))
        .into_iter()
        .find(|i| i.plugin == "prometheus_client")
        .expect("the prometheus output should render")
}

#[test]
fn basic_auth_renders_both_halves() {
    let p = token_file("scrape-password-value");
    let cfg = config_with(|c| with_basic_auth(c, &p));
    let prom = prometheus_of(&cfg);
    assert_eq!(
        find(&prom, "basic_username").as_deref(),
        Some("\"scraper\"")
    );
    assert_eq!(
        find(&prom, "basic_password").as_deref(),
        Some("\"scrape-password-value\"")
    );
}

/// The credential goes through the same redaction path as the InfluxDB
/// token, so `render-config` output stays safe to paste into an issue.
#[test]
fn the_basic_auth_password_is_redacted_like_every_other_secret() {
    let p = token_file("scrape-password-value");
    let cfg = config_with(|c| with_basic_auth(c, &p));
    let redacted = outputs::render(&RenderContext::redacted(&cfg))
        .into_iter()
        .find(|i| i.plugin == "prometheus_client")
        .unwrap();
    assert_eq!(
        find(&redacted, "basic_password").as_deref(),
        Some("\"***\"")
    );
}

#[test]
fn no_tls_keys_are_rendered_when_none_are_configured() {
    let cfg = config_with(|c| c.modules.cpu.enabled = true);
    let prom = prometheus_of(&cfg);
    for key in ["tls_cert", "tls_key", "tls_allowed_cacerts"] {
        assert_eq!(find(&prom, key), None, "{key} should be absent");
    }
}

/// The option names are Telegraf's, taken from the pinned release's
/// `sample.conf` rather than mirrored from the InfluxDB output — which is
/// a *client* and spells its CA option differently because it means
/// something else.
#[test]
fn server_tls_renders_telegrafs_own_option_names() {
    let cfg = config_with(|c| {
        c.modules.cpu.enabled = true;
        let prom = c.outputs.prometheus.as_mut().unwrap();
        prom.tls.cert_file = Some("/etc/ssl/muninn.crt".to_string());
        prom.tls.key_file = Some("/etc/ssl/muninn.key".to_string());
    });
    let prom = prometheus_of(&cfg);
    assert_eq!(
        find(&prom, "tls_cert").as_deref(),
        Some("\"/etc/ssl/muninn.crt\"")
    );
    assert_eq!(
        find(&prom, "tls_key").as_deref(),
        Some("\"/etc/ssl/muninn.key\"")
    );
    assert_eq!(
        find(&prom, "tls_allowed_cacerts"),
        None,
        "mutual TLS was not asked for"
    );
}

/// `tls_allowed_cacerts` is an array in the plugin, and a bare string is
/// rejected at `config check` — the same shape mistake `urls` guards
/// against on the InfluxDB side.
#[test]
fn a_client_ca_renders_as_an_array() {
    let cfg = config_with(|c| {
        c.modules.cpu.enabled = true;
        let prom = c.outputs.prometheus.as_mut().unwrap();
        prom.tls.cert_file = Some("/etc/ssl/muninn.crt".to_string());
        prom.tls.key_file = Some("/etc/ssl/muninn.key".to_string());
        prom.tls.client_ca_file = Some("/etc/ssl/clientca.pem".to_string());
    });
    assert_eq!(
        find(&prometheus_of(&cfg), "tls_allowed_cacerts").as_deref(),
        Some("[\"/etc/ssl/clientca.pem\"]")
    );
}

#[test]
fn a_disabled_output_produces_no_instance() {
    let cfg = config_with(|c| {
        c.modules.cpu.enabled = true;
        c.outputs.prometheus = None;
    });
    assert!(outputs::render(&RenderContext::new(&cfg)).is_empty());
}

#[test]
fn both_outputs_render_together_in_a_fixed_order() {
    let t = token_file("tok");
    let cfg = config_with(|c| enable_influx(c, &t));
    let rendered = outputs::render(&RenderContext::new(&cfg));
    let names: Vec<&str> = rendered.iter().map(|i| i.plugin.as_str()).collect();
    assert_eq!(names, vec!["influxdb_v2", "prometheus_client"]);
}

fn rendered_image_updates(config: &Config) -> PluginInstance {
    ImageUpdates.render(&RenderContext::new(config)).remove(0)
}

fn scalar(instance: &PluginInstance, key: &str) -> String {
    format!("{:?}", instance.scalars().iter().find(|(k, _)| k == key))
}

#[test]
fn mod_the_command_is_the_binary_the_image_installs() {
    let cfg = config_with(|c| c.modules.image_updates.enabled = true);
    let out = scalar(&rendered_image_updates(&cfg), "commands");
    assert!(
        out.contains("/usr/local/bin/muninn") && out.contains("image-check"),
        "the rendered command must match the Dockerfile's install path: {out}"
    );
}

#[test]
fn the_endpoint_and_both_timeouts_reach_the_helper() {
    let cfg = config_with(|c| {
        c.modules.image_updates.enabled = true;
        c.modules.image_updates.endpoint = "tcp://docker-socket-proxy:2375".to_string();
        c.modules.image_updates.timeout = ConfigDuration::from_secs(9);
        c.modules.image_updates.registry_timeout = ConfigDuration::from_secs(45);
    });
    let out = scalar(&rendered_image_updates(&cfg), "commands");
    assert!(out.contains("--endpoint") && out.contains("tcp://docker-socket-proxy:2375"));
    assert!(out.contains("--timeout-secs") && out.contains("\"9\""));
    assert!(out.contains("--registry-timeout-secs") && out.contains("\"45\""));
}

/// The property the whole budget mechanism rests on: Telegraf's patience
/// always outlasts the check's own, so the check reports what it found
/// rather than being killed holding it.
#[test]
fn telegraf_always_waits_longer_than_the_check_budgets_for_itself() {
    for interval_secs in [60, 300, 900, 3600, 86_400] {
        let interval = ConfigDuration::from_secs(interval_secs);
        assert!(
            exec_timeout(interval) > budget(interval),
            "interval {interval_secs}s: exec timeout {:?} must exceed budget {:?}",
            exec_timeout(interval),
            budget(interval)
        );
    }
}

/// Half the interval, so a run cannot overlap the next one, and never more
/// than the cap however long the interval is.
#[test]
fn the_budget_is_half_the_interval_up_to_the_cap() {
    assert_eq!(budget(ConfigDuration::from_secs(60)), ConfigDuration::from_secs(30));
    assert_eq!(budget(ConfigDuration::from_secs(600)), ConfigDuration::from_secs(300));
    assert_eq!(budget(ConfigDuration::from_secs(3600)), ConfigDuration::from_secs(MAX_BUDGET_SECS));
    assert_eq!(budget(ConfigDuration::from_secs(86_400)), ConfigDuration::from_secs(MAX_BUDGET_SECS));
}

#[test]
fn the_rendered_budget_and_exec_timeout_agree_with_the_helpers() {
    let cfg = config_with(|c| {
        c.modules.image_updates.enabled = true;
        c.modules.image_updates.interval = ConfigDuration::from_secs(600);
    });
    let instance = rendered_image_updates(&cfg);
    assert!(
        scalar(&instance, "commands").contains("\"300\""),
        "--budget-secs should be half of a 600s interval: {}",
        scalar(&instance, "commands")
    );
    assert!(
        scalar(&instance, "timeout").contains("315s"),
        "{}",
        scalar(&instance, "timeout")
    );
}

#[test]
fn include_and_exclude_patterns_each_render_as_their_own_flag() {
    let cfg = config_with(|c| {
        c.modules.image_updates.enabled = true;
        c.modules.image_updates.container_include = vec!["app-*".to_string()];
        c.modules.image_updates.container_exclude =
            vec!["build-*".to_string(), "ci-*".to_string()];
    });
    let out = scalar(&rendered_image_updates(&cfg), "commands");
    assert!(out.contains("--include") && out.contains("app-*"));
    assert!(out.contains("--exclude") && out.contains("build-*") && out.contains("ci-*"));
}

/// A unix endpoint needs the socket file *and* a live daemon behind it; a
/// TCP endpoint (the recommended proxy deployment) needs only the service.
/// Exactly the docker module's rule — ADR-0010.
#[test]
fn requirements_follow_the_configured_endpoint_scheme() {
    let unix_cfg = config_with(|c| {
        c.modules.image_updates.enabled = true;
        c.modules.image_updates.endpoint = "unix:///var/run/docker.sock".to_string();
    });
    let req = ImageUpdates.requirements(&unix_cfg);
    assert_eq!(req.absolute_paths, vec!["/var/run/docker.sock".to_string()]);
    assert_eq!(req.endpoints.len(), 1);

    let tcp_cfg = config_with(|c| {
        c.modules.image_updates.enabled = true;
        c.modules.image_updates.endpoint = "tcp://docker-socket-proxy:2375".to_string();
    });
    let req = ImageUpdates.requirements(&tcp_cfg);
    assert!(req.absolute_paths.is_empty());
    assert_eq!(req.endpoints.len(), 1);
}

fn rendered_updates(config: &Config) -> PluginInstance {
    Updates.render(&RenderContext::new(config)).remove(0)
}

#[test]
fn the_command_is_the_binary_the_image_installs() {
    let cfg = config_with(|c| c.modules.updates.enabled = true);
    let out = scalar(&rendered_updates(&cfg), "commands");
    assert!(
        out.contains("/usr/local/bin/muninn") && out.contains("update-check"),
        "the rendered command must match the Dockerfile's install path: {out}"
    );
}

/// Telegraf 1.39 deprecated giving `commands` one space-separated string and
/// removes that form in 1.45, so each command renders as its own argv array.
/// A deprecation warning in the log is noise an operator cannot act on,
/// because muninn wrote the configuration rather than them.
///
/// The singular `command` key is not the fix — the plugin binds it to a
/// string, and an array there is rejected at `config check`.
#[test]
fn the_command_renders_as_argv_not_as_a_string() {
    let cfg = config_with(|c| c.modules.updates.enabled = true);
    let instance = rendered_updates(&cfg);
    assert!(
        !instance.scalars().iter().any(|(k, _)| k == "command"),
        "the singular key takes a string; an array there fails config check"
    );
    let out = scalar(&instance, "commands");
    assert!(
        !out.contains("muninn update-check"),
        "the binary and the subcommand must be separate elements: {out}"
    );
    assert!(
        matches!(
            instance.scalars().iter().find(|(k, _)| k == "commands").map(|(_, v)| v),
            Some(TomlValue::Array(items))
                if matches!(items.first(), Some(TomlValue::Array(_)))
        ),
        "commands must be an array of argv arrays: {out}"
    );
}

#[test]
fn switching_off_the_security_metric_reaches_the_helper() {
    let cfg = config_with(|c| {
        c.modules.updates.enabled = true;
        c.modules.updates.security_only_metric = false;
    });
    assert!(scalar(&rendered_updates(&cfg), "commands").contains("--no-security-metric"));

    let cfg = config_with(|c| c.modules.updates.enabled = true);
    assert!(!scalar(&rendered_updates(&cfg), "commands").contains("--no-security-metric"));
}

/// The helper reads the host through the same prefix every other module
/// does. If these two disagreed, the updates count would describe a
/// different machine than the CPU graph next to it.
#[test]
fn the_helper_is_told_the_same_host_prefix_the_agent_uses() {
    let cfg = config_with(|c| {
        c.modules.updates.enabled = true;
        c.runtime.host_mount_prefix = Some("/hostfs".to_string());
    });
    assert!(scalar(&rendered_updates(&cfg), "environment").contains("HOSTFS=/hostfs"));

    let cfg = config_with(|c| {
        c.modules.updates.enabled = true;
        c.runtime.host_mount_prefix = None;
    });
    assert!(scalar(&rendered_updates(&cfg), "environment").contains("HOSTFS=/"));
}

/// apt writes its cache even when simulating. On a read-only root filesystem
/// the only writable place is the runtime directory, so that is where the
/// helper is sent.
#[test]
fn the_helper_is_pointed_at_the_writable_runtime_directory() {
    let cfg = config_with(|c| {
        c.modules.updates.enabled = true;
        c.runtime.generated_config_path = "/run/muninn/telegraf.conf".to_string();
    });
    assert!(scalar(&rendered_updates(&cfg), "environment").contains("TMPDIR=/run/muninn"));
}

// ---------------------------------------------------------------------------
// A whole configuration
// ---------------------------------------------------------------------------

/// Every host module and both outputs on; the modules that reach beyond the host
/// left off.
fn example_config() -> Config {
    let mut cfg = config_with(|c| {
        c.modules.cpu.enabled = true;
        c.modules.memory.enabled = true;
        c.modules.load.enabled = true;
        c.modules.system.enabled = true;
        c.modules.swap.enabled = true;
        c.modules.processes.enabled = true;
        c.modules.disks.enabled = true;
        c.modules.disk_io.enabled = true;
        c.modules.network.enabled = true;
    });
    enable_influx(&mut cfg, "example-token");
    cfg
}

#[test]
fn the_reference_is_redacted_but_the_runtime_rendering_is_not() {
    let cfg = example_config();

    let redacted = render_toml(&build(&RenderContext::redacted(&cfg)), "0.1.0");
    assert!(redacted.contains("token = \"***\""));
    assert!(!redacted.contains("example-token"));

    let real = render_of(&cfg);
    assert!(
        real.contains("token = \"example-token\""),
        "Telegraf could not authenticate with a redacted token"
    );
}

/// Every module that is on must appear in the output.
#[test]
fn every_enabled_module_reaches_the_output() {
    let cfg = example_config();
    let rendered = render_toml(&build(&RenderContext::redacted(&cfg)), "0.1.0");

    let expected_plugins = [
        ("cpu", "[[inputs.cpu]]"),
        ("memory", "[[inputs.mem]]"),
        ("load", "[[inputs.system]]"),
        ("system", "[[inputs.system]]"),
        ("swap", "[[inputs.swap]]"),
        ("processes", "[[inputs.processes]]"),
        ("disks", "[[inputs.disk]]"),
        ("disk_io", "[[inputs.diskio]]"),
        ("network", "[[inputs.net]]"),
    ];
    for (module, header) in expected_plugins {
        assert!(
            cfg.modules.enabled_names().iter().any(|n| *n == module),
            "the example should enable {module}"
        );
        assert!(
            rendered.contains(header),
            "{module} is enabled but {header} is missing from the output"
        );
    }

    // ...and the two that are left off.
    assert!(!rendered.contains("[[inputs.docker]]"), "docker is off by default");
    assert!(!rendered.contains("[[inputs.exec]]"), "updates is off by default");
}

/// The generated file is what an operator reads while debugging, so every block
/// should say which module put it there.
#[test]
fn every_block_carries_its_provenance() {
    let cfg = example_config();
    let rendered = render_toml(&build(&RenderContext::redacted(&cfg)), "0.1.0");

    let mut previous = "";
    for line in rendered.lines() {
        if line.starts_with("[[") {
            assert!(
                previous.starts_with("# module") || previous.starts_with("# output"),
                "{line} has no provenance comment above it (found {previous:?})"
            );
        }
        previous = line;
    }
}
