//! Concrete instances of what the library guarantees, its edge cases, and every
//! way it can fail.

use muninn::config::host::{AddressFacts, FileFacts, Host, ListenAddress};
use muninn::config::loader::{from_document, from_str, load, parse_str, references};
use muninn::config::model::{ConfigV1, LogFormat, LogLevel};
use muninn::config::validation::{addresses_collide, validate};
use muninn::config::{load_and_resolve, Config, Overrides};
use muninn::duration::ConfigDuration;
use muninn::error::MuninnError;
use muninn::exit;
use muninn::health::metrics::{escape, render_at};
use muninn::health::serve::{next, Action, Event, Waiting};
use muninn::health::server::{live, ready, status, status_at};
use muninn::health::state::{HealthState, State};
use muninn::modules::{build, RenderContext};
use muninn::secret::{FileRead, Redactor, Secret};
use muninn::telegraf::model::{PluginInstance, TelegrafConfig, TomlTable, TomlValue};
use muninn::telegraf::process::{
    arguments, forward, shutdown, spawn_error, Exit, Loudness, Stage, Step, Waited,
};
use muninn::telegraf::render;
use muninn::telegraf::validator::{check_config, indent};
use muninn::telegraf::version::{check, query, Run, EXPECTED_VERSION};
use muninn::text;
use muninn::yaml::Yaml;

fn address(text: &str, ip: u128, port: u16) -> AddressFacts {
    AddressFacts {
        written: text.to_string(),
        parsed: Some(listen(text, ip, port)),
    }
}

fn listen(text: &str, ip: u128, port: u16) -> ListenAddress {
    ListenAddress {
        v6: false,
        ip,
        port,
        text: text.to_string(),
    }
}

fn file(path: &str, content: &str) -> FileFacts {
    FileFacts {
        path: path.to_string(),
        read: FileRead::Text(content.to_string()),
        present: true,
    }
}

fn host() -> Host {
    Host {
        files: vec![
            file("/run/secrets/token", "token-of-the-agent\n"),
            file("/run/secrets/password", "password-of-the-scraper\n"),
            file("/etc/ssl/ca.pem", "ca"),
            file("/etc/ssl/agent.crt", "crt"),
            file("/etc/ssl/agent.key", "key"),
        ],
        addresses: vec![
            address("0.0.0.0:8080", 0, 8080),
            address("0.0.0.0:9273", 0, 9273),
        ],
    }
}

const MINIMAL: &str = "version: 1\nmodules:\n  cpu:\n    enabled: true\noutputs:\n  prometheus:\n    enabled: true\n";

const INFLUX: &str = "outputs:\n  influxdb:\n    enabled: true\n    url: https://influx.example\n    organization: infra\n    bucket: servers\n    token_file: /run/secrets/token\n";

fn loaded(yaml: &str) -> Result<(ConfigV1, Vec<String>), MuninnError> {
    from_str(yaml, &Overrides::default(), &host())
}

fn refused(yaml: &str) -> String {
    match loaded(yaml) {
        Ok(_) => panic!("expected a refusal of\n{yaml}"),
        Err(e) => e.message(),
    }
}

fn with_modules(modules: &str) -> String {
    format!("version: 1\nmodules:\n{modules}outputs:\n  prometheus:\n    enabled: true\n")
}

// ── The document ────────────────────────────────────────────────────────────

#[test]
fn an_empty_document_lacks_its_version() {
    for text in ["", "# nothing but a comment\n", "version:\n"] {
        assert!(refused(text).contains("missing required key `version`"), "{text:?}");
    }
}

#[test]
fn a_document_that_is_no_mapping_is_refused() {
    assert_eq!(
        refused("- version: 1\n"),
        "configuration error: invalid YAML: invalid type: sequence, expected a mapping"
    );
}

#[test]
fn a_version_that_is_no_number_is_shown() {
    assert_eq!(
        refused("version: \"one\"\n"),
        "configuration error: invalid YAML: version: invalid type: string \"one\", expected u32"
    );
}

#[test]
fn a_version_beyond_the_known_one_is_named_twice() {
    assert_eq!(
        refused("version: 7\n"),
        "configuration error: unsupported schema version 7; this build of muninn understands \
         version 1. Either use a muninn that supports version 7, or migrate the file — see \
         docs/configuration.md"
    );
}

#[test]
fn an_unknown_key_is_shown_with_the_known_ones() {
    assert_eq!(
        refused("version: 1\nlogging:\n  colour: true\n"),
        "configuration error: invalid configuration: logging: unknown field `colour`, expected \
         one of `format`, `level`"
    );
}

/// The key may stand in a list of sections, three levels below the root.
#[test]
fn an_unknown_key_in_a_list_of_sections_is_refused() {
    let msg = refused(&with_modules(
        "  image_updates:\n    registry_auth:\n      - registry: a.example\n        username: u\n        password_file: /p\n        colour: red\n",
    ));
    assert!(
        msg.contains("modules.image_updates.registry_auth[0]: unknown field `colour`"),
        "{msg}"
    );
}

#[test]
fn a_credential_without_its_file_is_refused() {
    let msg = refused(&with_modules(
        "  image_updates:\n    registry_auth:\n      - registry: a.example\n        username: u\n",
    ));
    assert!(msg.contains("missing field `password_file`"), "{msg}");
}

#[test]
fn values_of_the_wrong_kind_are_refused_by_path() {
    let cases = [
        ("  cpu:\n    enabled: maybe\n", "modules.cpu.enabled: invalid type: string \"maybe\", expected a boolean"),
        ("  cpu: 7\n", "modules.cpu: invalid type: number `7`, expected a mapping"),
        ("  disks:\n    exclude_filesystems: tmpfs\n", "modules.disks.exclude_filesystems: invalid type: string \"tmpfs\", expected a sequence"),
        ("  disks:\n    exclude_filesystems: [[]]\n", "modules.disks.exclude_filesystems[0]: invalid type: sequence, expected a string"),
        ("  docker:\n    endpoint: {}\n", "modules.docker.endpoint: invalid type: map, expected a string"),
        ("  docker:\n    timeout: soon\n", "modules.docker.timeout: invalid value: string \"soon\", expected a duration"),
        ("  image_updates:\n    registry_auth: 1\n", "modules.image_updates.registry_auth: invalid type: number `1`, expected a sequence"),
    ];
    for (block, wanted) in cases {
        let msg = refused(&with_modules(block));
        assert!(msg.contains(wanted), "{wanted}\n{msg}");
    }
    assert!(refused("version: 1\nlogging:\n  level: loud\n").contains("unknown variant `loud`"));
    assert!(refused("version: 1\nlogging:\n  format: xml\n").contains("unknown variant `xml`"));
}

/// A blank value reads as an omitted one, for a section, a list and an optional
/// path alike.
#[test]
fn blank_values_read_as_omitted_ones() {
    let (cfg, _) = loaded(
        "version: 1\nagent:\nmodules:\n  cpu:\n    enabled: true\n  disks:\n    exclude_filesystems:\noutputs:\n  prometheus:\n    enabled: true\n    basic_auth:\n      username:\n",
    )
    .unwrap();
    assert_eq!(cfg.agent.interval, ConfigDuration::from_secs(30));
    assert!(cfg.modules.disks.exclude_filesystems.is_empty());
    assert!(cfg.outputs.prometheus.basic_auth.username.is_none());
}

/// A plain scalar that YAML reads as a number or a boolean is still a word where a
/// word is asked for.
#[test]
fn plain_scalars_serve_as_words() {
    let (cfg, _) = loaded(&MINIMAL.replace(
        "modules:",
        "agent:\n  hostname: 42\nmodules:",
    ))
    .unwrap();
    assert_eq!(cfg.agent.hostname, "42");
}

#[test]
fn a_parsed_document_loads_like_its_text() {
    let entry = |k: &str, v: Yaml| (Yaml::Text(k.to_string()), v);
    let on = || Yaml::Table(vec![(Yaml::Text("enabled".to_string()), Yaml::Bool(true))]);
    let doc = Ok(Some(Yaml::Table(vec![
        entry("version", Yaml::Number("1".to_string())),
        entry("modules", Yaml::Table(vec![entry("swap", on())])),
        entry("outputs", Yaml::Table(vec![entry("prometheus", on())])),
    ])));
    let (cfg, warnings) = from_document(&doc, &Overrides::default(), &host()).unwrap();
    assert_eq!(cfg.modules.enabled_names(), vec!["swap"]);
    assert!(warnings.is_empty());

    let twice = Ok(Some(Yaml::Table(vec![
        entry("version", Yaml::Number("1".to_string())),
        entry("agent", Yaml::Null),
        entry("agent", Yaml::Null),
    ])));
    let e = from_document(&twice, &Overrides::default(), &host()).unwrap_err();
    assert!(e.message().contains("duplicate field `agent`"), "{}", e.message());

    let broken = Err("did not find expected node content".to_string());
    let e = from_document(&broken, &Overrides::default(), &host()).unwrap_err();
    assert_eq!(
        e.message(),
        "configuration error: invalid YAML: did not find expected node content"
    );
}

#[test]
fn a_file_that_cannot_be_read_is_named() {
    let o = Overrides::default();
    let message = |read: &FileRead| load("/etc/muninn.yaml", read, &o, &host()).unwrap_err().message();
    assert_eq!(
        message(&FileRead::NotFound),
        "configuration error: cannot read '/etc/muninn.yaml': file does not exist"
    );
    assert!(message(&FileRead::PermissionDenied).ends_with("file is not readable"));
    assert!(message(&FileRead::Failed("is a directory".to_string())).ends_with("is a directory"));
    assert!(load("/x", &FileRead::Text(MINIMAL.to_string()), &o, &host()).is_ok());
}

/// What validation asks about is what a caller is told to gather.
#[test]
fn a_configuration_names_the_files_and_addresses_it_refers_to() {
    let yaml = format!(
        "version: 1\n{INFLUX}    tls:\n      ca_file: /etc/ssl/ca.pem\n  prometheus:\n    basic_auth:\n      username: scraper\n      password_file: /run/secrets/password\n"
    );
    let mut cfg = parse_str(&yaml).unwrap();
    cfg.outputs.prometheus.enabled = true;
    let refs = references(&cfg);
    assert_eq!(
        refs.files,
        vec!["/run/secrets/token", "/etc/ssl/ca.pem", "/run/secrets/password"]
    );
    assert_eq!(refs.addresses, vec!["0.0.0.0:8080", "0.0.0.0:9273"]);

    cfg.outputs.prometheus.enabled = false;
    assert_eq!(references(&cfg).files, vec!["/run/secrets/token", "/etc/ssl/ca.pem"]);
    cfg.outputs.influxdb.enabled = false;
    assert!(references(&cfg).files.is_empty());
}

#[test]
fn precedence_is_command_line_then_environment_then_file() {
    let yaml = MINIMAL.replace("modules:", "logging:\n  level: error\n  format: json\nmodules:");
    let env = || Overrides {
        log_level: Some("warn".to_string()),
        log_format: None,
    };
    let level = |o: &Overrides| from_str(&yaml, o, &host()).unwrap().0.logging.level;
    assert_eq!(level(&Overrides::default()), LogLevel::Error);
    assert_eq!(level(&env()), LogLevel::Warn);
    assert_eq!(level(&env().merge_cli(Some("Trace".to_string()), None)), LogLevel::Trace);
    let (cfg, _) = from_str(&yaml, &env(), &host()).unwrap();
    assert_eq!(cfg.logging.format, LogFormat::Json);
}

#[test]
fn an_unusable_override_warns_with_what_is_kept() {
    let o = Overrides {
        log_level: Some("loud".to_string()),
        log_format: Some("xml".to_string()),
    };
    let (_, warnings) = from_str(MINIMAL, &o, &host()).unwrap();
    assert_eq!(
        warnings,
        vec![
            "log level 'loud' is not one of trace/debug/info/warn/error — keeping logging.level=info",
            "log format 'xml' is not one of human/json — keeping logging.format=Human",
        ]
    );
}

// ── The rules ───────────────────────────────────────────────────────────────

#[test]
fn a_flush_longer_than_the_interval_warns_with_both() {
    let (_, warnings) = loaded(&MINIMAL.replace(
        "modules:",
        "agent:\n  interval: 10s\n  flush_interval: 90s\nmodules:",
    ))
    .unwrap();
    assert_eq!(
        warnings,
        vec![
            "agent.flush_interval (1m 30s) is longer than agent.interval (10s) — metrics will be \
             delayed by up to one flush period"
        ]
    );
}

#[test]
fn an_omitted_hostname_that_is_set_warns() {
    let (_, warnings) = loaded(&MINIMAL.replace(
        "modules:",
        "agent:\n  hostname: web-1\n  omit_hostname: true\nmodules:",
    ))
    .unwrap();
    assert_eq!(
        warnings,
        vec!["agent.omit_hostname is true, so agent.hostname ('web-1') has no effect"]
    );
}

#[test]
fn a_grace_period_shorter_than_one_write_warns() {
    let yaml = format!("version: 1\nruntime:\n  shutdown_grace_period: 5s\nmodules:\n  cpu:\n    enabled: true\n{INFLUX}");
    let (_, warnings) = loaded(&yaml).unwrap();
    assert!(
        warnings[0].starts_with("runtime.shutdown_grace_period (5s) does not exceed"),
        "{warnings:?}"
    );
}

#[test]
fn an_expiration_shorter_than_the_interval_warns() {
    let (_, warnings) = loaded(&format!("{MINIMAL}    expiration_interval: 10s\n")).unwrap();
    assert!(
        warnings[0].contains("expiration_interval (10s) is shorter than agent.interval (30s)"),
        "{warnings:?}"
    );
}

#[test]
fn tls_files_must_exist_and_come_in_pairs() {
    let with_tls = |tls: &str| {
        format!("version: 1\nmodules:\n  cpu:\n    enabled: true\n{INFLUX}    tls:\n{tls}")
    };
    let key_alone = refused(&with_tls("      key_file: /etc/ssl/agent.key\n"));
    assert!(key_alone.contains("outputs.influxdb.tls.key_file is set but cert_file is not"));
    let empty = refused(&with_tls("      ca_file: \"\"\n"));
    assert!(empty.contains("outputs.influxdb.tls.ca_file must not be empty"));
    let missing = loaded(&with_tls("      ca_file: /etc/ssl/other.pem\n")).unwrap_err();
    assert_eq!(
        missing.message(),
        "runtime requirement: outputs.influxdb.tls.ca_file '/etc/ssl/other.pem' does not exist"
    );
    assert_eq!(missing.exit_code(), exit::RUNTIME);
    let pair = with_tls("      cert_file: /etc/ssl/agent.crt\n      key_file: /etc/ssl/agent.key\n");
    assert!(loaded(&pair).is_ok());
}

#[test]
fn an_empty_username_is_refused() {
    let msg = refused(&format!(
        "{MINIMAL}    basic_auth:\n      username: \"\"\n      password_file: /run/secrets/password\n"
    ));
    assert!(msg.contains("basic_auth.username must not be empty"), "{msg}");
}

#[test]
fn addresses_of_two_families_do_not_collide_unless_one_is_a_wildcard() {
    let v6 = |ip: u128| ListenAddress {
        v6: true,
        ip,
        port: 8080,
        text: String::new(),
    };
    let v4 = listen("0.0.0.1:8080", 1, 8080);
    assert!(!addresses_collide(&v4, &v6(1)));
    assert!(addresses_collide(&v4, &v6(0)));
    assert!(addresses_collide(&v6(0), &v4));
    assert!(addresses_collide(&v6(5), &v6(5)));
    assert!(!addresses_collide(&listen("", 0, 0), &listen("", 0, 0)));
}

#[test]
fn validation_returns_every_warning_in_order() {
    let yaml = "version: 1\nruntime:\n  generated_config_path: /var/lib/t.conf\n  host_mount_prefix: \"\"\nmodules:\n  disks:\n    enabled: true\n    include_mountpoints: [/]\n    exclude_mountpoints: [/snap]\n  docker:\n    enabled: true\noutputs:\n  prometheus:\n    enabled: true\n";
    let cfg = parse_str(yaml).unwrap();
    let warnings = validate(&cfg, &host()).unwrap();
    let starts: Vec<&str> = warnings.iter().map(|w| w.split(' ').next().unwrap()).collect();
    assert_eq!(
        starts,
        vec!["runtime.generated_config_path", "runtime.host_mount_prefix", "modules.disks", "the"]
    );
}

// ── Resolution ──────────────────────────────────────────────────────────────

fn resolved(yaml: &str) -> Config {
    match load_and_resolve(yaml, &Overrides::default(), &host()) {
        Ok((config, _)) => config,
        Err(e) => panic!("{}", e.message()),
    }
}

const BOTH: &str = "version: 1\nmodules:\n  cpu:\n    enabled: true\noutputs:\n  influxdb:\n    enabled: true\n    url: https://influx.example\n    organization: infra\n    bucket: servers\n    token_file: /run/secrets/token\n  prometheus:\n    enabled: true\n    basic_auth:\n      username: scraper\n      password_file: /run/secrets/password\n";

#[test]
fn the_whole_pipeline_resolves_secrets_and_addresses() {
    let config = resolved(BOTH);
    assert_eq!(
        config.outputs.influxdb.as_ref().unwrap().token.expose(),
        "token-of-the-agent"
    );
    let prometheus = config.outputs.prometheus.as_ref().unwrap();
    assert_eq!(
        prometheus.basic_auth.as_ref().unwrap().password.expose(),
        "password-of-the-scraper"
    );
    assert_eq!(prometheus.listen.port(), 9273);
}

#[test]
fn skipping_validation_gives_an_error_not_a_panic() {
    let cfg = parse_str(&MINIMAL.replace("modules:", "health:\n  listen: nowhere\nmodules:")).unwrap();
    let e = match Config::from_v1(cfg, &host()) {
        Ok(_) => panic!("expected an error"),
        Err(e) => e,
    };
    assert_eq!(
        e.message(),
        "internal error: health.listen 'nowhere' reached normalisation unparsed — validation \
         should have rejected it"
    );
    assert_eq!(e.exit_code(), exit::INTERNAL);
}

#[test]
fn a_configuration_redacts_its_own_secrets() {
    let redactor = resolved(BOTH).redactor();
    assert_eq!(
        redactor.apply("token-of-the-agent and password-of-the-scraper"),
        "*** and ***"
    );
}

/// Two configurations that differ in nothing but their secrets render alike when
/// redacted, and differ when not.
#[test]
fn a_redacted_rendering_does_not_depend_on_the_secrets() {
    let a = resolved(BOTH);
    let mut b = resolved(BOTH);
    b.outputs.influxdb.as_mut().unwrap().token = Secret::from_value("another");
    b.outputs.prometheus.as_mut().unwrap().basic_auth.as_mut().unwrap().password =
        Secret::from_value("one more");
    let text = |c: &Config| render(&build(&RenderContext::redacted(c)), "0.1.0");
    assert_eq!(text(&a), text(&b));
    assert_ne!(
        render(&build(&RenderContext::new(&a)), "0.1.0"),
        render(&build(&RenderContext::new(&b)), "0.1.0")
    );
}

#[test]
fn a_prefix_of_nothing_but_blanks_is_no_prefix() {
    for (raw, wanted) in [
        ("\"  \"", None),
        ("\" / \"", None),
        ("/host///", Some("/host")),
        ("\" /host \"", Some("/host")),
    ] {
        let cfg = parse_str(&MINIMAL.replace(
            "modules:",
            &format!("runtime:\n  host_mount_prefix: {raw}\nmodules:"),
        ))
        .unwrap();
        let runtime = muninn::config::normalised::Runtime::from_config(cfg.runtime);
        assert_eq!(runtime.host_mount_prefix.as_deref(), wanted, "{raw}");
        assert_eq!(runtime.host_env().is_empty(), wanted.is_none());
    }
}

// ── Secrets ─────────────────────────────────────────────────────────────────

#[test]
fn every_unreadable_secret_has_its_message() {
    let message = |read: FileRead| match Secret::from_file("/s", &read) {
        Ok(_) => panic!("expected an error"),
        Err(e) => e.message(),
    };
    assert_eq!(message(FileRead::NotFound), "secret file '/s': file does not exist");
    assert_eq!(message(FileRead::PermissionDenied), "secret file '/s': file is not readable");
    assert_eq!(message(FileRead::Failed("stale".into())), "secret file '/s': stale");
    assert_eq!(message(FileRead::Text(" \u{2003}\n".into())), "secret file '/s': file is empty");
}

/// Unicode's whitespace is whitespace too, and what is inside stays.
#[test]
fn surrounding_whitespace_of_any_script_is_stripped() {
    let read = FileRead::Text("\u{a0}\u{2003}a b\u{3000}\n".to_string());
    assert_eq!(Secret::from_file("/s", &read).unwrap().expose(), "a b");
    assert!(Secret::from_value("a b") == Secret::from_value("a b"));
    assert!(Secret::from_value("a b") != Secret::from_value("ab"));
}

#[test]
fn the_redactor_goes_from_the_longest_value_to_the_shortest() {
    let r = Redactor::new(
        ["abcdefgh", "abcdefghij", "short", "abcdefgh", "abcdefghi"]
            .iter()
            .map(|s| s.to_string())
            .collect(),
    );
    assert_eq!(r.debug(), "Redactor(3 values)");
    assert_eq!(r.apply("abcdefghij abcdefghi abcdefgh abcdefg"), "*** *** *** abcdefg");
}

#[test]
fn a_redactor_can_be_extended() {
    let r = Redactor::new(vec!["first-secret".to_string()])
        .extended_with(vec!["second-secret".to_string(), "tiny".to_string()]);
    assert_eq!(r.apply("first-secret second-secret tiny"), "*** *** tiny");
    assert!(Redactor::empty().extended_with(vec!["tiny".to_string()]).is_empty());
}

/// The one way a value can come back: it is made of what the mask leaves behind.
#[test]
fn a_value_that_holds_the_mask_can_come_about_anew() {
    let r = Redactor::new(vec!["12345678".to_string(), "xx***yyzz".to_string()]);
    assert_eq!(r.apply("xx12345678yyzz"), "xx***yyzz");
}

/// Length counts in bytes: four characters of two bytes each are long enough.
#[test]
fn the_minimum_length_counts_bytes() {
    assert!(!Redactor::new(vec!["üüüü".to_string()]).is_empty());
    assert!(Redactor::new(vec!["uuuu".to_string()]).is_empty());
}

// ── Durations ───────────────────────────────────────────────────────────────

#[test]
fn durations_render_as_one_number_and_one_unit() {
    let rendered = |secs, nanos| ConfigDuration::new(secs, nanos).as_telegraf();
    assert_eq!(rendered(0, 0), "0s");
    assert_eq!(rendered(0, 999_999), "0s");
    assert_eq!(rendered(0, 1_000_000), "1ms");
    assert_eq!(rendered(61, 500_000_000), "61500ms");
    assert_eq!(rendered(u64::MAX, 0), "18446744073709551615s");
    assert_eq!(ConfigDuration::new(1, 1).as_millis(), 1000);
    assert!(ConfigDuration::new(1, 0).shorter_than(&ConfigDuration::new(1, 1)));
    assert!(!ConfigDuration::new(2, 0).shorter_than(&ConfigDuration::new(1, 1)));
    assert_eq!(ConfigDuration::parse("1h 30m"), Some(ConfigDuration::from_secs(5400)));
    assert_eq!(ConfigDuration::from_secs(5400).display(), "1h 30m");
}

// ── Health ──────────────────────────────────────────────────────────────────

#[test]
fn the_probes_answer_by_state() {
    for s in State::all() {
        let l = live(s);
        assert_eq!(l.code, if s.is_live() { 200 } else { 503 });
        assert_eq!(l.status, if s.is_live() { "ok" } else { "down" });
        assert_eq!(l.state, s.as_str());
        let mut h = HealthState::new();
        h.set(s);
        h.update().telegraf_pid = Some(4242);
        h.update().last_telegraf_exit = Some("exit code 137".to_string());
        let r = ready(&h);
        assert_eq!(r.code, if s.is_ready() { 200 } else { 503 });
        assert_eq!(r.status, if s.is_ready() { "ready" } else { "not_ready" });
        assert!(r.telegraf.running);
        assert_eq!(r.telegraf.pid, Some(4242));
        assert_eq!(r.telegraf.last_exit.as_deref(), Some("exit code 137"));
        assert!(!s.is_ready() || s.is_live());
    }
}

#[test]
fn the_status_reports_what_is_enabled_and_checked() {
    let mut h = HealthState::default();
    h.set(State::Ready);
    h.update().modules = vec!["cpu".to_string()];
    h.update().outputs = vec!["prometheus".to_string()];
    h.update().telegraf_version = Some("1.39.2".to_string());
    h.record_module_check_at("updates", true, 10);
    h.record_module_check_at("docker", false, 11);
    h.record_module_check_at("updates", false, 12);
    let s = status_at(&h, 90, "0.1.0");
    assert_eq!((s.uptime_seconds, s.ready, s.state), (90, true, "ready"));
    assert_eq!(s.muninn_version, "0.1.0");
    assert_eq!(s.telegraf_version.as_deref(), Some("1.39.2"));
    assert_eq!((s.modules, s.outputs), (vec!["cpu".to_string()], vec!["prometheus".to_string()]));
    let checks: Vec<(&str, bool, u64)> = s
        .module_checks
        .iter()
        .map(|c| (c.module.as_str(), c.success, c.at))
        .collect();
    assert_eq!(checks, vec![("docker", false, 11), ("updates", false, 12)]);
    assert!(status(&h, "0.1.0").uptime_seconds < 60);
    assert!(h.uptime().as_secs() < 60);
}

#[test]
fn the_whole_exposition_is_as_documented() {
    let mut h = HealthState::new();
    h.set(State::Degraded);
    h.update().telegraf_pid = Some(17);
    h.update().telegraf_validation = Some(ConfigDuration::new(1, 250_000_000));
    h.record_module_check_at("up\"date", true, 1_754_000_000);
    h.record_telegraf_restart();
    let out = render_at(&h, &ConfigDuration::new(90, 500_000_000), "0.1.0");
    assert_eq!(
        out,
        "# HELP muninn_info Build information.\n\
         # TYPE muninn_info gauge\n\
         muninn_info{version=\"0.1.0\",telegraf_version=\"unknown\"} 1\n\
         # HELP muninn_state Current supervisor state, as a label; the value is always 1.\n\
         # TYPE muninn_state gauge\n\
         muninn_state{state=\"degraded\"} 1\n\
         # HELP muninn_uptime_seconds Process uptime.\n\
         # TYPE muninn_uptime_seconds gauge\n\
         muninn_uptime_seconds 90.5\n\
         # HELP muninn_ready 1 when /health/ready would succeed.\n\
         # TYPE muninn_ready gauge\n\
         muninn_ready 1\n\
         # HELP muninn_telegraf_running 1 when Telegraf is running as a supervised child.\n\
         # TYPE muninn_telegraf_running gauge\n\
         muninn_telegraf_running 1\n\
         # HELP muninn_telegraf_restarts_total Times Telegraf has been restarted by muninn. Zero \
         unless a bounded restart policy is enabled.\n\
         # TYPE muninn_telegraf_restarts_total counter\n\
         muninn_telegraf_restarts_total 1\n\
         # HELP muninn_telegraf_validation_duration_seconds Time taken by `telegraf config check`.\n\
         # TYPE muninn_telegraf_validation_duration_seconds gauge\n\
         muninn_telegraf_validation_duration_seconds 1.25\n\
         # HELP muninn_module_check_success 1 when a module's last self-check succeeded.\n\
         # TYPE muninn_module_check_success gauge\n\
         muninn_module_check_success{module=\"up\\\"date\"} 1\n\
         # HELP muninn_module_check_timestamp_seconds When a module last completed a self-check.\n\
         # TYPE muninn_module_check_timestamp_seconds gauge\n\
         muninn_module_check_timestamp_seconds{module=\"up\\\"date\"} 1754000000\n"
    );
    assert_eq!(escape("a\\b\"c\nd"), "a\\\\b\\\"c\\nd");
}

#[test]
fn the_accept_loop_stops_on_shutdown_and_survives_a_failed_accept() {
    assert_eq!(next(Waiting::Slot, Event::SlotTaken), Action::Accept);
    assert_eq!(next(Waiting::Slot, Event::SlotsClosed), Action::Stop);
    assert_eq!(next(Waiting::Peer, Event::Accepted), Action::Serve);
    assert_eq!(next(Waiting::Peer, Event::AcceptFailed), Action::Retry);
    for w in [Waiting::Slot, Waiting::Peer] {
        assert_eq!(next(w, Event::Shutdown), Action::Stop);
    }
}

// ── Telegraf ────────────────────────────────────────────────────────────────

#[test]
fn a_rendered_file_is_laid_out_as_documented() {
    let mut cfg = TelegrafConfig::new().agent_option("interval", TomlValue::text("10s"));
    cfg.add(PluginInstance::output("influxdb_v2", 10).scalar("timeout", TomlValue::integer(-5)));
    cfg.add(
        PluginInstance::input("disk", 60)
            .from_module("disks")
            .subtable(
                "tagdrop",
                TomlTable::new().entry("path", TomlValue::array(vec![TomlValue::flag(true)])),
            )
            .scalar("ignore_fs", TomlValue::text("a\"b")),
    );
    assert_eq!(
        render(&cfg, "0.1.0"),
        "# Generated by muninn 0.1.0. Rewritten at every start; do not edit.\n\n\
         [agent]\n  interval = \"10s\"\n\n\
         # module: disks\n[[inputs.disk]]\n  ignore_fs = 'a\"b'\n  [inputs.disk.tagdrop]\n    path = [true]\n\n\
         [[outputs.influxdb_v2]]\n  timeout = -5\n"
    );
}

#[test]
fn merging_keeps_the_first_of_two_scalars_and_of_two_tables() {
    let table = |v: &str| TomlTable::new().entry("path", TomlValue::text(v));
    let mut a = PluginInstance::input("x", 1)
        .scalar("one", TomlValue::integer(1))
        .subtable("tagdrop", table("first"));
    a.merge(
        PluginInstance::input("x", 1)
            .note("module: b")
            .scalar("one", TomlValue::integer(2))
            .scalar("two", TomlValue::integer(2))
            .subtable("tagdrop", table("second"))
            .subtable("tagpass", table("third")),
    );
    a.merge(PluginInstance::input("x", 1).note("module: b"));
    let scalars: Vec<(String, String)> =
        a.scalars().iter().map(|(k, v)| (k.clone(), v.render())).collect();
    assert_eq!(
        scalars,
        vec![("one".to_string(), "1".to_string()), ("two".to_string(), "2".to_string())]
    );
    let tables: Vec<(&str, String)> = a
        .subtables()
        .iter()
        .map(|(k, t)| (k.as_str(), t.iter()[0].1.render()))
        .collect();
    assert_eq!(
        tables,
        vec![("tagdrop", "\"first\"".to_string()), ("tagpass", "\"third\"".to_string())]
    );
    assert_eq!(a.note.as_deref(), Some("module: b"));
}

fn printed(stdout: &[u8], stderr: &[u8]) -> Run {
    Run::Finished {
        success: true,
        status: "exit status: 0".to_string(),
        stdout: stdout.to_vec(),
        stderr: stderr.to_vec(),
    }
}

#[test]
fn a_binary_is_asked_for_its_version() {
    let run = printed(b"", b"TELEGRAF 1.39.2 (git: HEAD)\n");
    assert_eq!(query("/t", &run).unwrap(), "1.39.2");
    assert_eq!(check("/t", &run).unwrap(), EXPECTED_VERSION);
    let other = check("/t", &printed(b"Telegraf 1.40.0\n", b"")).unwrap_err();
    assert!(other.message().contains("'/t' is 1.40.0, but this muninn generates"));
    assert_eq!(other.exit_code(), exit::TELEGRAF_START);
    let noise = query("/t", &printed(b"  \xffwhat\n", b"")).unwrap_err();
    assert_eq!(
        noise.message(),
        "Telegraf did not start: '/t' did not report a recognisable version; it printed: \u{fffd}what"
    );
    assert!(query("/t", &Run::PermissionDenied("Permission denied (os error 13)".into())).unwrap_err().message().contains("not executable"));
    assert!(query("/t", &Run::Failed("x".into())).unwrap_err().message().contains("cannot run '/t': x"));
}

#[test]
fn a_rejected_configuration_is_explained_without_its_secrets() {
    let run = Run::Finished {
        success: false,
        status: "exit status: 1".to_string(),
        stdout: b"out token-of-the-agent  \n".to_vec(),
        stderr: b"I! Loading config: x\r\n\r\nE! err\r\n".to_vec(),
    };
    let redactor = Redactor::new(vec!["token-of-the-agent".to_string()]);
    let e = check_config("/t", &run, &redactor).unwrap_err();
    assert_eq!(e.exit_code(), exit::TELEGRAF_CONFIG);
    assert!(
        e.message().starts_with(
            "generated Telegraf configuration was rejected: `telegraf config check` rejected the \
             generated configuration.\n  E! err\n  out ***\nThis is a muninn bug"
        ),
        "{}",
        e.message()
    );
    assert!(check_config("/t", &printed(b"", b""), &redactor).is_ok());
    assert_eq!(indent("a\n\nb\n"), "  a\n  \n  b");
}

#[test]
fn child_output_is_passed_on_at_its_level() {
    let r = Redactor::new(vec!["token-of-the-agent".to_string()]);
    assert!(forward("  \t", &r).is_none());
    let passed = forward("2026 E! token-of-the-agent", &r).unwrap();
    assert_eq!((passed.loudness, passed.line.as_str()), (Loudness::Error, "2026 E! ***"));
    assert_eq!(forward("W! x", &r).unwrap().loudness, Loudness::Warn);
    assert_eq!(forward("I! x", &r).unwrap().loudness, Loudness::Info);
}

#[test]
fn a_shutdown_ends_with_an_exit_or_a_failed_wait() {
    assert!(matches!(shutdown(Stage::Asked, Waited::TimedOut), Step::Kill));
    assert!(matches!(shutdown(Stage::Killed, Waited::TimedOut), Step::Wait));
    assert!(matches!(
        shutdown(Stage::Killed, Waited::Exited(Exit::Signal(9))),
        Step::Done(Exit::Signal(9))
    ));
    let failure = |stage| match shutdown(stage, Waited::Failed("gone".to_string())) {
        Step::Fail(e) => e.message(),
        other => panic!("{other:?}"),
    };
    assert_eq!(failure(Stage::Asked), "internal error: cannot wait for Telegraf: gone");
    assert_eq!(
        failure(Stage::Killed),
        "internal error: cannot reap Telegraf after killing it: gone"
    );
}

#[test]
fn a_child_ends_by_signal_or_by_code() {
    assert_eq!(Exit::from_status(Some(1), Some(9)), Exit::Signal(9));
    assert_eq!(Exit::from_status(Some(-1), None), Exit::Code(-1));
    assert_eq!(Exit::from_status(None, None), Exit::Unknown);
    assert_eq!(Exit::Code(-1).describe(), "exit code -1");
    assert_eq!(arguments("/run/t.conf"), vec!["--config", "/run/t.conf"]);
    assert!(spawn_error("/t", &Run::PermissionDenied("Permission denied (os error 13)".into())).message().contains("'/t' is not executable"));
    assert!(spawn_error("/t", &printed(b"", b"")).message().contains("could read its PID"));
    assert!(spawn_error("/t", &Run::Failed("x".into())).message().ends_with("cannot start '/t': x"));
}

// ── Text ────────────────────────────────────────────────────────────────────

#[test]
fn text_operations_agree_with_the_standard_library() {
    for s in ["", "\n", "a", "a\r\nb\n", "a\n\r\nb\r", "  x\u{3000}y ", "äöü", "-12", "+7", "007"] {
        assert_eq!(text::split_lines(s), s.lines().collect::<Vec<_>>(), "{s:?}");
        assert_eq!(text::split_words(s), s.split_whitespace().collect::<Vec<_>>(), "{s:?}");
        assert_eq!(text::trim(s), s.trim(), "{s:?}");
        assert_eq!(text::trim_end(s), s.trim_end(), "{s:?}");
        assert_eq!(text::to_lower(s), s.to_ascii_lowercase(), "{s:?}");
        assert_eq!(text::parse_unsigned(s, 65535), s.parse::<u16>().ok().map(u64::from), "{s:?}");
        for p in ["a", "\r", "x", "öü", "7"] {
            assert_eq!(text::contains(s, p), s.contains(p), "{s:?} {p:?}");
            assert_eq!(text::starts_with(s, p), s.starts_with(p), "{s:?} {p:?}");
            assert_eq!(text::replace(s, p, "**"), s.replace(p, "**"), "{s:?} {p:?}");
        }
        for t in ["", "a", "b", "äa", "-13"] {
            assert_eq!(text::is_before(s, t), s < t, "{s:?} {t:?}");
        }
    }
    assert_eq!(text::replace("aaaa", "aa", "b"), "bb");
    assert_eq!(text::parse_number("65536", 65535), None);
    assert_eq!(text::parse_number("18446744073709551616", u64::MAX), None);
    assert_eq!(text::parse_number("18446744073709551615", u64::MAX), Some(u64::MAX));
    assert_eq!(text::signed_of(i64::MIN), i64::MIN.to_string());
    for c in ['\u{0}', '\u{1f}', ' ', '~', '\u{7f}', '\u{9f}', '\u{a0}', 'ä'] {
        assert_eq!(text::is_control(c), c.is_control(), "{c:?}");
    }
}

#[test]
fn a_duration_at_the_end_of_its_range_is_refused() {
    let secs = |n: u64| Some(ConfigDuration::from_secs(n));
    assert_eq!(ConfigDuration::parse("1 0 s"), secs(10));
    assert_eq!(ConfigDuration::parse("600000000000ns"), secs(600));
    assert_eq!(ConfigDuration::parse("604800000000us"), secs(604800));
    assert_eq!(ConfigDuration::parse("18446744073709551615s"), secs(u64::MAX));
    assert_eq!(ConfigDuration::parse("18446744073709551615ns").map(|d| d.as_secs()), Some(18446744073));
    assert_eq!(ConfigDuration::parse("584542046090y"), secs(584542046090 * 31557600));
    assert_eq!(ConfigDuration::parse("1.5months 2 minutes 3millis").map(|d| d.as_millis()), Some(3945144003));
    assert_eq!(ConfigDuration::parse("18446744073709551615s 999ms").map(|d| d.as_secs()), Some(u64::MAX));
    assert_eq!(ConfigDuration::parse("18446744073709551615.5s").map(|d| d.as_secs()), Some(u64::MAX));
    assert_eq!(ConfigDuration::parse("18446744073709551615.4s 0.1s").map(|d| d.as_secs()), Some(u64::MAX));
    assert_eq!(ConfigDuration::parse("584542046090.5y").map(|d| d.as_secs()), Some(584542046090 * 31557600 + 15778800));
    assert_eq!(ConfigDuration::parse("18446744073709551615s 1000ms"), None);
    assert_eq!(ConfigDuration::parse("1844674407370955 1615s 1000ms"), None);
    assert_eq!(ConfigDuration::parse("30500568904943w7h15.5s0.5s"), None);
    assert_eq!(ConfigDuration::parse("18446744073709551616ns"), None);
}

#[test]
fn the_accept_loop_gives_every_connection_a_slot() {
    let run = |events: &[Event]| {
        let (mut waiting, mut served, mut kept) = (Waiting::Slot, 0, 0);
        for e in events {
            match next(waiting, *e) {
                Action::Accept => {
                    kept += 1;
                    waiting = Waiting::Peer;
                }
                Action::Serve => {
                    served += 1;
                    waiting = Waiting::Slot;
                }
                Action::Retry => {
                    if waiting == Waiting::Peer {
                        kept -= 1;
                    }
                    waiting = Waiting::Slot;
                }
                Action::Stop => break,
            }
        }
        (served, kept)
    };
    let events = [
        Event::SlotTaken,
        Event::Accepted,
        Event::SlotTaken,
        Event::AcceptFailed,
        Event::SlotTaken,
        Event::Accepted,
        Event::SlotTaken,
    ];
    assert_eq!(run(&events), (2, 3));
    let stopped = [
        Event::SlotTaken,
        Event::Shutdown,
        Event::Accepted,
        Event::SlotTaken,
        Event::Accepted,
    ];
    assert_eq!(run(&stopped), (0, 1));
}
