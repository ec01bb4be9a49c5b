//! The Telegraf configuration model, its rendering, and the Telegraf process.

use muninn::exit;
use muninn::secret::Redactor;
use muninn::telegraf::model::{PluginInstance, TelegrafConfig, TomlTable, TomlValue};
use muninn::telegraf::process::{
    arguments, forward, shutdown, spawn_error, Exit, Loudness, Stage, Step, Waited,
};
use muninn::telegraf::render;
use muninn::telegraf::validator::{check_config, diagnostics, indent};
use muninn::telegraf::version::{
    check, parse, query, resolve_binary_path, Run, DEFAULT_BINARY, EXPECTED_VERSION,
};

fn words(list: &[&str]) -> TomlValue {
    TomlValue::words(&list.iter().map(|s| s.to_string()).collect())
}

/// What a run of a binary that does not exist gives.
fn absent() -> Run {
    Run::NotFound("No such file or directory (os error 2)".to_string())
}

// ── Escaping ────────────────────────────────────────────────────────────

#[test]
fn plain_values_render_as_expected() {
    assert_eq!(TomlValue::text("plain").render(), "\"plain\"");
    assert_eq!(TomlValue::integer(42).render(), "42");
    assert_eq!(TomlValue::flag(true).render(), "true");
    assert_eq!(words(&["a", "b"]).render(), "[\"a\", \"b\"]");
    assert_eq!(TomlValue::Array(vec![]).render(), "[]");
}

/// The values reaching this encoder are operator-supplied paths and globs.
/// The property that matters is not which quoting style the `toml` crate
/// picks, but that the value cannot terminate its own string — so these
/// assert the rendering is a well-formed TOML value that round-trips.
#[test]
fn awkward_values_round_trip_through_toml() {
    let cases = [
        r#"has "quotes""#,
        r#"back\slash"#,
        "tab\there",
        "line\nbreak",
        "üñí çø∂é — em dash",
        "/var/lib/docker/*",
        "/mnt/my volume/data",
        "'single'",
        "mixed \"a\" and 'b'",
        "",
    ];
    for original in cases {
        let rendered = TomlValue::text(original).render();
        let parsed: toml::Value =
            toml::from_str(&format!("v = {rendered}")).unwrap_or_else(|e| {
                panic!("{original:?} rendered as {rendered} which is not valid TOML: {e}")
            });
        assert_eq!(
            parsed["v"].as_str().unwrap(),
            original,
            "{original:?} did not survive rendering as {rendered}"
        );
    }
}

/// The attack this encoder exists to make impossible: a configuration value
/// that closes its own string and appends a plugin. If this ever fails, an
/// operator-supplied mount-point glob could add an `inputs.exec` block.
#[test]
fn a_value_cannot_inject_a_plugin() {
    let hostile = "x\"\n[[inputs.exec]]\ncommands = [\"curl evil.example\"]\n#";
    let rendered = TomlValue::text(hostile).render();
    let doc: toml::Value = toml::from_str(&format!("v = {rendered}"))
        .expect("hostile value must still render as valid TOML");
    assert!(
        doc.get("inputs").is_none(),
        "value escaped its string and injected a table: {rendered}"
    );
    assert_eq!(doc["v"].as_str().unwrap(), hostile);
}

/// Determinism does not require one fixed quoting style, only that the style
/// is a function of the value.
#[test]
fn rendering_a_value_is_deterministic() {
    for s in [r#"has "quotes""#, "plain", "line\nbreak"] {
        let a = TomlValue::text(s).render();
        let b = TomlValue::text(s).render();
        assert_eq!(a, b);
    }
}

// ── Ordering ────────────────────────────────────────────────────────────

#[test]
fn scalars_keep_the_order_they_were_added() {
    let p = PluginInstance::input("disk", 10)
        .scalar("zebra", TomlValue::flag(true))
        .scalar("alpha", TomlValue::flag(true))
        .scalar("middle", TomlValue::flag(true));
    let keys: Vec<&str> = p.scalars().iter().map(|(k, _)| k.as_str()).collect();
    assert_eq!(
        keys,
        vec!["zebra", "alpha", "middle"],
        "keys must not be sorted — see ADR-0007"
    );
}

#[test]
fn an_empty_subtable_is_not_added() {
    let p = PluginInstance::input("disk", 10).subtable("tagdrop", TomlTable::new());
    assert_eq!(p.subtables().len(), 0);
}

#[test]
fn an_empty_exclusion_list_produces_no_tagdrop() {
    let p = PluginInstance::input("net", 10).tagdrop("interface", &Vec::new());
    assert_eq!(p.subtables().len(), 0);
}

#[test]
fn an_empty_list_option_is_omitted() {
    let p = PluginInstance::input("disk", 10).list("mount_points", &Vec::new());
    assert_eq!(p.scalars().len(), 0);
}

#[test]
fn instances_are_ordered_by_rank_then_name() {
    let mut cfg = TelegrafConfig::new();
    cfg.add(PluginInstance::input("net", 30));
    cfg.add(PluginInstance::input("cpu", 10));
    cfg.add(PluginInstance::input("swap", 20));
    cfg.add(PluginInstance::input("mem", 20));
    let names: Vec<&str> = cfg.inputs().iter().map(|i| i.plugin.as_str()).collect();
    assert_eq!(names, vec!["cpu", "mem", "swap", "net"]);
}

// ── Merging ─────────────────────────────────────────────────────────────

/// Two `[[inputs.system]]` blocks would collect every metric twice, with
/// identical tags, and nothing would complain. See ADR-0008.
#[test]
fn instances_sharing_a_merge_key_become_one() {
    let mut cfg = TelegrafConfig::new();
    cfg.add(
        PluginInstance::input("system", 10)
            .merge_key("system")
            .note("module: load")
            .scalar("include", words(&["load"])),
    );
    cfg.add(
        PluginInstance::input("system", 10)
            .merge_key("system")
            .note("module: system")
            .scalar("include", words(&["uptime", "users"])),
    );

    let inputs = cfg.inputs();
    assert_eq!(inputs.len(), 1, "must be one instance, not two");
    let (_, merged) = inputs[0].scalars().first().unwrap();
    assert!(
        merged.same(&words(&["load", "uptime", "users"])),
        "array options union: {merged:?}"
    );
    assert_eq!(
        inputs[0].note.as_deref(),
        Some("module: load, module: system"),
        "provenance should name both modules"
    );
}

#[test]
fn merging_does_not_duplicate_shared_values() {
    let mut cfg = TelegrafConfig::new();
    for _ in 0..2 {
        cfg.add(
            PluginInstance::input("system", 10)
                .merge_key("system")
                .scalar("include", words(&["load"])),
        );
    }
    let inputs = cfg.inputs();
    let (_, merged) = inputs[0].scalars().first().unwrap();
    assert!(merged.same(&words(&["load"])), "{merged:?}");
}

/// The union must not depend on which module ran first, or the generated
/// file would change shape when the YAML is reordered.
#[test]
fn merging_is_order_independent_in_content() {
    let build = |first: &str, second: &str| {
        let mut cfg = TelegrafConfig::new();
        cfg.add(
            PluginInstance::input("system", 10)
                .merge_key("system")
                .scalar("include", words(&[first])),
        );
        cfg.add(
            PluginInstance::input("system", 10)
                .merge_key("system")
                .scalar("include", words(&[second])),
        );
        match cfg.inputs()[0].scalars().first().unwrap().1.copy() {
            TomlValue::Array(v) => v,
            other => panic!("expected an array, got {other:?}"),
        }
    };
    let mut a = build("load", "uptime");
    let mut b = build("uptime", "load");
    a.sort_by_key(|v| v.render());
    b.sort_by_key(|v| v.render());
    assert_eq!(a.len(), b.len());
    assert!(
        a.iter().zip(b.iter()).all(|(x, y)| x.same(y)),
        "the same modules must contribute the same set"
    );
}

#[test]
fn instances_without_a_merge_key_stay_separate() {
    let mut cfg = TelegrafConfig::new();
    cfg.add(PluginInstance::input("exec", 90).scalar("commands", words(&["a"])));
    cfg.add(PluginInstance::input("exec", 90).scalar("commands", words(&["b"])));
    assert_eq!(cfg.inputs().len(), 2, "exec instances are independent");
}

#[test]
fn inputs_and_outputs_are_kept_apart() {
    let mut cfg = TelegrafConfig::new();
    cfg.add(PluginInstance::input("cpu", 10));
    cfg.add(PluginInstance::output("influxdb_v2", 10));
    assert_eq!(cfg.inputs().len(), 1);
    assert_eq!(cfg.outputs().len(), 1);
    assert_eq!(cfg.outputs()[0].header(), "[[outputs.influxdb_v2]]");
}

#[test]
fn a_zero_exit_is_a_clean_shutdown() {
    assert!(Exit::Code(0).is_clean_shutdown());
}

/// Some builds re-raise the stop signal rather than exiting 0. Treating that
/// as a crash would make every clean shutdown look like a failure.
#[test]
fn being_killed_by_the_stop_signal_is_a_clean_shutdown() {
    assert!(Exit::Signal(15).is_clean_shutdown(), "SIGTERM");
    assert!(Exit::Signal(2).is_clean_shutdown(), "SIGINT");
}

#[test]
fn anything_else_is_a_crash() {
    assert!(!Exit::Code(1).is_clean_shutdown());
    assert!(!Exit::Code(137).is_clean_shutdown());
    assert!(!Exit::Signal(9).is_clean_shutdown(), "SIGKILL is not clean");
    assert!(
        !Exit::Signal(11).is_clean_shutdown(),
        "SIGSEGV is not clean"
    );
    assert!(!Exit::Unknown.is_clean_shutdown());
}

/// The description reaches a log line and an operator, so it has to name the
/// number they will search for.
#[test]
fn the_description_names_the_number() {
    assert!(Exit::Code(137).describe().contains("137"));
    assert!(Exit::Signal(9).describe().contains("9"));
    assert!(!Exit::Unknown.describe().is_empty());
}

#[test]
fn spawning_a_missing_binary_fails_with_a_start_error() {
    let err = spawn_error("/nonexistent/telegraf", &absent());
    assert_eq!(err.exit_code(), exit::TELEGRAF_START);
    assert!(
        err.message().contains("nonexistent"),
        "got: {}",
        err.message()
    );
}

/// The property, at the level that matters: a secret Telegraf printed does
/// not reach a log line. `forward` writes through `tracing`, so this
/// exercises the redaction it applies rather than the subscriber.
#[test]
fn a_secret_in_child_output_is_masked_before_it_is_logged() {
    let redactor = Redactor::new(vec!["influx-token-abcdef".to_string()]);
    let line = "2026-01-01T00:00:00Z E! [outputs.influxdb_v2] \
                token influx-token-abcdef was rejected";

    let out = redactor.apply(line);
    assert!(!out.contains("influx-token-abcdef"), "leaked: {out}");
    assert!(
        out.contains("[outputs.influxdb_v2]") && out.contains("was rejected"),
        "the diagnostic itself must survive: {out}"
    );
}

/// An ordinary Telegraf line has to come through byte-identical — redaction
/// that mangled normal output would be paid for on every line.
#[test]
fn ordinary_child_output_is_unchanged() {
    let redactor = Redactor::new(vec!["influx-token-abcdef".to_string()]);
    let line = "2026-01-01T00:00:00Z I! [agent] Config: Interval:10s";
    assert_eq!(redactor.apply(line), line);
}

/// What a failed `telegraf config check` printed.
struct Output {
    stderr: Vec<u8>,
    stdout: Vec<u8>,
}

fn failed_output(stderr: &str, stdout: &str) -> Output {
    Output {
        stderr: stderr.as_bytes().to_vec(),
        stdout: stdout.as_bytes().to_vec(),
    }
}

fn diagnosed(o: &Output, redactor: &Redactor) -> String {
    diagnostics(&o.stderr, &o.stdout, "exit status: 1", redactor)
}

#[test]
fn diagnostics_drop_telegrafs_progress_chatter() {
    let o = failed_output(
        "2026-08-02T10:00:00Z I! Loading config: /run/muninn/telegraf.conf\n\
         2026-08-02T10:00:00Z E! error loading config: undefined but requested input: nope\n",
        "",
    );
    let text = diagnosed(&o, &Redactor::empty());
    assert!(!text.contains("Loading config"), "chatter kept: {text}");
    assert!(
        text.contains("undefined but requested input"),
        "got: {text}"
    );
}

/// A silent failure still has to produce something a human can act on.
#[test]
fn a_silent_failure_still_reports_the_exit_status() {
    let text = diagnosed(&failed_output("", ""), &Redactor::empty());
    assert!(text.contains("said nothing"), "got: {text}");
}

/// The finding this closes: the file `config check` reads holds
/// resolved secrets, so a plugin diagnostic quoting one would have gone
/// straight into the error muninn prints.
///
/// Asserts the *value is absent* rather than that the mask is present —
/// asserting on `***` would pass for a format like `***(s3cret-token-value)`.
#[test]
fn a_secret_quoted_by_telegraf_never_reaches_the_error() {
    let redactor = Redactor::new(vec!["s3cret-token-value".to_string()]);
    let o = failed_output(
        "E! [outputs.influxdb_v2] token \"s3cret-token-value\" was rejected\n",
        "",
    );
    let text = diagnosed(&o, &redactor);
    assert!(!text.contains("s3cret-token-value"), "leaked: {text}");
    assert!(text.contains("was rejected"), "lost the diagnosis: {text}");
}

/// A secret split across two of Telegraf's lines must not be reassembled
/// into the joined text and survive there. Redacting per line is what makes
/// this hold; redacting after the join would not.
#[test]
fn a_secret_on_each_of_two_lines_is_masked_on_both() {
    let redactor = Redactor::new(vec!["s3cret-token-value".to_string()]);
    let o = failed_output(
        "E! first mention s3cret-token-value\nE! second mention s3cret-token-value\n",
        "",
    );
    let text = diagnosed(&o, &redactor);
    assert!(!text.contains("s3cret-token-value"), "leaked: {text}");
    assert_eq!(text.matches("***").count(), 2, "got: {text}");
}

/// Whole-path check: the redaction has to survive being wrapped in the
/// error's explanatory prose and indented, not merely happen upstream of it.
#[test]
fn the_error_a_caller_prints_carries_no_secret() {
    let redactor = Redactor::new(vec!["s3cret-token-value".to_string()]);
    let o = failed_output("E! token s3cret-token-value rejected\n", "");
    // Build the same message `check_config` builds, from the same parts.
    let rendered = indent(&diagnosed(&o, &redactor));
    assert!(
        !rendered.contains("s3cret-token-value"),
        "leaked: {rendered}"
    );
}

#[test]
fn a_missing_binary_is_a_start_failure_not_a_config_failure() {
    let err = check_config("/nonexistent/telegraf", &absent(), &Redactor::empty()).unwrap_err();
    assert_eq!(
        err.exit_code(),
        exit::TELEGRAF_START,
        "a missing binary is not the configuration's fault"
    );
    assert!(err
        .message()
        .ends_with("cannot run '/nonexistent/telegraf': No such file or directory (os error 2)"));
}

#[test]
fn parses_the_documented_output_format() {
    assert_eq!(
        parse("Telegraf 1.39.2 (git: HEAD@e8162a94)").as_deref(),
        Some("1.39.2")
    );
}

#[test]
fn parses_a_version_with_a_pre_release_suffix() {
    assert_eq!(
        parse("Telegraf 1.40.0-rc1 (git: master@abc123)").as_deref(),
        Some("1.40.0-rc1")
    );
}

#[test]
fn tolerates_a_leading_log_line() {
    let output = "2026-08-02T10:00:00Z I! some notice\nTelegraf 1.39.2 (git: HEAD@e8162a94)";
    assert_eq!(parse(output).as_deref(), Some("1.39.2"));
}

/// Returning `None` rather than a wrong guess matters: the caller turns
/// `None` into "did not report a recognisable version", which is honest,
/// whereas a guess would be compared against the pin and produce a confident
/// mismatch about nothing.
#[test]
fn refuses_to_guess_at_unrecognised_output() {
    for output in [
        "",
        "command not found",
        "Telegraf",
        "Telegraf unknown",
        "some other program 1.2.3",
    ] {
        assert_eq!(parse(output), None, "{output:?} should not parse");
    }
}

#[test]
fn a_missing_binary_says_where_it_should_be() {
    let err = query("/nonexistent/telegraf", &absent()).unwrap_err();
    let msg = err.message();
    assert!(msg.contains("MUNINN_TELEGRAF_BIN"), "got: {msg}");
    assert_eq!(err.exit_code(), exit::TELEGRAF_START);
}

/// The default is the container path; the override is what makes running
/// outside the image possible at all.
#[test]
fn the_binary_path_falls_back_to_the_container_default() {
    assert_eq!(resolve_binary_path(None), DEFAULT_BINARY);
}

#[test]
fn the_binary_path_honours_an_override() {
    assert_eq!(
        resolve_binary_path(Some("/opt/telegraf".into())),
        "/opt/telegraf"
    );
}

/// Usually an unset shell variable that expanded to nothing. Taking it
/// literally would produce a baffling "cannot run ''".
#[test]
fn an_empty_override_falls_back_rather_than_becoming_an_empty_path() {
    assert_eq!(
        resolve_binary_path(Some("".into())),
        DEFAULT_BINARY
    );
}

#[test]
fn equal_instances_keep_the_order_they_were_added_in() {
    let mut cfg = TelegrafConfig::default();
    for (plugin, rank, note) in [("exec", 20, "a"), ("cpu", 10, "x"), ("exec", 20, "b"), ("exec", 20, "c")] {
        cfg.add(PluginInstance::input(plugin, rank).scalar("note", TomlValue::text(note)));
    }
    let notes: Vec<TomlValue> = cfg.inputs().iter().map(|p| p.scalars()[0].1.clone()).collect();
    assert_eq!(notes, ["x", "a", "b", "c"].map(TomlValue::text));
}
