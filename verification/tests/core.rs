//! Durations, errors, exit codes and secrets.

use muninn::duration::ConfigDuration;
use muninn::error::MuninnError;
use muninn::exit;
use muninn::secret::{validate_file, FileRead, Redactor, Secret, MIN_SECRET_LEN};

fn parse(s: &str) -> ConfigDuration {
    ConfigDuration::parse(s).expect("should parse")
}

#[test]
fn parses_the_units_the_schema_documents() {
    assert_eq!(parse("30s").as_secs(), 30);
    assert_eq!(parse("5m").as_secs(), 300);
    assert_eq!(parse("1h").as_secs(), 3600);
    assert_eq!(parse("500ms").as_millis(), 500);
}

#[test]
fn parses_compound_durations() {
    assert_eq!(parse("1h30m").as_secs(), 5400);
    assert_eq!(parse("2m 30s").as_secs(), 150);
}

/// A bare number is rejected: `interval: 30` gives no clue whether the
/// author meant seconds, minutes or milliseconds.
#[test]
fn rejects_a_bare_number() {
    assert!(ConfigDuration::parse("30").is_none());
}

#[test]
fn rejects_nonsense() {
    for s in ["soon", "30x", "-30s", ""] {
        assert!(
            ConfigDuration::parse(s).is_none(),
            "{s} should not parse"
        );
    }
}

/// Zero parses — rejecting it belongs to validation, where the field name is
/// known and the message can say which key is wrong.
#[test]
fn zero_parses_and_is_recognisable() {
    assert!(parse("0s").is_zero());
}

// ── Telegraf rendering ──────────────────────────────────────────────────

/// The trap this method exists for. Go's time.ParseDuration accepts "1m30s"
/// and rejects "1m 30s", which is exactly what humantime's Display emits.
#[test]
fn telegraf_rendering_never_contains_a_space() {
    for s in ["30s", "5m", "1h", "1h30m", "90s", "2m 30s", "1500ms"] {
        let rendered = parse(s).as_telegraf();
        assert!(
            !rendered.contains(' '),
            "{s} rendered as {rendered:?}, which Go cannot parse"
        );
    }
}

#[test]
fn telegraf_rendering_uses_a_single_unit() {
    assert_eq!(parse("30s").as_telegraf(), "30s");
    assert_eq!(parse("5m").as_telegraf(), "300s");
    assert_eq!(parse("1h").as_telegraf(), "3600s");
    assert_eq!(parse("1h30m").as_telegraf(), "5400s");
    assert_eq!(parse("1500ms").as_telegraf(), "1500ms");
    assert_eq!(parse("500ms").as_telegraf(), "500ms");
}

/// Rendering must be a function of the value, not of how it was written —
/// otherwise the generated configuration would depend on the author's
/// spelling and the determinism guarantee would not hold.
#[test]
fn equal_durations_render_identically_however_they_were_written() {
    assert_eq!(parse("1h").as_telegraf(), parse("60m").as_telegraf());
    assert_eq!(parse("90s").as_telegraf(), parse("1m30s").as_telegraf());
    assert_eq!(parse("1000ms").as_telegraf(), parse("1s").as_telegraf());
}

/// Display is for humans and may use the spaced form; the two renderings are
/// deliberately different and this pins that down.
#[test]
fn display_is_human_facing_and_telegraf_rendering_is_not() {
    let d = parse("90s");
    assert_eq!(d.display(), "1m 30s");
    assert_eq!(d.as_telegraf(), "90s");
}

#[test]
fn config_error_names_the_key() {
    let e = MuninnError::config("outputs.influxdb.url must not be empty");
    assert!(e.message().contains("outputs.influxdb.url"));
}

#[test]
fn secret_error_carries_the_path() {
    let e = MuninnError::Secret {
        path: "/run/secrets/influxdb_token".into(),
        message: "file is empty".into(),
    };
    let rendered = e.message();
    assert!(rendered.contains("/run/secrets/influxdb_token"));
    assert!(rendered.contains("file is empty"));
}

/// Each error class maps to its documented exit code. The numbers are
/// written out literally rather than referencing the constants a second
/// time: this test exists to make a change to the mapping deliberate.
#[test]
fn errors_map_to_their_documented_exit_codes() {
    assert_eq!(MuninnError::config("x").exit_code(), 10);
    assert_eq!(
        MuninnError::Secret {
            path: "p".into(),
            message: "m".into()
        }
        .exit_code(),
        11
    );
    assert_eq!(MuninnError::runtime("x").exit_code(), 12);
    assert_eq!(MuninnError::TelegrafConfig("x".into()).exit_code(), 20);
    assert_eq!(MuninnError::TelegrafStart("x".into()).exit_code(), 21);
    assert_eq!(MuninnError::TelegrafExited("x".into()).exit_code(), 22);
    assert_eq!(MuninnError::internal("x").exit_code(), 30);
}

/// An unclassified I/O error is a gap in the code, not operator error, so it
/// must not masquerade as a configuration problem.
#[test]
fn bare_io_error_is_internal_not_config() {
    let e = MuninnError::Io("disk went away".into());
    assert_eq!(e.exit_code(), exit::INTERNAL);
}

/// No error may exit 0 — a failure that reports success is worse than a
/// failure.
#[test]
fn no_error_exits_successfully() {
    let all = [
        MuninnError::config("x"),
        MuninnError::Secret {
            path: "p".into(),
            message: "m".into(),
        },
        MuninnError::runtime("x"),
        MuninnError::TelegrafConfig("x".into()),
        MuninnError::TelegrafStart("x".into()),
        MuninnError::TelegrafExited("x".into()),
        MuninnError::Io("x".into()),
        MuninnError::internal("x"),
    ];
    for e in all {
        assert_ne!(e.exit_code(), exit::OK, "{} must not exit 0", e.message());
    }
}

/// The values are a contract, so the test states them literally rather than
/// referring to the constants a second time. Changing a number must require
/// changing this test, which is the point.
#[test]
fn exit_codes_have_their_documented_values() {
    assert_eq!(exit::OK, 0);
    assert_eq!(exit::CLI, 2);
    assert_eq!(exit::CONFIG, 10);
    assert_eq!(exit::SECRET, 11);
    assert_eq!(exit::RUNTIME, 12);
    assert_eq!(exit::TELEGRAF_CONFIG, 20);
    assert_eq!(exit::TELEGRAF_START, 21);
    assert_eq!(exit::TELEGRAF_EXITED, 22);
    assert_eq!(exit::INTERNAL, 30);
}

/// Two failure modes sharing a code would make an alert rule ambiguous.
#[test]
fn exit_codes_are_distinct() {
    let all = [
        exit::OK,
        exit::CLI,
        exit::CONFIG,
        exit::SECRET,
        exit::RUNTIME,
        exit::TELEGRAF_CONFIG,
        exit::TELEGRAF_START,
        exit::TELEGRAF_EXITED,
        exit::INTERNAL,
    ];
    let mut seen = std::collections::HashSet::new();
    for code in all {
        assert!(seen.insert(code), "exit code {code} is used twice");
    }
}

/// 1 is left free on purpose: it is what a panic, an unhandled error or a
/// shell wrapper produces, and it must stay distinguishable from every
/// deliberate exit muninn performs.
#[test]
fn one_is_not_assigned() {
    let all = [
        exit::OK,
        exit::CLI,
        exit::CONFIG,
        exit::SECRET,
        exit::RUNTIME,
        exit::TELEGRAF_CONFIG,
        exit::TELEGRAF_START,
        exit::TELEGRAF_EXITED,
        exit::INTERNAL,
    ];
    assert!(
        !all.contains(&1),
        "1 must stay reserved for unexpected failure"
    );
}

/// A file with a content, at a path.
struct TestFile {
    path: String,
    read: FileRead,
}

fn file_with(content: &str) -> TestFile {
    TestFile {
        path: "/run/secrets/under-test".to_string(),
        read: FileRead::Text(content.to_string()),
    }
}

fn read(f: &TestFile) -> Result<Secret, MuninnError> {
    Secret::from_file(&f.path, &f.read)
}

/// The error of a secret that must not be read.
fn refusal(r: Result<Secret, MuninnError>) -> MuninnError {
    match r {
        Ok(_) => panic!("expected an error"),
        Err(e) => e,
    }
}

#[test]
fn reads_a_secret_from_a_file() {
    let f = file_with("s3cret-token");
    assert_eq!(
        read(&f).unwrap().expose(),
        "s3cret-token"
    );
}

/// `echo "token" > file` is how most people write one, and the newline it
/// appends fails authentication in a way that looks like a wrong token.
#[test]
fn strips_the_trailing_newline_echo_leaves_behind() {
    let f = file_with("s3cret-token\n");
    assert_eq!(
        read(&f).unwrap().expose(),
        "s3cret-token"
    );
}

#[test]
fn strips_surrounding_whitespace() {
    let f = file_with("  \t s3cret-token \r\n ");
    assert_eq!(
        read(&f).unwrap().expose(),
        "s3cret-token"
    );
}

/// Internal whitespace is part of the value — a passphrase may contain
/// spaces, and trimming those would corrupt it.
#[test]
fn keeps_whitespace_inside_the_value() {
    let f = file_with("  correct horse battery staple  ");
    assert_eq!(
        read(&f).unwrap().expose(),
        "correct horse battery staple"
    );
}

#[test]
fn missing_file_is_an_error_naming_the_path() {
    let err = refusal(Secret::from_file(
        "/nonexistent/muninn-token-xyz",
        &FileRead::NotFound,
    ));
    let msg = err.message();
    assert!(msg.contains("muninn-token-xyz"), "got: {msg}");
    assert!(msg.contains("does not exist"), "got: {msg}");
    assert_eq!(err.exit_code(), exit::SECRET);
}

/// An empty file must fail rather than yield an empty credential: the
/// operator asked for authentication, so proceeding without it is the worst
/// available fallback.
#[test]
fn empty_file_is_an_error_not_an_empty_secret() {
    let f = file_with("");
    let err = refusal(read(&f));
    assert!(err.message().contains("empty"), "got: {}", err.message());
}

/// Whitespace-only is empty for this purpose — a file containing "\n" is
/// what a failed write leaves behind.
#[test]
fn whitespace_only_file_counts_as_empty() {
    let f = file_with("   \n\t  \n");
    assert!(read(&f).is_err());
}

// ── Redaction ───────────────────────────────────────────────────────────
// These assert the value is ABSENT, not merely that "***" is present.
// Asserting on the mask would pass for a format like "***(hunter2)".

#[test]
fn display_hides_the_value() {
    let s = Secret::from_value("hunter2");
    let out = s.display();
    assert!(!out.contains("hunter2"), "leaked: {out}");
    assert_eq!(out, "***");
}

#[test]
fn debug_hides_the_value() {
    let s = Secret::from_value("hunter2");
    let out = s.debug();
    assert!(!out.contains("hunter2"), "leaked: {out}");
    assert_eq!(out, "Secret(***)");
}

/// The realistic leak: a secret nested in a larger struct that someone
/// derives `Debug` on and logs with `?config`.
#[test]
fn debug_hides_the_value_when_nested_in_another_struct() {
    let url = "https://influx.example";
    let token = Secret::from_value("hunter2");
    let out = format!("Output {{ url: {url:?}, token: {} }}", token.debug());
    assert!(
        !out.contains("hunter2"),
        "leaked through a parent struct: {out}"
    );
    assert!(
        out.contains("https://influx.example"),
        "non-secrets should still show"
    );
}

#[test]
fn debug_hides_the_value_in_a_collection() {
    let v = vec![
        Secret::from_value("hunter2"),
        Secret::from_value("swordfish"),
    ];
    let out = format!("{:?}", v.iter().map(|s| s.debug()).collect::<Vec<_>>());
    assert!(
        !out.contains("hunter2") && !out.contains("swordfish"),
        "leaked: {out}"
    );
}

/// A secret error must name the path and never the contents — the whole
/// reason `MuninnError::Secret` has no field that could hold a value.
#[test]
fn errors_never_carry_the_secret_value() {
    let f = file_with("");
    let err = refusal(read(&f));
    assert!(!err.message().contains("hunter2"));
    // And the path, which is safe and necessary, is present.
    assert!(err.message().contains(&f.path));
}

// ── Redactor ────────────────────────────────────────────────────────────

fn redactor(values: &[&str]) -> Redactor {
    Redactor::new(values.iter().map(|s| s.to_string()).collect())
}

/// The case this exists for: a line muninn did not write, quoting a value
/// muninn resolved.
#[test]
fn a_secret_quoted_by_a_child_process_is_masked() {
    let r = redactor(&["s3cret-token-value"]);
    let out = r.apply("E! [outputs.influxdb_v2] token s3cret-token-value rejected");
    assert!(!out.contains("s3cret-token-value"), "leaked: {out}");
    assert_eq!(out, "E! [outputs.influxdb_v2] token *** rejected");
}

#[test]
fn a_line_without_a_secret_is_returned_untouched() {
    let r = redactor(&["s3cret-token-value"]);
    let line = "I! [agent] Config: Interval:10s, Quiet:false";
    assert_eq!(r.apply(line), line);
    // Borrowed, not rebuilt: the common case must not allocate.
    assert!(matches!(r.apply(line), std::borrow::Cow::Borrowed(_)));
}

#[test]
fn every_occurrence_on_a_line_is_masked() {
    let r = redactor(&["longenoughsecret"]);
    let out = r.apply("longenoughsecret and again longenoughsecret");
    assert_eq!(out, "*** and again ***");
}

#[test]
fn several_secrets_are_all_masked() {
    let r = redactor(&["influx-token-aaa", "prometheus-pass-bbb"]);
    let out = r.apply("influx-token-aaa / prometheus-pass-bbb");
    assert_eq!(out, "*** / ***");
}

/// Longest first: replacing the short one first would leave the tail of the
/// long one — `...-extended` — sitting in the log.
#[test]
fn an_overlapping_pair_cannot_leave_a_fragment_behind() {
    let r = redactor(&["secret-value-x", "secret-value-x-extended"]);
    let out = r.apply("token secret-value-x-extended here");
    assert!(!out.contains("extended"), "left a fragment: {out}");
    assert_eq!(out, "token *** here");
}

/// A short value would match inside ordinary words and turn every log line
/// into noise — which is less safe, because an unreadable log is unread.
#[test]
fn values_too_short_to_match_safely_are_ignored() {
    let r = redactor(&["abc"]);
    assert!(r.is_empty());
    assert_eq!(r.apply("abcdef"), "abcdef");
}

#[test]
fn an_empty_redactor_changes_nothing() {
    let r = Redactor::empty();
    assert!(r.is_empty());
    assert_eq!(r.apply("anything at all"), "anything at all");
}

/// The redactor holds the values it is meant to hide; formatting it must
/// not undo that.
#[test]
fn debug_does_not_render_the_values_it_holds() {
    let r = redactor(&["s3cret-token-value"]);
    let out = r.debug();
    assert!(!out.contains("s3cret-token-value"), "leaked: {out}");
    assert_eq!(out, "Redactor(1 values)");
}

// ── validate_file ───────────────────────────────────────────────────────

fn validated_with(content: &str, mode: u32) -> (Result<(), MuninnError>, Vec<String>) {
    let f = file_with(content);
    let mut warnings = Vec::new();
    let r = validate_file(
        &f.path,
        "outputs.influxdb.token_file",
        &f.read,
        Some(mode),
        &mut warnings,
    );
    (r, warnings)
}

fn validated(content: &str) -> (Result<(), MuninnError>, Vec<String>) {
    validated_with(content, 0o600)
}

#[test]
fn a_credential_of_usable_length_validates_quietly() {
    let (result, warnings) = validated("s3cret-token-value");
    assert!(result.is_ok(), "got: {:?}", result.err().map(|e| e.message()));
    assert!(warnings.is_empty(), "unexpected: {warnings:?}");
}

/// The hole this closes: the redactor silently skipped values this
/// short while loading accepted them, so a short-but-valid credential
/// reached Telegraf's output with nothing defending it.
#[test]
fn a_credential_too_short_to_redact_is_refused() {
    let (result, _) = validated("tok");
    let err = result.unwrap_err();
    let msg = err.message();
    assert!(msg.contains("outputs.influxdb.token_file"), "got: {msg}");
    assert!(msg.contains("shorter than 8 bytes"), "got: {msg}");
    assert_eq!(err.exit_code(), exit::SECRET);
}

/// Refusing must never quote the value it is refusing. The value here is
/// deliberately one that appears nowhere in the message's own wording —
/// `tok` would be found inside `token_file` and prove nothing.
#[test]
fn refusing_a_short_credential_does_not_print_it() {
    let (result, _) = validated("zq7");
    let msg = result.unwrap_err().message();
    assert!(!msg.contains("zq7"), "leaked: {msg}");
}

/// Exactly at the boundary is accepted: the rule is "shorter than", and an
/// off-by-one here would reject a credential the redactor can defend.
#[test]
fn a_credential_of_exactly_the_minimum_length_is_accepted() {
    assert_eq!(MIN_SECRET_LEN, 8);
    let (result, _) = validated("12345678");
    assert!(result.is_ok(), "got: {:?}", result.err().map(|e| e.message()));
}

#[test]
fn the_underlying_read_errors_still_surface() {
    let mut warnings = Vec::new();
    let err = validate_file(
        "/nonexistent/muninn-token-xyz",
        "outputs.influxdb.token_file",
        &FileRead::NotFound,
        None,
        &mut warnings,
    )
    .unwrap_err();
    assert!(err.message().contains("does not exist"), "got: {}", err.message());
}

/// A secret file readable beyond its owner is warned about, not refused —
/// a read-only bind mount can carry permissions the operator does not
/// control, and a token that works should not stop a deployment.
///
/// This asserts the *diagnostic*, which is what M-01 claimed and F-02
/// found was never true: the warning went through `tracing::warn!` and
/// validation runs before any subscriber exists, so it was discarded on
/// every path where an operator was meant to see it.
#[test]
fn a_secret_readable_beyond_its_owner_produces_a_warning_and_still_loads() {
    let (result, warnings) = validated_with("s3cret-token-value\n", 0o644);
    result.expect("a loose mode must not be fatal");

    assert_eq!(warnings.len(), 1, "got: {warnings:?}");
    let w = &warnings[0];
    assert!(w.contains("outputs.influxdb.token_file"), "got: {w}");
    assert!(w.contains("0644"), "the mode is the actionable part: {w}");
    assert!(w.contains("/run/secrets/under-test"), "got: {w}");
    assert!(!w.contains("s3cret-token-value"), "leaked: {w}");
}

/// And the tight case says nothing at all.
#[test]
fn a_correctly_moded_secret_produces_no_warning() {
    let (result, warnings) = validated_with("s3cret-token-value\n", 0o600);
    result.unwrap();
    assert!(warnings.is_empty(), "unexpected: {warnings:?}");
}

/// Group-readable is as much a finding as world-readable. `0640` in a mount
/// is the shape this most often takes, and checking only `o` would miss it.
#[test]
fn group_readable_counts_too() {
    let (result, warnings) = validated_with("s3cret-token-value\n", 0o640);
    result.unwrap();
    assert_eq!(warnings.len(), 1, "got: {warnings:?}");
    assert!(warnings[0].contains("0640"), "got: {}", warnings[0]);
}

#[test]
fn a_redactor_holds_each_value_once() {
    let values = ["aaaaaaaa", "bbbbbbbb", "aaaaaaaa"];
    let r = Redactor::new(values.map(String::from).to_vec());
    assert_eq!(r.debug(), "Redactor(2 values)");
    let r = r.extended_with(vec!["bbbbbbbb".to_string(), "a longer value".to_string()]);
    assert_eq!(r.debug(), "Redactor(3 values)");
    assert_eq!(r.apply("aaaaaaaa bbbbbbbb a longer value"), "*** *** ***");
}

#[test]
fn extending_a_redactor_is_building_it_from_both_lists() {
    let list = |values: &[&str]| values.iter().map(|s| s.to_string()).collect::<Vec<_>>();
    let a = list(&["secret-aa", "short", "secret-value-x"]);
    let b = list(&["secret-bb", "secret-aa", "secret-value-x-extended"]);
    let both: Vec<String> = a.iter().chain(&b).cloned().collect();
    let extended = Redactor::new(a).extended_with(b);
    let built = Redactor::new(both);
    assert_eq!(extended.debug(), built.debug());
    let line = "secret-bb secret-value-x-extended secret-value-x secret-aa short";
    assert_eq!(extended.apply(line), built.apply(line));
    assert_eq!(built.apply(line), "*** *** *** *** short");
    assert!(Redactor::default().is_empty());
    assert_eq!(built.clone().debug(), "Redactor(4 values)");
}
