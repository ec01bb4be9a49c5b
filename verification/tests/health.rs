//! The observable state, the metrics and the answers of the health endpoints.

use std::sync::{Arc, RwLock};

use muninn::duration::ConfigDuration;
use muninn::health::metrics::render;
use muninn::health::server::{live, ready, status};
use muninn::health::state::{HealthState, State};

fn ready_state() -> HealthState {
    let mut s = HealthState::new();
    s.set(State::Ready);
    let d = s.update();
    d.telegraf_version = Some("1.39.2".into());
    d.telegraf_pid = Some(17);
    s
}

#[test]
fn every_family_declares_its_type() {
    let out = render(&ready_state(), "0.1.0");
    for line in out.lines().filter(|l| !l.starts_with('#')) {
        let name = line.split(['{', ' ']).next().unwrap();
        assert!(
            out.contains(&format!("# TYPE {name} ")),
            "{name} has no TYPE declaration"
        );
    }
}

#[test]
fn a_ready_agent_reports_ready_and_running() {
    let out = render(&ready_state(), "0.1.0");
    assert!(out.contains("muninn_ready 1"), "{out}");
    assert!(out.contains("muninn_telegraf_running 1"), "{out}");
    assert!(out.contains("muninn_state{state=\"ready\"} 1"), "{out}");
    assert!(
        out.contains("muninn_info{version=\"0.1.0\",telegraf_version=\"1.39.2\"} 1"),
        "{out}"
    );
}

/// The reason these metrics exist at all: they must still be servable, and
/// still truthful, when Telegraf is gone.
#[test]
fn a_failed_agent_reports_not_ready_and_not_running() {
    let mut s = HealthState::new();
    s.set(State::Failed);
    s.update().last_telegraf_exit = Some("exit code 137".into());
    let out = render(&s, "0.1.0");
    assert!(out.contains("muninn_ready 0"), "{out}");
    assert!(out.contains("muninn_telegraf_running 0"), "{out}");
    assert!(out.contains("muninn_state{state=\"failed\"} 1"), "{out}");
}

/// `Degraded` is ready. A metric that disagreed with `/health/ready` would
/// be worse than no metric.
#[test]
fn degraded_reports_ready_matching_the_endpoint() {
    let mut s = HealthState::new();
    s.set(State::Degraded);
    s.update().telegraf_pid = Some(17);
    let out = render(&s, "0.1.0");
    assert!(out.contains("muninn_ready 1"), "{out}");
    assert_eq!(s.is_ready(), out.contains("muninn_ready 1"));
}

/// Zero would read as "instantaneous" on a graph, which is a different claim
/// from "this step has not run".
#[test]
fn durations_are_omitted_rather_than_reported_as_zero() {
    let out = render(&HealthState::new(), "0.1.0");
    assert!(!out.contains("muninn_config_generation_duration_seconds"));
    assert!(!out.contains("muninn_telegraf_validation_duration_seconds"));

    let mut s = HealthState::new();
    s.update().config_generation = Some(ConfigDuration::new(0, 12_000_000));
    let out = render(&s, "0.1.0");
    assert!(
        out.contains("muninn_config_generation_duration_seconds 0.012"),
        "{out}"
    );
}

#[test]
fn module_checks_render_one_series_per_module() {
    let mut s = HealthState::new();
    s.record_module_check("updates", false);
    s.record_module_check("docker", true);
    let out = render(&s, "0.1.0");
    assert!(
        out.contains("muninn_module_check_success{module=\"updates\"} 0"),
        "{out}"
    );
    assert!(
        out.contains("muninn_module_check_success{module=\"docker\"} 1"),
        "{out}"
    );
    assert!(
        out.contains("muninn_module_check_timestamp_seconds{module=\"updates\"}"),
        "{out}"
    );
}

/// The cardinality rule, asserted rather than trusted. A PID label would
/// start a new time series on every restart.
#[test]
fn no_metric_carries_a_pid_a_path_or_an_error_string() {
    let mut s = HealthState::new();
    s.set(State::Failed);
    let d = s.update();
    d.telegraf_pid = Some(31337);
    d.last_telegraf_exit =
        Some("exit code 137: /run/muninn/telegraf.conf unreadable".into());
    d.telegraf_version = Some("1.39.2".into());
    let out = render(&s, "0.1.0");
    assert!(!out.contains("31337"), "a PID reached the metrics:\n{out}");
    assert!(
        !out.contains("/run/muninn"),
        "a path reached the metrics:\n{out}"
    );
    assert!(
        !out.contains("unreadable"),
        "an error string reached the metrics:\n{out}"
    );
}

/// Every label muninn emits is safe today; escaping means a future one taken
/// from configuration cannot break the exposition format.
#[test]
fn label_values_are_escaped() {
    let mut s = HealthState::new();
    s.update().telegraf_version = Some("1.0\"; evil=\"".into());
    let out = render(&s, "0.1.0");
    assert!(out.contains(r#"telegraf_version="1.0\"; evil=\""#), "{out}");
    // One label pair per line, still parseable.
    let info = out.lines().find(|l| l.starts_with("muninn_info")).unwrap();
    assert_eq!(info.matches("} 1").count(), 1, "{info}");
}

/// Two scrapes of an unchanged state must produce the same series in the
/// same order, or every scrape looks like a change.
#[test]
fn rendering_is_stable_between_scrapes() {
    let mut s = ready_state();
    s.record_module_check("updates", true);
    s.record_module_check("docker", true);
    let strip = |t: String| {
        t.lines()
            .filter(|l| !l.starts_with("muninn_uptime_seconds"))
            .collect::<Vec<_>>()
            .join("\n")
    };
    assert_eq!(strip(render(&s, "0.1.0")), strip(render(&s, "0.1.0")));
}

#[test]
fn an_unknown_telegraf_version_is_stated_rather_than_left_blank() {
    let out = render(&HealthState::new(), "0.1.0");
    assert!(out.contains("telegraf_version=\"unknown\""), "{out}");
}

#[test]
fn readiness_holds_only_where_telegraf_is_collecting() {
    assert!(State::Ready.is_ready());
    assert!(
        State::Degraded.is_ready(),
        "a failing non-critical module must not take a working agent out of service"
    );
    for s in State::all() {
        if s != State::Ready && s != State::Degraded {
            assert!(!s.is_ready(), "{s:?} must not report ready");
        }
    }
}

/// Liveness and readiness answer different questions. Everything before
/// `Ready` is live — muninn is working, it is just not finished starting.
#[test]
fn liveness_is_a_different_question_from_readiness() {
    for s in State::all() {
        let expected = !matches!(s, State::Failed | State::Stopped);
        assert_eq!(s.is_live(), expected, "{s:?}");
    }
    assert!(
        State::Starting.is_live() && !State::Starting.is_ready(),
        "starting is live but not ready — the whole reason they are separate"
    );
}

#[test]
fn every_state_has_a_distinct_name_and_survives_the_atomic() {
    let mut seen = std::collections::HashSet::new();
    for s in State::all() {
        assert!(seen.insert(s.as_str()), "{s:?} shares a name");
        assert_eq!(State::from_u8(s.as_u8()), s, "{s:?} did not round-trip");
    }
    assert_eq!(seen.len(), 12, "the documented machine has twelve states");
}

/// Reading from an atomic means an out-of-range value is representable. A
/// panic in a health handler would turn a reporting bug into an outage.
#[test]
fn an_unknown_discriminant_does_not_panic() {
    assert_eq!(State::from_u8(200), State::Stopped);
}

#[test]
fn set_returns_the_previous_state() {
    let mut s = HealthState::new();
    assert_eq!(s.get(), State::Starting);
    assert_eq!(s.set(State::Ready), State::Starting);
    assert_eq!(s.get(), State::Ready);
}

#[test]
fn details_can_be_updated_and_read_back() {
    let mut s = HealthState::new();
    let d = s.update();
    d.telegraf_pid = Some(17);
    d.modules = vec!["cpu".into(), "memory".into()];
    let d = s.details();
    assert_eq!(d.telegraf_pid, Some(17));
    assert_eq!(d.modules, vec!["cpu", "memory"]);
}

#[test]
fn module_checks_are_stamped_and_ordered() {
    let mut s = HealthState::new();
    s.record_module_check("updates", false);
    s.record_module_check("docker", true);
    let d = s.details();
    let keys = d.module_checks.keys();
    // A fixed order, so /metrics output does not reshuffle between
    // scrapes and produce a meaningless diff.
    let names: Vec<&str> = keys.iter().map(String::as_str).collect();
    assert_eq!(names, vec!["docker", "updates"]);
    assert!(!d.module_checks.get("updates").unwrap().success);
    assert!(
        d.module_checks.get("updates").unwrap().at > 0,
        "should carry a timestamp"
    );
}

#[test]
fn restarts_are_counted() {
    let mut s = HealthState::new();
    assert_eq!(s.telegraf_restarts(), 0);
    s.record_telegraf_restart();
    s.record_telegraf_restart();
    assert_eq!(s.telegraf_restarts(), 2);
}


#[test]
fn liveness_holds_while_starting_but_readiness_does_not() {
    let health = HealthState::new();
    let l = live(health.get());
    assert_eq!(l.code, 200, "starting is live");
    assert_eq!(l.status, "ok");
    let r = ready(&health);
    assert_eq!(r.code, 503, "starting is not ready");
    assert_eq!(r.status, "not_ready");
}

#[test]
fn readiness_follows_the_state_as_it_changes() {
    let mut health = HealthState::new();
    health.set(State::Ready);
    let d = health.update();
    d.telegraf_pid = Some(4242);
    d.telegraf_version = Some("1.39.2".into());
    let r = ready(&health);
    assert_eq!(r.code, 200);
    assert!(r.telegraf.running);
    assert_eq!(r.telegraf.pid, Some(4242));

    // ...and back again, which is what a shutdown does.
    health.set(State::Stopping);
    assert_eq!(ready(&health).code, 503, "stopping must stop reporting ready");
}

#[test]
fn degraded_still_reports_ready() {
    let mut health = HealthState::new();
    health.set(State::Degraded);
    health.update().telegraf_pid = Some(1);
    let r = ready(&health);
    assert_eq!(r.code, 200);
    assert_eq!(r.state, "degraded");
}

#[test]
fn a_failed_agent_still_serves_and_says_why() {
    let mut health = HealthState::new();
    health.set(State::Failed);
    health.update().last_telegraf_exit = Some("exit code 137".into());
    let r = ready(&health);
    assert_eq!(r.code, 503);
    assert_eq!(r.telegraf.last_exit.as_deref(), Some("exit code 137"));
    assert_eq!(live(health.get()).code, 503, "a failed agent is not live either");
}

#[test]
fn status_reports_what_is_enabled() {
    let mut health = HealthState::new();
    health.set(State::Ready);
    let d = health.update();
    d.telegraf_pid = Some(17);
    d.telegraf_version = Some("1.39.2".into());
    d.modules = vec!["cpu".into(), "memory".into()];
    d.outputs = vec!["prometheus".into()];
    health.record_module_check("cpu", true);
    let s = status(&health, "0.1.0");
    assert_eq!(s.muninn_version, "0.1.0");
    assert_eq!(s.telegraf_version.as_deref(), Some("1.39.2"));
    assert_eq!(s.modules, ["cpu", "memory"]);
    assert_eq!(s.outputs, ["prometheus"]);
    assert_eq!(s.module_checks.len(), 1);
    assert!(s.ready);
}

#[test]
fn status_carries_no_secret_and_no_configuration_dump() {
    let mut health = HealthState::new();
    health.set(State::Ready);
    let d = health.update();
    d.telegraf_pid = Some(17);
    d.modules = vec!["cpu".into()];
    let body = format!("{:?}", status(&health, "0.1.0"));
    for forbidden in ["token", "password", "secret", "[[inputs", "telegraf.conf"] {
        assert!(!body.contains(forbidden), "/status leaked {forbidden:?}: {body}");
    }
}

#[test]
fn metrics_are_served_in_prometheus_text_format() {
    let mut health = HealthState::new();
    health.set(State::Ready);
    health.update().telegraf_pid = Some(17);
    let body = render(&health, "0.1.0");
    assert!(body.contains("# TYPE muninn_ready gauge"), "{body}");
    assert!(body.contains("muninn_ready 1"), "{body}");
}

/// The server and the supervisor hold the state together; if the two diverged,
/// readiness would report a state the supervisor has already left.
#[test]
fn a_clone_observes_the_same_state() {
    let a = Arc::new(RwLock::new(HealthState::new()));
    let b = Arc::clone(&a);
    a.write().unwrap().set(State::Ready);
    assert_eq!(b.read().unwrap().get(), State::Ready);
    b.write().unwrap().set(State::Stopping);
    assert_eq!(a.read().unwrap().get(), State::Stopping);
    assert!(!a.read().unwrap().is_ready());
}

/// The states are ordered as a start and a stop go through them.
#[test]
fn states_are_ordered() {
    let all = State::all();
    assert!(all.windows(2).all(|w| w[0] < w[1]));
    assert!(State::Starting < State::Ready && State::Ready < State::Stopped);
}
