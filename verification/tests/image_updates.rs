//! Newer images for running containers: the verdict, the Docker API and registry
//! credentials.

use std::cell::RefCell;

use muninn::config::host::{FileFacts, Host};
use muninn::config::model::RegistryAuth;
use muninn::duration::ConfigDuration;
use muninn::modules::image_updates::check::{
    check, check_within, escape_tag, find_local_digest, glob_match, normalize_repository, passes_filters, run,
    split_reference, ContainerCheck, ContainerReason, DaemonReason, Report,
    MEASUREMENT_CONTAINER,
};
use muninn::modules::image_updates::docker_api::{
    body_excerpt, containers_path, digests_answer, distribution_path, exchange, header,
    image_path, list_answer, parse_container_list, parse_remote_digest, parse_repo_digests,
    request, Client, Container, DockerApi, Response, MAX_RESPONSE_BYTES, RUNNING_FILTER,
};
use muninn::modules::image_updates::registry_auth::{
    base64url, header_for, resolve, RegistryCredential,
};
use muninn::modules::{Endpoint, EndpointKind};
use muninn::secret::{FileRead, Secret};

fn raw_of(response: &str) -> Vec<u8> {
    response.as_bytes().to_vec()
}

/// A [`DockerApi`] that answers from a script rather than from a daemon.
///
/// This is the point of the seam: every branch of [`check_one`] is
/// reachable here, including the ones a real daemon is hard to talk into
/// producing — an image whose `RepoDigests` names a different repository,
/// a distribution query that fails while the image inspect succeeded.
struct FakeApi {
    containers: Result<Vec<Container>, String>,
    digests: Vec<(String, Result<Vec<String>, String>)>,
    remote: Vec<(String, Result<String, String>)>,
    asked: RefCell<Vec<String>>,
}

impl FakeApi {
    fn with(containers: Vec<Container>) -> Self {
        FakeApi {
            containers: Ok(containers),
            digests: Vec::new(),
            remote: Vec::new(),
            asked: RefCell::new(Vec::new()),
        }
    }

    fn unreachable() -> Self {
        FakeApi {
            containers: Err("connection refused".to_string()),
            digests: Vec::new(),
            remote: Vec::new(),
            asked: RefCell::new(Vec::new()),
        }
    }

    fn digest(mut self, image_id: &str, digests: Result<Vec<String>, String>) -> Self {
        self.digests.push((image_id.to_string(), digests));
        self
    }

    fn remote(mut self, reference: &str, digest: Result<String, String>) -> Self {
        self.remote.push((reference.to_string(), digest));
        self
    }

    fn asked(&self) -> Vec<String> {
        self.asked.borrow().clone()
    }
}

impl DockerApi for FakeApi {
    fn list_running_containers(&self) -> Result<Vec<Container>, String> {
        copied(&self.containers)
    }

    fn repo_digests(&self, image_id: &str) -> Result<Vec<String>, String> {
        self.asked.borrow_mut().push(format!("inspect {image_id}"));
        self.digests
            .iter()
            .find(|(id, _)| id == image_id)
            .map(|(_, d)| d.clone())
            .unwrap_or_else(|| Err(format!("no scripted inspect for {image_id}")))
    }

    fn remote_digest(&self, reference: &str) -> Result<String, String> {
        self.asked.borrow_mut().push(format!("resolve {reference}"));
        self.remote
            .iter()
            .find(|(r, _)| r == reference)
            .map(|(_, d)| d.clone())
            .unwrap_or_else(|| Err(format!("no scripted resolve for {reference}")))
    }
}

fn copied(list: &Result<Vec<Container>, String>) -> Result<Vec<Container>, String> {
    match list {
        Ok(v) => Ok(v.iter().map(|c| c.copy()).collect()),
        Err(e) => Err(e.clone()),
    }
}

fn container(name: &str, image: &str, image_id: &str) -> Container {
    Container {
        name: name.to_string(),
        image_reference: image.to_string(),
        image_id: image_id.to_string(),
    }
}

/// Long enough that no test in this file is about the budget unless it
/// says so.
const GENEROUS: ConfigDuration = ConfigDuration { secs: 60, nanos: 0 };

fn only(report: &Report) -> &ContainerCheck {
    assert_eq!(report.containers.len(), 1, "expected exactly one container");
    &report.containers[0]
}

// ── The verdict ─────────────────────────────────────────────────────────

#[test]
fn a_tag_that_moved_since_the_container_started_is_an_available_update() {
    let api = FakeApi::with(vec![container("web", "nginx:1.25", "sha256:aaaa")])
        .digest("sha256:aaaa", Ok(vec!["nginx@sha256:old".to_string()]))
        .remote("nginx:1.25", Ok("sha256:new".to_string()));
    assert_eq!(only(&run(&api, GENEROUS, &vec![], &vec![])).outcome, Ok(true));
}

#[test]
fn a_tag_that_still_resolves_to_the_running_image_is_up_to_date() {
    let api = FakeApi::with(vec![container("web", "nginx:1.25", "sha256:aaaa")])
        .digest("sha256:aaaa", Ok(vec!["nginx@sha256:same".to_string()]))
        .remote("nginx:1.25", Ok("sha256:same".to_string()));
    assert_eq!(only(&run(&api, GENEROUS, &vec![], &vec![])).outcome, Ok(false));
}

/// A missing tag means `latest`, and the resolve has to ask for it
/// explicitly — `/distribution/nginx/json` is a different route.
#[test]
fn a_bare_reference_is_resolved_against_the_latest_tag() {
    let api = FakeApi::with(vec![container("web", "nginx", "sha256:aaaa")])
        .digest("sha256:aaaa", Ok(vec!["nginx@sha256:x".to_string()]))
        .remote("nginx:latest", Ok("sha256:x".to_string()));
    assert_eq!(only(&run(&api, GENEROUS, &vec![], &vec![])).outcome, Ok(false));
    assert!(api.asked().contains(&"resolve nginx:latest".to_string()));
}

/// The image is looked up by the ID the container is *running*, not by its
/// tag — that is what makes the verdict about this container rather than
/// about whatever the tag points to on the host right now. ADR-0013.
#[test]
fn the_image_is_inspected_by_the_running_id_not_by_the_tag() {
    let api = FakeApi::with(vec![container("web", "nginx:1.25", "sha256:running")])
        .digest("sha256:running", Ok(vec!["nginx@sha256:x".to_string()]))
        .remote("nginx:1.25", Ok("sha256:x".to_string()));
    run(&api, GENEROUS, &vec![], &vec![]);
    assert!(
        api.asked().contains(&"inspect sha256:running".to_string()),
        "{:?}",
        api.asked()
    );
}

// ── Repository normalisation ────────────────────────────────────────────

/// The regression this normalisation exists for: a container created as
/// `docker.io/library/nginx` runs an image that records the familiar
/// `nginx@sha256:...`, and comparing those literally reports
/// `no_matching_repo_digest` for an entirely ordinary container.
#[test]
fn a_fully_qualified_hub_reference_matches_the_familiar_repo_digest() {
    let api = FakeApi::with(vec![container(
        "web",
        "docker.io/library/nginx:1.25",
        "sha256:aaaa",
    )])
    .digest("sha256:aaaa", Ok(vec!["nginx@sha256:x".to_string()]))
    .remote("docker.io/library/nginx:1.25", Ok("sha256:y".to_string()));
    let report = run(&api, GENEROUS, &vec![], &vec![]);
    assert_eq!(
        only(&report).outcome,
        Ok(true),
        "{:?}",
        only(&report).detail
    );
}

#[test]
fn the_library_prefix_alone_also_matches() {
    let api = FakeApi::with(vec![container("web", "library/nginx:1.25", "sha256:aaaa")])
        .digest("sha256:aaaa", Ok(vec!["nginx@sha256:x".to_string()]))
        .remote("library/nginx:1.25", Ok("sha256:x".to_string()));
    assert_eq!(only(&run(&api, GENEROUS, &vec![], &vec![])).outcome, Ok(false));
}

#[test]
fn every_spelling_of_a_hub_repository_normalises_to_one() {
    for spelling in [
        "nginx",
        "library/nginx",
        "docker.io/library/nginx",
        "index.docker.io/library/nginx",
    ] {
        assert_eq!(
            normalize_repository(spelling),
            "docker.io/library/nginx",
            "{spelling}"
        );
    }
    for spelling in ["myuser/myapp", "docker.io/myuser/myapp"] {
        assert_eq!(
            normalize_repository(spelling),
            "docker.io/myuser/myapp",
            "{spelling}"
        );
    }
}

/// A registry host is left alone: `ghcr.io/org/app` has no familiar short
/// form, and inventing one would break the match in the other direction.
#[test]
fn a_private_registry_repository_is_left_as_it_is() {
    for repo in [
        "ghcr.io/org/app",
        "registry.example.com:5000/team/app",
        "localhost:5000/app",
    ] {
        assert_eq!(normalize_repository(repo), repo);
    }
}

#[test]
fn a_digest_for_a_different_repository_does_not_count_as_a_match() {
    let api = FakeApi::with(vec![container("web", "nginx:1.25", "sha256:aaaa")]).digest(
        "sha256:aaaa",
        Ok(vec!["ghcr.io/org/nginx@sha256:x".to_string()]),
    );
    assert_eq!(
        only(&run(&api, GENEROUS, &vec![], &vec![])).outcome,
        Err(ContainerReason::NoMatchingRepoDigest)
    );
}

// ── The reasons ─────────────────────────────────────────────────────────

#[test]
fn a_locally_built_image_says_so_rather_than_reporting_up_to_date() {
    let api = FakeApi::with(vec![container("app", "myapp:dev", "sha256:aaaa")])
        .digest("sha256:aaaa", Ok(vec![]));
    assert_eq!(
        only(&run(&api, GENEROUS, &vec![], &vec![])).outcome,
        Err(ContainerReason::NoRepoDigest)
    );
}

#[test]
fn a_digest_pinned_container_has_no_verdict() {
    let api = FakeApi::with(vec![container("web", "nginx@sha256:abcdef", "sha256:aaaa")]);
    assert_eq!(
        only(&run(&api, GENEROUS, &vec![], &vec![])).outcome,
        Err(ContainerReason::DigestPinnedReference)
    );
}

/// `docker ps` shows the image ID under IMAGE once the last tag for a
/// running container's image is removed.
#[test]
fn an_image_id_where_a_reference_belongs_is_named_as_such() {
    for image in ["sha256:aaaa", "sha256:0123456789abcdef"] {
        let api = FakeApi::with(vec![container("orphan", image, "sha256:aaaa")]);
        assert_eq!(
            only(&run(&api, GENEROUS, &vec![], &vec![])).outcome,
            Err(ContainerReason::ImageIdReference),
            "{image}"
        );
    }
}

#[test]
fn a_failed_image_inspect_carries_the_daemons_own_message() {
    let api = FakeApi::with(vec![container("web", "nginx:1.25", "sha256:aaaa")])
        .digest("sha256:aaaa", Err("no such image".to_string()));
    let report = run(&api, GENEROUS, &vec![], &vec![]);
    assert_eq!(
        only(&report).outcome,
        Err(ContainerReason::ImageInspectFailed)
    );
    assert_eq!(only(&report).detail.as_deref(), Some("no such image"));
}

#[test]
fn an_unreachable_registry_degrades_only_that_container() {
    let api = FakeApi::with(vec![
        container("web", "nginx:1.25", "sha256:aaaa"),
        container("db", "postgres:16", "sha256:bbbb"),
    ])
    .digest("sha256:aaaa", Ok(vec!["nginx@sha256:x".to_string()]))
    .remote("nginx:1.25", Err("i/o timeout".to_string()))
    .digest("sha256:bbbb", Ok(vec!["postgres@sha256:y".to_string()]))
    .remote("postgres:16", Ok("sha256:y".to_string()));

    let report = run(&api, GENEROUS, &vec![], &vec![]);
    assert_eq!(
        report.containers[0].outcome,
        Err(ContainerReason::DistributionQueryFailed)
    );
    assert_eq!(
        report.containers[1].outcome,
        Ok(false),
        "one container's failure must not touch another's verdict"
    );
    assert!(report.daemon_succeeded());
}

#[test]
fn an_unlistable_daemon_reports_no_containers_at_all() {
    let report = run(&FakeApi::unreachable(), GENEROUS, &vec![], &vec![]);
    assert_eq!(report.daemon_outcome, Err(DaemonReason::DockerUnreachable));
    assert!(report.containers.is_empty());
    assert_eq!(report.detail.as_deref(), Some("connection refused"));
}

// ── The budget ──────────────────────────────────────────────────────────

/// A zero budget is the boundary case of the real one. Telegraf killing an
/// overrunning helper loses every result; here the containers that were
/// not reached say so, and nothing is silently missing.
#[test]
fn containers_not_reached_within_the_budget_report_that_rather_than_vanishing() {
    let api = FakeApi::with(vec![
        container("a", "nginx:1", "sha256:a"),
        container("b", "nginx:2", "sha256:b"),
    ]);
    let report = run(&api, ConfigDuration::from_secs(0), &vec![], &vec![]);
    assert!(report.daemon_succeeded());
    assert_eq!(report.containers.len(), 2);
    for c in &report.containers {
        assert_eq!(c.outcome, Err(ContainerReason::BudgetExceeded));
    }
    assert!(
        api.asked().is_empty(),
        "an exhausted budget must not still make calls: {:?}",
        api.asked()
    );
}

#[test]
fn a_budget_that_is_not_exhausted_changes_nothing() {
    let api = FakeApi::with(vec![container("web", "nginx:1.25", "sha256:aaaa")])
        .digest("sha256:aaaa", Ok(vec!["nginx@sha256:x".to_string()]))
        .remote("nginx:1.25", Ok("sha256:x".to_string()));
    assert_eq!(only(&run(&api, GENEROUS, &vec![], &vec![])).outcome, Ok(false));
}

#[test]
fn the_budget_is_spent_from_its_last_nanosecond_on() {
    let api = FakeApi::with(vec![])
        .digest("sha256:aaaa", Ok(vec!["nginx@sha256:x".to_string()]))
        .remote("nginx:1.25", Ok("sha256:x".to_string()));
    let web = || container("web", "nginx:1.25", "sha256:aaaa");
    let just_in = ConfigDuration::new(59, 999_999_999);
    assert_eq!(check_within(&api, web(), just_in, GENEROUS).outcome, Ok(false));
    assert_eq!(api.asked().len(), 2);
    for late in [GENEROUS, ConfigDuration::new(60, 1), ConfigDuration::new(61, 0)] {
        let c = check_within(&api, web(), late, GENEROUS);
        assert_eq!(c.outcome, Err(ContainerReason::BudgetExceeded));
        assert_eq!((c.name.as_str(), c.image.as_str()), ("web", "nginx:1.25"));
    }
    assert_eq!(api.asked().len(), 2, "nothing is asked once the budget is spent");
}

// ── Filtering ───────────────────────────────────────────────────────────

#[test]
fn a_filtered_out_container_costs_no_api_call() {
    let api = FakeApi::with(vec![
        container("app-1", "nginx:1", "sha256:a"),
        container("build-1", "nginx:1", "sha256:b"),
    ])
    .digest("sha256:a", Ok(vec![]));
    let report = run(&api, GENEROUS, &vec!["app-*".to_string()], &vec![]);
    assert_eq!(report.containers.len(), 1);
    assert_eq!(report.containers[0].name, "app-1");
    assert!(
        !api.asked().iter().any(|c| c.contains("sha256:b")),
        "{:?}",
        api.asked()
    );
}

#[test]
fn an_empty_include_list_admits_everything_not_excluded() {
    assert!(passes_filters("anything", &vec![], &vec![]));
    assert!(!passes_filters(
        "build-agent",
        &vec![],
        &vec!["build-*".to_string()]
    ));
}

#[test]
fn a_non_empty_include_list_is_an_allow_list() {
    let admitted = vec!["app-*".to_string()];
    assert!(passes_filters("app-1", &admitted, &vec![]));
    assert!(!passes_filters("worker-1", &admitted, &vec![]));
}

// ── The top-level entry point ───────────────────────────────────────────

/// Validation rejects this before rendering, but `image-check` is a
/// documented command an operator can run by hand — a typo there must
/// produce the same honest failure as every other precondition, not a
/// panic.
#[test]
fn an_endpoint_with_no_known_scheme_is_a_daemon_level_failure() {
    let report = check(
        "/var/run/docker.sock",
        ConfigDuration::from_secs(1),
        ConfigDuration::from_secs(1),
        GENEROUS,
        &vec![],
        &vec![],
        |_client| FakeApi::unreachable(),
    );
    assert_eq!(report.daemon_outcome, Err(DaemonReason::InvalidEndpoint));
    assert!(report.containers.is_empty());
}

// ── Reference splitting ─────────────────────────────────────────────────

#[test]
fn a_bare_name_defaults_to_the_latest_tag() {
    assert_eq!(
        split_reference("nginx"),
        Some(("nginx".to_string(), "latest".to_string()))
    );
}

#[test]
fn an_explicit_tag_is_split_off() {
    assert_eq!(
        split_reference("nginx:1.25"),
        Some(("nginx".to_string(), "1.25".to_string()))
    );
}

/// The case the naive `rsplit_once(':')` would get wrong: a registry port
/// must not be mistaken for a tag separator.
#[test]
fn a_registry_port_is_not_mistaken_for_a_tag() {
    assert_eq!(
        split_reference("registry.example.com:5000/team/app"),
        Some((
            "registry.example.com:5000/team/app".to_string(),
            "latest".to_string()
        ))
    );
    assert_eq!(
        split_reference("registry.example.com:5000/team/app:v2"),
        Some((
            "registry.example.com:5000/team/app".to_string(),
            "v2".to_string()
        ))
    );
}

#[test]
fn a_digest_pinned_reference_has_no_tag() {
    assert_eq!(
        split_reference("nginx@sha256:abcdef0123456789"),
        None,
        "a digest-pinned reference has nothing to compare a tag against"
    );
}

// ── Glob matching ───────────────────────────────────────────────────────

#[test]
fn a_star_matches_any_suffix() {
    assert!(glob_match("build-*", "build-agent-1"));
    assert!(!glob_match("build-*", "worker-1"));
}

#[test]
fn an_exact_pattern_matches_only_itself() {
    assert!(glob_match("redis", "redis"));
    assert!(!glob_match("redis", "redis-2"));
}

#[test]
fn a_lone_star_matches_everything_including_empty() {
    assert!(glob_match("*", ""));
    assert!(glob_match("*", "anything"));
}

#[test]
fn question_mark_matches_exactly_one_character() {
    assert!(glob_match("db?", "db1"));
    assert!(!glob_match("db?", "db12"));
}

// ── Line protocol ───────────────────────────────────────────────────────

#[test]
fn a_daemon_failure_omits_every_container_line() {
    let report = Report {
        daemon_outcome: Err(DaemonReason::DockerUnreachable),
        containers: Vec::new(),
        at: 1_754_000_000,
        detail: Some("connection refused".to_string()),
    };
    let out = report.line_protocol();
    assert!(out.contains("check_success=0i"), "{out}");
    assert!(out.contains("reason=docker_unreachable"), "{out}");
    assert!(!out.contains(MEASUREMENT_CONTAINER), "{out}");
}

#[test]
fn an_available_update_is_reported_as_one() {
    let check = ContainerCheck {
        name: "web".to_string(),
        image: "nginx:latest".to_string(),
        outcome: Ok(true),
        at: 1_754_000_000,
        detail: None,
    };
    let out = check.line_protocol();
    assert!(
        out.contains("muninn_container_image_updates,container_name=web,image=nginx:latest update_available=1i"),
        "{out}"
    );
    assert!(out.contains("check_success=1i"), "{out}");
}

#[test]
fn an_up_to_date_container_reports_zero_not_a_missing_metric() {
    let check = ContainerCheck {
        name: "web".to_string(),
        image: "nginx:latest".to_string(),
        outcome: Ok(false),
        at: 1_754_000_000,
        detail: None,
    };
    assert!(check.line_protocol().contains("update_available=0i"));
}

/// The module's whole reason to exist, stated as a test: a container whose
/// verdict could not be determined must never carry `update_available`
/// either way — that would be indistinguishable from a real answer.
#[test]
fn a_failed_container_check_never_reports_update_available() {
    for reason in ContainerReason::all() {
        let check = ContainerCheck {
            name: "web".to_string(),
            image: "nginx:latest".to_string(),
            outcome: Err(reason),
            at: 1_754_000_000,
            detail: None,
        };
        let out = check.line_protocol();
        assert!(out.contains("check_success=0i"), "{reason:?}: {out}");
        assert!(
            !out.contains("update_available"),
            "{reason:?} must not carry an answer: {out}"
        );
    }
}

#[test]
fn container_reasons_are_unique_low_cardinality_tokens() {
    let mut seen = std::collections::HashSet::new();
    for r in ContainerReason::all() {
        let s = r.as_str();
        assert!(seen.insert(s), "{s} appears twice");
        assert!(
            s.chars().all(|c| c.is_ascii_lowercase() || c == '_'),
            "{s} is not a plain token"
        );
    }
}

#[test]
fn tag_values_with_line_protocol_delimiters_are_escaped() {
    assert_eq!(escape_tag("a,b=c d"), "a\\,b\\=c\\ d");
}

/// Line protocol has no escape for a newline: it ends the line, and
/// whatever follows parses as another measurement. A tag value muninn did
/// not choose must not be able to fabricate a series, however firmly
/// Docker's own grammar says it cannot contain one.
#[test]
fn a_control_character_in_a_tag_value_cannot_start_a_new_line() {
    let check = ContainerCheck {
        name: "web\nmuninn_container_image_updates,container_name=fake".to_string(),
        image: "nginx:latest".to_string(),
        outcome: Ok(false),
        at: 1_754_000_000,
        detail: None,
    };
    let out = check.line_protocol();
    assert_eq!(
        out.lines().count(),
        2,
        "one check line and one verdict line, no injected third: {out}"
    );
    assert!(!out.contains("web\n"), "{out}");
}

// ── Parsing ─────────────────────────────────────────────────────────────

/// A trimmed-down but otherwise verbatim `GET /containers/json` response.
const CONTAINER_LIST: &str = r#"[
  {"Id":"9c1f2b3a4d5e6f708192a3b4c5d6e7f8",
   "Names":["/web"],
   "Image":"nginx:1.25",
   "ImageID":"sha256:aaaa",
   "State":"running"},
  {"Id":"1a2b3c4d5e6f708192a3b4c5d6e7f809",
   "Names":["/db","/compose_db_1"],
   "Image":"postgres:16",
   "ImageID":"sha256:bbbb",
   "State":"running"}
]"#;

#[test]
fn the_container_list_maps_names_images_and_ids() {
    let got = parse_container_list(&CONTAINER_LIST.as_bytes().to_vec()).unwrap();
    assert_eq!(
        got,
        vec![
            Container {
                name: "web".to_string(),
                image_reference: "nginx:1.25".to_string(),
                image_id: "sha256:aaaa".to_string(),
            },
            Container {
                name: "db".to_string(),
                image_reference: "postgres:16".to_string(),
                image_id: "sha256:bbbb".to_string(),
            },
        ]
    );
}

/// The Engine API prepends `/` to every name, and muninn's metric tag must
/// not carry it — `container_name="/web"` would not match what an operator
/// types into `container_include`.
#[test]
fn the_leading_slash_the_engine_api_adds_is_stripped() {
    let got = parse_container_list(&br#"[{"Id":"abc","Names":["/web"],"Image":"nginx","ImageID":"sha256:a"}]"#.to_vec())
    .unwrap();
    assert_eq!(got[0].name, "web");
}

#[test]
fn a_container_with_no_name_falls_back_to_a_short_id() {
    let got = parse_container_list(&br#"[{"Id":"9c1f2b3a4d5e6f708192a3b4c5d6e7f8","Names":[],"Image":"nginx","ImageID":"sha256:a"}]"#.to_vec())
    .unwrap();
    assert_eq!(got[0].name, "9c1f2b3a4d5e");
}

/// `Names` absent entirely, not merely empty — the field is `#[serde(default)]`
/// precisely so an older API version cannot make the whole list unparseable.
#[test]
fn a_missing_names_field_does_not_fail_the_whole_list() {
    let got = parse_container_list(&br#"[{"Id":"abcdefghijklmno","Image":"nginx","ImageID":"sha256:a"}]"#.to_vec())
    .unwrap();
    assert_eq!(got[0].name, "abcdefghijkl");
}

#[test]
fn an_empty_container_list_is_not_an_error() {
    assert!(parse_container_list(&b"[]".to_vec()).unwrap().is_empty());
}

#[test]
fn a_container_list_that_is_not_json_is_named_as_such() {
    let e = parse_container_list(&b"<html>nope</html>".to_vec()).unwrap_err();
    assert!(e.contains("container list"), "{e}");
}

#[test]
fn repo_digests_are_read_from_the_image_inspect() {
    let got = parse_repo_digests(&br#"{"Id":"sha256:aaaa","RepoTags":["nginx:1.25"],"RepoDigests":["nginx@sha256:dead","nginx@sha256:beef"]}"#.to_vec())
    .unwrap();
    assert_eq!(got, vec!["nginx@sha256:dead", "nginx@sha256:beef"]);
}

/// A locally built image has no `RepoDigests` at all in some API versions
/// and an empty array in others. Both must mean the same thing, and
/// neither may be an error — the caller turns emptiness into a reason.
#[test]
fn an_image_that_was_never_pulled_has_no_repo_digests() {
    assert!(
        parse_repo_digests(&br#"{"Id":"sha256:aaaa"}"#.to_vec())
            .unwrap()
            .is_empty()
    );
    assert!(
        parse_repo_digests(&br#"{"Id":"sha256:aaaa","RepoDigests":[]}"#.to_vec())
            .unwrap()
            .is_empty()
    );
}

#[test]
fn the_remote_digest_is_read_from_the_descriptor() {
    let got = parse_remote_digest(&br#"{"Descriptor":{"mediaType":"application/vnd.oci.image.index.v1+json","digest":"sha256:cafe","size":1234},"Platforms":[]}"#.to_vec())
    .unwrap();
    assert_eq!(got, "sha256:cafe");
}

#[test]
fn a_distribution_response_without_a_descriptor_is_an_error() {
    let e = parse_remote_digest(&br#"{"Platforms":[]}"#.to_vec()).unwrap_err();
    assert!(e.contains("distribution inspect"), "{e}");
}

// ── Transport ───────────────────────────────────────────────────────────

#[test]
fn a_json_body_is_read_in_full() {
    let raw = raw_of(
        "HTTP/1.1 200 OK\r\nContent-Type: application/json\r\nContent-Length: 13\r\n\r\n{\"Id\":\"abc\"}",
    );
    let resp = exchange("/containers/json", &raw).unwrap();
    assert_eq!(resp.status, 200);
    assert_eq!(resp.body, b"{\"Id\":\"abc\"}");
    let written = request("/containers/json").unwrap();
    assert!(written.starts_with("GET /containers/json HTTP/1.1"));
    assert!(written.contains("Connection: close"));
}

/// Content-Length is a safety net, not the primary signal — the body must
/// still be readable when it is absent, because `Connection: close` alone
/// already delimits the response.
#[test]
fn a_body_without_content_length_is_still_read() {
    let raw = raw_of("HTTP/1.1 200 OK\r\n\r\n{\"RepoDigests\":[]}");
    let resp = exchange("/images/x/json", &raw).unwrap();
    assert_eq!(resp.body, b"{\"RepoDigests\":[]}");
}

/// `read_to_end` on a socket is an unbounded allocation, and none of the
/// endpoints this client calls has any business returning megabytes.
#[test]
fn a_response_past_the_size_cap_is_refused_rather_than_buffered() {
    let mut oversized = "HTTP/1.1 200 OK\r\n\r\n".to_string();
    oversized.push_str(&"a".repeat(MAX_RESPONSE_BYTES as usize + 1));
    let raw = raw_of(&oversized);
    let e = exchange("/containers/json", &raw).unwrap_err();
    assert!(e.contains("exceeded"), "{e}");
}

/// `get` is the one choke point every path this module builds passes
/// through, so the check belongs there rather than at each call site —
/// and it must run *before* any I/O, which this proves by pointing the
/// endpoint at a port nothing listens on: the error names the control
/// character, not a connection failure.
#[test]
fn a_control_character_in_the_path_is_refused_before_any_request_is_sent() {
    for path in ["/images/x\r\nGET /secret HTTP/1.1/json", "/images/x y/json"] {
        let e = request(path).unwrap_err();
        assert!(
            e.contains("control character") || e.contains("space"),
            "{path:?}: {e}"
        );
    }
}

#[test]
fn a_non_200_is_reported_with_its_status() {
    let raw = raw_of(
        "HTTP/1.1 404 Not Found\r\nContent-Length: 27\r\n\r\n{\"message\":\"no such image\"}",
    );
    let resp = exchange("/images/x/json", &raw).unwrap();
    assert_eq!(resp.status, 404);
    assert_eq!(body_excerpt(&resp.body), "no such image");
}

#[test]
fn a_chunked_response_is_refused_by_name() {
    let raw = raw_of(
        "HTTP/1.1 200 OK\r\nTransfer-Encoding: chunked\r\n\r\n4\r\ntest\r\n0\r\n\r\n",
    );
    let e = exchange("/x", &raw).unwrap_err();
    assert!(e.contains("chunked"), "{e}");
}

#[test]
fn a_response_with_no_header_terminator_is_rejected() {
    let raw = raw_of("not an http response");
    assert!(exchange("/x", &raw).is_err());
}

#[test]
fn an_unparseable_error_body_falls_back_to_raw_text() {
    assert_eq!(
        body_excerpt(&b"plain text, not json".to_vec()),
        "plain text, not json"
    );
}

#[test]
fn the_running_filter_decodes_to_the_expected_json() {
    let decoded = RUNNING_FILTER
        .strip_prefix("filters=")
        .unwrap()
        .replace("%7B", "{")
        .replace("%22", "\"")
        .replace("%3A", ":")
        .replace("%5B", "[")
        .replace("%5D", "]")
        .replace("%7D", "}");
    assert_eq!(decoded, r#"{"status":["running"]}"#);
}

/// The registry call is the only one that leaves the host, and it is the
/// only one that gets the longer timeout — a 5s default that is right for
/// a local socket call is wrong for a TLS handshake plus a token exchange
/// plus a manifest fetch.
#[test]
fn only_the_registry_call_uses_the_registry_timeout() {
    let client = Client::new(
        Endpoint {
            kind: EndpointKind::Tcp("127.0.0.1:1".to_string()),
            timeout: ConfigDuration::from_secs(5),
        },
        ConfigDuration::from_secs(30),
    );
    assert_eq!(client.endpoint.timeout, ConfigDuration::from_secs(5));
    assert_eq!(client.registry_endpoint().timeout, ConfigDuration::from_secs(30));
    assert_eq!(client.registry_endpoint().kind, client.endpoint.kind);
}

fn cred(registry: &str, user: &str, pass: &str) -> RegistryCredential {
    RegistryCredential {
        registry: registry.to_string(),
        username: user.to_string(),
        password: Secret::from_value(pass),
    }
}

// RFC 4648 §10's own vectors, which is what makes this a check rather than
// a record of what the function happens to do.
#[test]
fn encodes_the_rfc_4648_vectors() {
    assert_eq!(base64url(b""), "");
    assert_eq!(base64url(b"f"), "Zg==");
    assert_eq!(base64url(b"fo"), "Zm8=");
    assert_eq!(base64url(b"foo"), "Zm9v");
    assert_eq!(base64url(b"foob"), "Zm9vYg==");
    assert_eq!(base64url(b"fooba"), "Zm9vYmE=");
    assert_eq!(base64url(b"foobar"), "Zm9vYmFy");
}

/// The whole reason this is not `base64::encode`: bytes 0xFB 0xFF encode to
/// `+/` in the standard alphabet and `-_` in this one, and the daemon's
/// decoder rejects the former.
#[test]
fn uses_the_url_safe_alphabet_not_the_standard_one() {
    let encoded = base64url(&[0xFB, 0xFF, 0xBF]);
    assert!(
        !encoded.contains('+') && !encoded.contains('/'),
        "must not emit the standard alphabet's + or /: {encoded}"
    );
    assert_eq!(encoded, "-_-_");
}

#[test]
fn a_reference_with_no_configured_registry_sends_no_header() {
    let creds = vec![cred("registry.example.com", "robot", "pw")];
    assert!(header_for(&creds, "docker.io/library/alpine:3.19").is_none());
}

#[test]
fn the_matching_registry_is_selected_by_host() {
    let creds = vec![
        cred("other.example.com", "wrong", "wrong"),
        cred("registry.example.com", "robot", "pw"),
    ];
    let header = header_for(&creds, "registry.example.com/team/app:v1").expect("a header");
    // Decoding is not this module's job, so the assertion is on the shape
    // the daemon will decode rather than on an opaque string.
    assert_eq!(
        header,
        base64url(
            br#"{"username":"robot","password":"pw","serveraddress":"registry.example.com"}"#
        )
    );
}

#[test]
fn a_port_in_the_registry_host_is_part_of_the_match() {
    let creds = vec![cred("registry.example.com:5000", "robot", "pw")];
    assert!(header_for(&creds, "registry.example.com:5000/team/app:v1").is_some());
    // Same host, no port — a different registry as far as a reference is
    // concerned, and matching it would send credentials somewhere they were
    // not configured for.
    assert!(header_for(&creds, "registry.example.com/team/app:v1").is_none());
}

#[test]
fn docker_hub_can_be_authenticated_too() {
    let creds = vec![cred("docker.io", "robot", "pw")];
    assert!(header_for(&creds, "docker.io/library/alpine:3.19").is_some());
}

/// A quote or a backslash in a password is what breaks a hand-built JSON
/// body (moby/moby#44064), so the encoder has to be a real serialiser.
#[test]
fn a_password_with_json_metacharacters_is_escaped() {
    let creds = vec![cred("r.example.com", "u", "pa\"ss\\word")];
    let header = header_for(&creds, "r.example.com/app:v1").expect("a header");
    assert_eq!(
        header,
        base64url(
            br#"{"username":"u","password":"pa\"ss\\word","serveraddress":"r.example.com"}"#
        )
    );
}

/// The encoded form is what goes into a request line built by hand, so it
/// must not be able to carry a header separator into it.
#[test]
fn the_encoded_header_never_contains_control_characters() {
    let creds = vec![cred("r.example.com", "u\r\nX-Evil: 1", "p\r\n")];
    let header = header_for(&creds, "r.example.com/app:v1").expect("a header");
    assert!(
        !header.chars().any(|c| c.is_control()),
        "base64url output must be free of control characters: {header}"
    );
}

// ── What else holds ─────────────────────────────────────────────────────────

/// A star in the text is a character like any other.
#[test]
fn wildcards_match_across_stars_and_repeats() {
    assert!(glob_match("*", "*abc"));
    assert!(glob_match("a*b*c", "a-b-b-c"));
    assert!(!glob_match("a*b*c", "a-b-b-d"));
    assert!(glob_match("*aab", "aaaab"));
    assert!(glob_match("a**", "a"));
    assert!(!glob_match("?", ""));
    assert!(glob_match("", ""));
    assert!(!glob_match("", "a"));
}

#[test]
fn normalising_twice_is_normalising_once() {
    for repo in ["nginx", "a/b", "docker.io/x", "index.docker.io/a/b", "localhost/x", "h:1", ""] {
        let once = normalize_repository(repo);
        assert_eq!(normalize_repository(&once), once, "{repo}");
    }
    assert_eq!(normalize_repository("localhost/app"), "localhost/app");
}

#[test]
fn every_spelling_finds_the_same_digest() {
    let digests = vec![
        "no-separator".to_string(),
        "ghcr.io/x@sha256:1".to_string(),
        "docker.io/library/nginx@sha256:2".to_string(),
        "nginx@sha256:3".to_string(),
    ];
    for repo in ["nginx", "library/nginx", "index.docker.io/nginx"] {
        assert_eq!(find_local_digest(&digests, repo).as_deref(), Some("sha256:2"));
    }
    assert_eq!(find_local_digest(&digests, "redis"), None);
}

/// Whatever a container is called, a failed check has no answer field, and an
/// escaped name holds no bare delimiter.
#[test]
fn a_hostile_name_cannot_forge_an_answer() {
    let check = ContainerCheck {
        name: "x update_available=1i,y\\".to_string(),
        image: "a b".to_string(),
        outcome: Err(ContainerReason::NoRepoDigest),
        at: 5,
        detail: None,
    };
    assert_eq!(
        check.line_protocol(),
        "muninn_container_image_updates,container_name=x\\ update_available\\=1i\\,y\\\\,image=a\\ b,\
         status=error,reason=no_repo_digest check_success=0i,check_timestamp_seconds=5i\n"
    );
    assert_eq!(escape_tag("\u{7f}\t"), "__");
}

#[test]
fn a_report_lists_every_container_behind_its_check() {
    let report = Report {
        daemon_outcome: Ok(1),
        containers: vec![ContainerCheck {
            name: "web".to_string(),
            image: "nginx".to_string(),
            outcome: Ok(true),
            at: 7,
            detail: None,
        }],
        at: 6,
        detail: None,
    };
    assert_eq!(
        report.line_protocol(),
        "muninn_image_updates,status=ok,reason=none check_success=1i,check_timestamp_seconds=6i,\
         containers_checked=1i\n\
         muninn_container_image_updates,container_name=web,image=nginx,status=ok,reason=none \
         check_success=1i,check_timestamp_seconds=7i\n\
         muninn_container_image_updates,container_name=web,image=nginx update_available=1i\n"
    );
    assert_eq!(DaemonReason::InvalidEndpoint.as_str(), "invalid_endpoint");
}

/// The endpoint and both timeouts reach what is connected.
#[test]
fn a_check_connects_to_the_endpoint_it_was_given() {
    let report = check(
        "unix:///var/run/docker.sock",
        ConfigDuration::from_secs(1),
        ConfigDuration::from_secs(2),
        GENEROUS,
        &vec![],
        &vec![],
        |client: Client| {
            assert_eq!(
                client.endpoint.kind,
                EndpointKind::UnixSocket("/var/run/docker.sock".to_string())
            );
            assert_eq!(client.endpoint.timeout.as_secs(), 1);
            assert_eq!(client.registry_endpoint().timeout.as_secs(), 2);
            FakeApi::with(vec![])
        },
    );
    assert_eq!(report.daemon_outcome, Ok(0));
    let refused = check(
        "tcp://",
        GENEROUS,
        GENEROUS,
        GENEROUS,
        &vec![],
        &vec![],
        |_client| FakeApi::with(vec![]),
    );
    assert_eq!(
        refused.detail.as_deref(),
        Some("'tcp://' must be unix://<path> or tcp://<host>:<port>")
    );
}

#[test]
fn the_three_paths_are_those_of_the_engine_api() {
    assert_eq!(containers_path(), format!("/containers/json?{RUNNING_FILTER}"));
    assert_eq!(image_path("sha256:a"), "/images/sha256:a/json");
    assert_eq!(distribution_path("nginx:1"), "/distribution/nginx:1/json");
    assert_eq!(
        request("/x y").unwrap_err(),
        "refusing to send a request whose path contains a control character or space: \"/x y\""
    );
    assert!(request("/a\n").unwrap_err().ends_with("\"/a\\n\""));
}

#[test]
fn headers_are_found_in_any_case() {
    let head = "HTTP/1.1 200 OK\r\nContent-Length : 3 \r\nX: a:b\r\n";
    assert_eq!(header(head, "content-length").as_deref(), Some("3"));
    assert_eq!(header(head, "x").as_deref(), Some("a:b"));
    assert_eq!(header(head, "y"), None);
}

#[test]
fn a_body_is_cut_to_its_stated_length() {
    let resp = exchange("/x", &raw_of("HTTP/1.1 +201 Created\r\ncontent-LENGTH: 2\r\n\r\nabcd")).unwrap();
    assert_eq!((resp.status, resp.body), (201, b"ab".to_vec()));
    let e = exchange("/x", &raw_of("HTTP/1.1 ok\r\n\r\n")).unwrap_err();
    assert_eq!(e, "no status code in 'HTTP/1.1 ok'");
    let e = exchange("/x", &raw_of("HTTP/1.1 70000 x\r\n\r\n")).unwrap_err();
    assert!(e.contains("no status code"), "{e}");
    let e = exchange("/x", &raw_of("\r\n\r\n")).unwrap_err();
    assert_eq!(e, "no status code in ''");
}

#[test]
fn answers_that_are_no_success_say_so() {
    let resp = |status: u16, body: &[u8]| Response {
        status,
        body: body.to_vec(),
    };
    assert_eq!(
        list_answer(&resp(500, b"{\"message\":\"no\"}")).unwrap_err(),
        "GET /containers/json answered 500: no"
    );
    assert_eq!(
        digests_answer("/images/x/json", &resp(404, b"\xffoops")).unwrap_err(),
        "GET /images/x/json answered 404: \u{fffd}oops"
    );
    assert!(list_answer(&resp(200, b"[]")).unwrap().is_empty());
    assert_eq!(body_excerpt(&vec![b'a'; 300]).len(), 200);
}

#[test]
fn documents_of_the_wrong_shape_are_refused_by_field() {
    let list = |body: &str| parse_container_list(&body.as_bytes().to_vec()).unwrap_err();
    assert_eq!(
        list("{}"),
        "could not parse the container list: invalid type: map, expected a sequence"
    );
    assert!(list("[1]").contains("expected a container summary"));
    assert!(list("[{\"Id\":\"a\"}]").contains("missing field `Image`"));
    assert!(list("[{\"Id\":1}]").contains("Id: invalid type: number `1`, expected a string"));
    assert!(list("[{\"Id\":\"a\",\"Names\":[null]}]").contains("Names: invalid type: unit value"));
    let digests = |body: &str| parse_repo_digests(&body.as_bytes().to_vec()).unwrap_err();
    assert!(digests("7").contains("expected an image inspect"));
    assert!(digests("{\"RepoDigests\":\"x\"}").contains("expected a sequence"));
    let remote = |body: &str| parse_remote_digest(&body.as_bytes().to_vec()).unwrap_err();
    assert!(remote("{\"Descriptor\":{}}").contains("missing field `digest`"));
}

/// What can be read is a credential; what cannot is a message that names the
/// registry and the path.
#[test]
fn credentials_resolve_one_by_one() {
    let entry = |registry: &str, path: &str| RegistryAuth {
        registry: registry.to_string(),
        username: "robot".to_string(),
        password_file: path.to_string(),
    };
    let host = Host {
        files: vec![FileFacts {
            path: "/p".to_string(),
            read: FileRead::Text("pw\n".to_string()),
            present: true,
        }],
        addresses: vec![],
    };
    let entries = vec![entry("a.example", "/missing"), entry("b.example", "/p")];
    let (credentials, problems) = resolve(&entries, &host);
    assert_eq!(credentials.len(), 1);
    assert_eq!(credentials[0].registry, "b.example");
    assert_eq!(credentials[0].password.expose(), "pw");
    assert_eq!(
        problems,
        vec![
            "no credential for 'a.example' — /missing: secret file '/missing': file does not exist"
        ]
    );
}

/// Every byte survives the encoding.
#[test]
fn base64url_covers_every_byte() {
    let all: Vec<u8> = (0..=255).collect();
    let text = base64url(&all);
    assert_eq!(text.len(), 344);
    assert!(text.starts_with("AAECAwQF"));
    assert!(text.ends_with("-fr7_P3-_w=="));
    assert!(text.chars().all(|c| c.is_ascii_alphanumeric() || "-_=".contains(c)));
}

#[test]
fn an_ordinary_path_is_not_affected_by_the_guard() {
    assert!(request("/distribution/nginx:latest/json").is_ok());
}

/// Only the keys that are read matter; one that is repeated elsewhere does not.
#[test]
fn a_repeated_key_in_an_ignored_object_does_no_harm() {
    let body = br#"{"Config": {"a": 1, "a": 2}, "RepoDigests": ["nginx@sha256:x"]}"#;
    assert_eq!(parse_repo_digests(&body.to_vec()).unwrap(), ["nginx@sha256:x"]);
}

/// What is not read only has to be JSON.
#[test]
fn a_part_that_is_not_read_does_no_harm() {
    let body = br#"{"Size": 1e999, "Comment": "\ud800", "RepoDigests": ["nginx@sha256:x"]}"#;
    assert_eq!(parse_repo_digests(&body.to_vec()).unwrap(), ["nginx@sha256:x"]);
    let broken = br#"{"RepoDigests": ["nginx@sha256:x"], "Size": }"#;
    assert!(parse_repo_digests(&broken.to_vec()).is_err());
    let unreadable = br#"{"RepoDigests": ["\ud800"]}"#;
    assert!(parse_repo_digests(&unreadable.to_vec()).is_err());
}

/// An array stands for an object, with its fields in order.
#[test]
fn fields_may_come_in_order_without_their_names() {
    let list = br#"[["0123456789abcdef", ["/web"], "nginx:1.25", "sha256:aaaa"]]"#;
    let found = parse_container_list(&list.to_vec()).unwrap();
    assert_eq!(found[0].name, "web");
    assert_eq!(found[0].image_reference, "nginx:1.25");
    assert_eq!(found[0].image_id, "sha256:aaaa");
    for wrong in [&br#"[["a", [], "b"]]"#[..], br#"[["a", [], "b", "c", "d"]]"#, br#"[5]"#] {
        assert!(parse_container_list(&wrong.to_vec()).is_err());
    }
    assert!(parse_repo_digests(&b"[]".to_vec()).unwrap().is_empty());
    assert_eq!(parse_repo_digests(&br#"[["d"]]"#.to_vec()).unwrap(), ["d"]);
    assert_eq!(parse_remote_digest(&br#"[["sha256:x"]]"#.to_vec()).unwrap(), "sha256:x");
    assert_eq!(body_excerpt(&br#"["no such image"]"#.to_vec()), "no such image");
    assert_eq!(body_excerpt(&br#"["a", "b"]"#.to_vec()), r#"["a", "b"]"#);
}
