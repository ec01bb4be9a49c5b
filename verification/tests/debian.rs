//! Pending package updates on the host.

use muninn::modules::updates::debian::{
    apt_arguments, apt_environment, check, first_line, lists_age, os_release_ids, parse,
    preconditions, Attempt, Counts, HostFacts, ListEntry, Reason, Report, StatusFile,
};

const NOW: u64 = 1_754_000_000;

const INDEX: &str = "deb.debian.org_debian_dists_bookworm_main_binary-amd64_Packages";

/// A minimal host tree: everything the preconditions look for.
fn host_fixture() -> HostFacts {
    HostFacts {
        is_dir: true,
        is_empty: false,
        dpkg_status: StatusFile::Present {
            size: 15,
            opens: true,
        },
        apt_etc_is_dir: true,
        apt_lists_is_dir: true,
        lists: vec![ListEntry {
            name: INDEX.to_string(),
            modified: Some(NOW - 60),
        }],
        os_release: vec!["ID=debian\nVERSION_ID=\"12\"\n".to_string()],
    }
}

fn reason_of(host: &HostFacts) -> Option<Reason> {
    preconditions("/hostfs", host, NOW)
        .err()
        .map(|r| r.outcome.unwrap_err())
}

#[test]
fn a_complete_host_tree_passes_the_preconditions() {
    assert_eq!(reason_of(&host_fixture()), None);
}

#[test]
fn a_missing_mount_is_named_as_such() {
    let mut host = host_fixture();
    host.is_dir = false;
    assert_eq!(reason_of(&host), Some(Reason::HostfsNotMounted));
}

/// The image creates `/hostfs` so a bind mount has somewhere to land, so
/// forgetting the mount leaves an empty directory rather than no directory.
/// Reporting that as a missing dpkg status would be true and useless.
#[test]
fn an_empty_mount_point_is_a_missing_mount_not_a_missing_file() {
    let mut host = host_fixture();
    host.is_empty = true;
    host.dpkg_status = StatusFile::Unreadable("no such file".to_string());
    assert_eq!(reason_of(&host), Some(Reason::HostfsNotMounted));
}

/// The failure the module exists to prevent: an empty package database
/// resolves to zero pending updates, and zero is a believable answer.
#[test]
fn an_empty_dpkg_status_fails_rather_than_resolving_to_zero() {
    let mut host = host_fixture();
    host.dpkg_status = StatusFile::Present {
        size: 0,
        opens: true,
    };
    assert_eq!(reason_of(&host), Some(Reason::DpkgStatusEmpty));
}

#[test]
fn a_missing_dpkg_status_is_distinct_from_an_empty_one() {
    let mut host = host_fixture();
    host.dpkg_status = StatusFile::Unreadable("no such file".to_string());
    assert_eq!(reason_of(&host), Some(Reason::DpkgStatusUnreadable));
}

#[test]
fn each_missing_apt_directory_has_its_own_reason() {
    let mut host = host_fixture();
    host.apt_etc_is_dir = false;
    assert_eq!(reason_of(&host), Some(Reason::AptEtcMissing));

    let mut host = host_fixture();
    host.apt_lists_is_dir = false;
    assert_eq!(reason_of(&host), Some(Reason::AptListsMissing));
}

/// Indices that were never fetched look exactly like an up-to-date host to
/// apt, so this has to be caught before apt is asked.
#[test]
fn package_lists_without_an_index_are_refused() {
    let mut host = host_fixture();
    host.lists = Vec::new();
    assert_eq!(reason_of(&host), Some(Reason::AptListsEmpty));
}

/// `/etc/os-release` is a symlink into `/usr/lib` on Debian and Ubuntu. The
/// fallback is why the module declares `usr` among its host paths.
#[test]
fn os_release_is_read_from_usr_lib_when_etc_has_none() {
    let mut host = host_fixture();
    host.os_release = Vec::new();
    assert_eq!(reason_of(&host), Some(Reason::OsReleaseUnreadable));

    host.os_release = vec!["ID=ubuntu\n".to_string()];
    assert_eq!(reason_of(&host), None);
}

#[test]
fn a_non_debian_host_is_refused_rather_than_answered() {
    let mut host = host_fixture();
    host.os_release = vec!["ID=fedora\n".to_string()];
    assert_eq!(reason_of(&host), Some(Reason::HostNotDebianFamily));
}

#[test]
fn debian_derivatives_are_recognised_through_id_like() {
    let family = |text: &str| {
        os_release_ids(&vec![text.to_string()])
            .unwrap()
            .is_debian_family()
    };
    assert!(family("ID=debian\n"));
    assert!(family("ID=ubuntu\n"));
    assert!(family("ID=raspbian\nID_LIKE=debian\n"));
    assert!(family("ID=linuxmint\nID_LIKE=\"ubuntu debian\"\n"));
    assert!(!family("ID=fedora\nID_LIKE=\"rhel centos\"\n"));
    // Substring matching would accept this; whole-word matching does not.
    assert!(!family("ID=notdebianatall\n"));
}

/// The failure the Linux suite found on a real machine: Docker Desktop's VM
/// ships an `/etc/os-release` carrying only `PRETTY_NAME`, while
/// `/usr/lib/os-release` carries `ID=debian`. Taking the first readable file
/// and stopping there reports "not a Debian host" about a Debian host.
#[test]
fn a_partial_etc_os_release_falls_through_to_usr_lib() {
    let mut host = host_fixture();
    host.os_release = vec![
        "PRETTY_NAME=\"Docker Desktop\"\n".to_string(),
        "PRETTY_NAME=\"Debian GNU/Linux 12 (bookworm)\"\nID=debian\nVERSION_ID=\"12\"\n".to_string(),
    ];

    let ids = os_release_ids(&host.os_release).expect("both files are readable");
    assert_eq!(ids.id, "debian", "the second file holds the real fields");
    assert!(ids.is_debian_family());
    assert_eq!(
        reason_of(&host),
        None,
        "a Debian host must not be refused"
    );
}

/// The other direction still holds: a complete `/etc/os-release` wins over
/// whatever `/usr/lib` says, which is what os-release(5) specifies.
#[test]
fn a_complete_etc_os_release_takes_precedence() {
    let texts = vec!["ID=ubuntu\n".to_string(), "ID=debian\n".to_string()];
    assert_eq!(os_release_ids(&texts).unwrap().id, "ubuntu");
}

// ── Parsing ─────────────────────────────────────────────────────────────

/// Real output, from the spike's debian:12 fixture.
const APT_OUTPUT: &str = "\
NOTE: This is only a simulation!
Reading package lists...
Building dependency tree...
The following packages will be upgraded:
  libc6 libssl3 tzdata
3 upgraded, 0 newly installed, 0 to remove and 0 not upgraded.
Inst libc6 [2.36-9+deb12u3] (2.36-9+deb12u7 Debian-Security:12/stable-security [amd64])
Inst libssl3 [3.0.11-1~deb12u2] (3.0.14-1~deb12u2 Debian:12.6/stable [amd64])
Inst tzdata [2024a-0+deb12u1] (2025b-0+deb12u1 Debian:12.11/stable [all])
Conf libc6 (2.36-9+deb12u7 Debian-Security:12/stable-security [amd64])
";

#[test]
fn inst_lines_are_counted_and_security_classified_by_origin() {
    let counts = parse(APT_OUTPUT).unwrap();
    assert_eq!(counts.all, 3, "Conf lines must not be counted");
    assert_eq!(counts.security, 1);
}

#[test]
fn ubuntus_security_suite_is_recognised_too() {
    let out =
        "Inst libc6 [2.39-0ubuntu8.2] (2.39-0ubuntu8.3 Ubuntu:24.04/noble-security [amd64])\n";
    assert_eq!(parse(out).unwrap().security, 1);
}

/// A package whose name ends in `-security` is not a security update. Only
/// the origin, in parentheses, decides.
#[test]
fn a_package_named_security_is_not_counted_as_one() {
    let out = "Inst gnome-security [1.0] (1.1 Debian:12.6/stable [amd64])\n";
    let counts = parse(out).unwrap();
    assert_eq!(counts.all, 1);
    assert_eq!(counts.security, 0);
}

#[test]
fn nothing_pending_parses_as_zero_and_zero() {
    let out = "NOTE: This is only a simulation!\n0 upgraded, 0 newly installed.\n";
    assert_eq!(
        parse(out).unwrap(),
        Counts {
            all: 0,
            security: 0
        }
    );
}

/// If more security updates than updates come out of the parse, the parse is
/// wrong. Reporting either number would be worse than reporting the failure.
///
/// The guard is checked on the constructor rather than through `parse`,
/// because `parse` cannot currently reach the state — it only counts a
/// security update on a line it has already counted as an update. That is
/// the property this test exists to protect: the day someone splits those
/// two counts apart, the guard is still there and still tested.
#[test]
fn a_security_count_above_the_total_is_a_failure_not_a_number() {
    assert_eq!(Counts::checked(3, 4), Err(Reason::ParseInconsistent));
    assert_eq!(
        Counts::checked(3, 3),
        Ok(Counts {
            all: 3,
            security: 3
        })
    );

    for out in [
        APT_OUTPUT,
        "Inst x (a -security)\nInst y (b Debian:12/stable)\n",
    ] {
        let c = parse(out).unwrap();
        assert!(c.security <= c.all, "{c:?} from {out}");
    }
}

// ── Line protocol ───────────────────────────────────────────────────────

fn ok_report() -> Report {
    Report {
        outcome: Ok(Counts {
            all: 41,
            security: 3,
        }),
        lists_age_seconds: Some(7200),
        at: 1_754_000_000,
        detail: None,
    }
}

#[test]
fn a_successful_check_emits_the_documented_metric_names() {
    let out = ok_report().line_protocol(true);
    // Telegraf joins measurement and field: these become
    // muninn_updates_pending{severity="all"} and _check_success.
    assert!(
        out.contains("muninn_updates,severity=all pending=41i"),
        "{out}"
    );
    assert!(
        out.contains("muninn_updates,severity=security pending=3i"),
        "{out}"
    );
    assert!(out.contains("check_success=1i"), "{out}");
    assert!(out.contains("lists_age_seconds=7200i"), "{out}");
    assert!(out.contains("check_timestamp_seconds=1754000000i"), "{out}");
    assert!(out.ends_with('\n'), "line protocol must end with a newline");
}

/// The invariant, stated as a test: a failed check reports the failure and
/// nothing else. A zero here would be indistinguishable from an up-to-date
/// host for anyone reading the metric later.
#[test]
fn a_failed_check_omits_the_counts_entirely() {
    let report = Report::failed(Reason::DpkgStatusEmpty, "detail for the log".to_string(), NOW);
    let out = report.line_protocol(true);
    assert!(out.contains("check_success=0i"), "{out}");
    assert!(out.contains("reason=dpkg_status_empty"), "{out}");
    assert!(
        !out.contains("pending"),
        "a failed check must not report a count at all: {out}"
    );
}

/// Every reason has to survive as a tag, in both directions: unique, and
/// containing nothing that would make the series unbounded.
#[test]
fn reasons_are_unique_low_cardinality_tokens() {
    let mut seen = std::collections::HashSet::new();
    for r in Reason::all() {
        let s = r.as_str();
        assert!(seen.insert(s), "{s} appears twice");
        assert!(
            s.chars().all(|c| c.is_ascii_lowercase() || c == '_'),
            "{s} is not a plain token"
        );
    }
    assert_eq!(seen.len(), Reason::all().len());
}

#[test]
fn the_security_metric_can_be_switched_off() {
    let out = ok_report().line_protocol(false);
    assert!(out.contains("severity=all"), "{out}");
    assert!(
        !out.contains("severity=security"),
        "security_only_metric=false must drop that series: {out}"
    );
}

#[test]
fn the_lists_age_is_the_newest_index_not_the_oldest() {
    let lists = vec![
        ListEntry {
            name: "a_Packages".to_string(),
            modified: Some(NOW - 7200),
        },
        ListEntry {
            name: "b_Packages".to_string(),
            modified: Some(NOW - 30),
        },
        ListEntry {
            name: "lock".to_string(),
            modified: Some(NOW),
        },
    ];
    let age = lists_age(&lists, NOW).expect("indices exist");
    assert!((0..60).contains(&age), "freshly written files, got {age}s");
    assert_eq!(age, 30);
}

/// A host clock ahead of the container's must not produce a negative age.
#[test]
fn a_future_index_reports_zero_rather_than_a_negative_age() {
    let lists = vec![ListEntry {
        name: "x_Packages".to_string(),
        modified: Some(NOW),
    }];
    assert_eq!(lists_age(&lists, 0), Some(0));
}

/// The whole path, end to end, against a synthetic host tree.
///
/// What it asserts is the invariant rather than a number: with or without
/// apt present — a developer's Windows machine has none, the runtime image
/// does — the result is either counts or a reason, and never a count without
/// a successful check. The measured numbers are the system tests' job
/// (`scripts/updates-test.sh`), because only a real host tree has a truth to
/// compare against.
#[test]
fn a_check_either_counts_or_reports_why_not() {
    let attempts = [
        Attempt::NoScratch("read-only file system".to_string()),
        Attempt::NoApt("no such file".to_string()),
        Attempt::Ran {
            success: false,
            status: "exit status: 100".to_string(),
            stdout: Vec::new(),
            stderr: b"\nE: broken\n".to_vec(),
        },
        Attempt::Ran {
            success: true,
            status: "exit status: 0".to_string(),
            stdout: APT_OUTPUT.as_bytes().to_vec(),
            stderr: Vec::new(),
        },
    ];
    for attempt in &attempts {
        let report = check("/hostfs", "/run/muninn", &host_fixture(), attempt, NOW);
        let line = report.line_protocol(true);

        match report.outcome {
            Ok(_) => assert!(
                line.contains("check_success=1i") && line.contains("pending="),
                "{line}"
            ),
            Err(_) => assert!(
                line.contains("check_success=0i") && !line.contains("pending"),
                "a failed check must never carry a count: {line}"
            ),
        }
    }
}

#[test]
fn apt_is_pointed_at_the_host_and_at_its_scratch_directory() {
    let args = apt_arguments("/hostfs", "/run/c");
    assert_eq!(&args[..2], ["-s", "dist-upgrade"]);
    assert!(args.contains(&"Dir::State::status=/hostfs/var/lib/dpkg/status".to_string()));
    assert!(args.contains(&"Dir::Etc::sourceparts=/hostfs/etc/apt/sources.list.d".to_string()));
    assert!(args.contains(&"Dir::Cache=/run/c".to_string()));
    assert_eq!(args.len(), 24);
    assert_eq!(args.iter().filter(|a| *a == "-o").count(), 11);
    assert!(apt_arguments("/", "/c").contains(&"Dir::State::lists=/var/lib/apt/lists".to_string()));
    assert_eq!(apt_environment("/run/c")[0], ("TMPDIR".to_string(), "/run/c".to_string()));
}

#[test]
fn a_failed_run_shows_the_first_line_apt_wrote() {
    let attempt = Attempt::Ran {
        success: false,
        status: "exit status: 100".to_string(),
        stdout: Vec::new(),
        stderr: b"\n  E: broken\nmore\n".to_vec(),
    };
    let report = check("/hostfs", "/run", &host_fixture(), &attempt, NOW);
    assert_eq!(report.outcome, Err(Reason::AptFailed));
    assert_eq!(
        report.detail.as_deref(),
        Some("apt-get -s dist-upgrade exited with exit status: 100: E: broken")
    );
    assert!(!report.succeeded());
    assert_eq!(first_line(" \n"), "no output");
}

#[test]
fn a_host_of_another_family_is_named() {
    let mut host = host_fixture();
    host.os_release = vec!["ID=\"fed\\ora\"\n".to_string()];
    let report = preconditions("/hostfs", &host, NOW).unwrap_err();
    assert_eq!(
        report.detail.as_deref(),
        Some("the host reports ID=\"fed\\\\ora\", which is not Debian-family")
    );
    host.dpkg_status = StatusFile::Present {
        size: 1,
        opens: false,
    };
    let report = preconditions("/hostfs", &host, NOW).unwrap_err();
    assert_eq!(report.outcome, Err(Reason::DpkgStatusUnreadable));
    assert!(report.detail.unwrap().contains("cannot be opened"));
}

#[test]
fn a_successful_check_carries_its_counts_and_age() {
    let attempt = Attempt::Ran {
        success: true,
        status: "exit status: 0".to_string(),
        stdout: APT_OUTPUT.as_bytes().to_vec(),
        stderr: Vec::new(),
    };
    let report = check("/hostfs", "/run", &host_fixture(), &attempt, NOW);
    assert_eq!(
        report.line_protocol(true),
        "muninn_updates,status=ok,reason=none check_success=1i,check_timestamp_seconds=1754000000i,\
         lists_age_seconds=60i\n\
         muninn_updates,severity=all pending=3i\n\
         muninn_updates,severity=security pending=1i\n"
    );
}

/// What stands behind the closing parenthesis is not the origin either.
#[test]
fn a_name_behind_the_parentheses_is_not_counted_either() {
    let out = "Inst foo [1.0] (1.1 Debian:12.6/stable [amd64]) [gnome-security:amd64 ]\n";
    let counts = parse(out).unwrap();
    assert_eq!((counts.all, counts.security), (1, 0));
    let open = "Inst foo [1.0] (1.1 Debian-Security:12/stable-security [amd64]\n";
    assert_eq!(parse(open).unwrap().security, 1);
}
