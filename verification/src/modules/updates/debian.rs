//! Reading the host's pending package updates from inside a container.
//!
//! The host filesystem is mounted read-only, apt is pointed at the host's package
//! state, and real apt does the resolution: it honours holds, pins and phased
//! updates.
//!
//! If the host's package state cannot be read, the check reports
//! `check_success=0` and omits the counts. It never reports zero: "no updates
//! pending" and "I could not look" are opposite conclusions. The counts live
//! inside the `Ok` arm of [`Report::outcome`], so a failed check has nothing to
//! print them from.

use vstd::prelude::*;
use vstd::string::*;
use crate::config::normalised::pairs;
use crate::text;

verus! {

/// The influx measurement every line carries.
pub const MEASUREMENT: &'static str = "muninn_updates";

/// Why a check could not produce an answer: a closed set of short tokens, because
/// this becomes a metric tag.
#[derive(Debug, Clone, Copy, PartialEq, Eq, Structural)]
pub enum Reason {
    HostfsNotMounted,
    DpkgStatusUnreadable,
    DpkgStatusEmpty,
    AptEtcMissing,
    AptListsMissing,
    AptListsEmpty,
    OsReleaseUnreadable,
    HostNotDebianFamily,
    ScratchUnavailable,
    AptFailed,
    ParseInconsistent,
}

impl Reason {
    pub open spec fn token(self) -> Seq<char> {
        match self {
            Reason::HostfsNotMounted => "hostfs_not_mounted"@,
            Reason::DpkgStatusUnreadable => "dpkg_status_unreadable"@,
            Reason::DpkgStatusEmpty => "dpkg_status_empty"@,
            Reason::AptEtcMissing => "apt_etc_missing"@,
            Reason::AptListsMissing => "apt_lists_missing"@,
            Reason::AptListsEmpty => "apt_lists_empty"@,
            Reason::OsReleaseUnreadable => "os_release_unreadable"@,
            Reason::HostNotDebianFamily => "host_not_debian_family"@,
            Reason::ScratchUnavailable => "scratch_unavailable"@,
            Reason::AptFailed => "apt_failed"@,
            Reason::ParseInconsistent => "parse_inconsistent"@,
        }
    }

    pub fn as_str(self) -> (r: &'static str)
        ensures
            r@ == self.token(),
    {
        match self {
            Reason::HostfsNotMounted => "hostfs_not_mounted",
            Reason::DpkgStatusUnreadable => "dpkg_status_unreadable",
            Reason::DpkgStatusEmpty => "dpkg_status_empty",
            Reason::AptEtcMissing => "apt_etc_missing",
            Reason::AptListsMissing => "apt_lists_missing",
            Reason::AptListsEmpty => "apt_lists_empty",
            Reason::OsReleaseUnreadable => "os_release_unreadable",
            Reason::HostNotDebianFamily => "host_not_debian_family",
            Reason::ScratchUnavailable => "scratch_unavailable",
            Reason::AptFailed => "apt_failed",
            Reason::ParseInconsistent => "parse_inconsistent",
        }
    }

    /// Every reason.
    pub fn all() -> (r: Vec<Reason>)
        ensures
            r@ == reasons(),
    {
        let mut out: Vec<Reason> = Vec::new();
        out.push(Reason::HostfsNotMounted);
        out.push(Reason::DpkgStatusUnreadable);
        out.push(Reason::DpkgStatusEmpty);
        out.push(Reason::AptEtcMissing);
        out.push(Reason::AptListsMissing);
        out.push(Reason::AptListsEmpty);
        out.push(Reason::OsReleaseUnreadable);
        out.push(Reason::HostNotDebianFamily);
        out.push(Reason::ScratchUnavailable);
        out.push(Reason::AptFailed);
        out.push(Reason::ParseInconsistent);
        out
    }
}

/// Every reason, in order.
pub open spec fn reasons() -> Seq<Reason> {
    seq![
        Reason::HostfsNotMounted,
        Reason::DpkgStatusUnreadable,
        Reason::DpkgStatusEmpty,
        Reason::AptEtcMissing,
        Reason::AptListsMissing,
        Reason::AptListsEmpty,
        Reason::OsReleaseUnreadable,
        Reason::HostNotDebianFamily,
        Reason::ScratchUnavailable,
        Reason::AptFailed,
        Reason::ParseInconsistent,
    ]
}

/// No reason is missing from the list of all.
pub proof fn law_every_reason_is_listed(reason: Reason)
    ensures
        reasons().contains(reason),
        reasons().no_duplicates(),
{
    let all = reasons();
    assert(all[0] == Reason::HostfsNotMounted
        && all[1] == Reason::DpkgStatusUnreadable
        && all[2] == Reason::DpkgStatusEmpty
        && all[3] == Reason::AptEtcMissing
        && all[4] == Reason::AptListsMissing
        && all[5] == Reason::AptListsEmpty
        && all[6] == Reason::OsReleaseUnreadable
        && all[7] == Reason::HostNotDebianFamily
        && all[8] == Reason::ScratchUnavailable
        && all[9] == Reason::AptFailed
        && all[10] == Reason::ParseInconsistent);
}

/// No two reasons share a token.
pub proof fn law_reasons_have_distinct_tokens(a: Reason, b: Reason)
    requires
        a.token() == b.token(),
    ensures
        a == b,
{
    reveal_strlit("hostfs_not_mounted");
    reveal_strlit("dpkg_status_unreadable");
    reveal_strlit("dpkg_status_empty");
    reveal_strlit("apt_etc_missing");
    reveal_strlit("apt_lists_missing");
    reveal_strlit("apt_lists_empty");
    reveal_strlit("os_release_unreadable");
    reveal_strlit("host_not_debian_family");
    reveal_strlit("scratch_unavailable");
    reveal_strlit("apt_failed");
    reveal_strlit("parse_inconsistent");
    let (x, y) = (a.token(), b.token());
    assert(x.len() == y.len());
    assert(x[0] == y[0]);
    assert(x[1] == y[1]);
    assert(x[x.len() - 1] == y[x.len() - 1]);
    assert(x[x.len() - 2] == y[x.len() - 2]);
    assert(x[4] == y[4]);
}

/// What a successful check found.
#[derive(Debug, Clone, Copy, PartialEq, Eq, Structural)]
pub struct Counts {
    pub all: u32,
    pub security: u32,
}

/// The counts, where the one relationship that must hold between them does.
pub open spec fn sound(all: u32, security: u32) -> Result<Counts, Reason> {
    if security > all {
        Err(Reason::ParseInconsistent)
    } else {
        Ok(Counts { all, security })
    }
}

impl Counts {
    /// Security updates are a subset of all updates. Where there are more of the
    /// former, both numbers are meaningless.
    pub fn checked(all: u32, security: u32) -> (r: Result<Self, Reason>)
        ensures
            r == sound(all, security),
    {
        if security > all {
            return Err(Reason::ParseInconsistent);
        }
        Ok(Counts { all, security })
    }
}

/// The result of one check, in the form the metrics are written from.
#[derive(Debug)]
pub struct Report {
    /// The counts, or why there are none. Never both.
    pub outcome: Result<Counts, Reason>,
    /// Age of the newest package index, in seconds. Not a failure condition:
    /// stale lists give a correct answer about a stale picture.
    pub lists_age_seconds: Option<i64>,
    /// When the check ran, in seconds since the Unix epoch.
    pub at: u64,
    /// A human-readable detail for logs, never a metric tag.
    pub detail: Option<String>,
}

/// What a [`Report`] says.
pub struct Finding {
    pub outcome: Result<Counts, Reason>,
    pub lists_age_seconds: Option<i64>,
    pub at: u64,
    pub detail: Option<Seq<char>>,
}

impl View for Report {
    type V = Finding;

    open spec fn view(&self) -> Finding {
        Finding {
            outcome: self.outcome,
            lists_age_seconds: self.lists_age_seconds,
            at: self.at,
            detail: text::optional(self.detail),
        }
    }
}

/// A check that failed.
pub open spec fn failure(reason: Reason, detail: Seq<char>, at: u64) -> Finding {
    Finding { outcome: Err(reason), lists_age_seconds: None, at, detail: Some(detail) }
}

/// The line of a failed check.
pub open spec fn error_line(reason: Reason, at: u64) -> Seq<char> {
    "muninn_updates,status=error,reason="@ + reason.token()
        + " check_success=0i,check_timestamp_seconds="@ + text::decimal(at as nat) + "i\n"@
}

/// The age field, where an age is known.
pub open spec fn age_field(age: Option<i64>) -> Seq<char> {
    match age {
        Some(a) => ",lists_age_seconds="@ + text::signed(a as int) + "i"@,
        None => Seq::empty(),
    }
}

/// The lines of a successful check.
pub open spec fn count_lines(
    counts: Counts,
    age: Option<i64>,
    at: u64,
    security_metric: bool,
) -> Seq<char> {
    let head = "muninn_updates,status=ok,reason=none check_success=1i,check_timestamp_seconds="@
        + text::decimal(at as nat) + "i"@ + age_field(age)
        + "\nmuninn_updates,severity=all pending="@ + text::decimal(counts.all as nat) + "i\n"@;
    if security_metric {
        head + "muninn_updates,severity=security pending="@ + text::decimal(counts.security as nat)
            + "i\n"@
    } else {
        head
    }
}

/// The line of a failed check never shows a count.
pub proof fn law_a_failed_check_never_shows_a_count(reason: Reason, at: u64)
    ensures
        !text::occurs(error_line(reason, at), "pending"@),
{
    let a = "muninn_updates,status=error,reason="@;
    let t = reason.token();
    let b = " check_success=0i,check_timestamp_seconds="@;
    let n = text::decimal(at as nat);
    let c = "i\n"@;
    reveal_strlit("pending");
    reveal_strlit("muninn_updates,status=error,reason=");
    reveal_strlit(" check_success=0i,check_timestamp_seconds=");
    reveal_strlit("i\n");
    reveal_strlit("hostfs_not_mounted");
    reveal_strlit("dpkg_status_unreadable");
    reveal_strlit("dpkg_status_empty");
    reveal_strlit("apt_etc_missing");
    reveal_strlit("apt_lists_missing");
    reveal_strlit("apt_lists_empty");
    reveal_strlit("os_release_unreadable");
    reveal_strlit("host_not_debian_family");
    reveal_strlit("scratch_unavailable");
    reveal_strlit("apt_failed");
    reveal_strlit("parse_inconsistent");
    text::lemma_decimal_digits(at as nat);
    // A `g` stands only in `dpkg` and at the end of `missing`.
    assert(!a.contains('g') && !b.contains('g') && !c.contains('g'));
    let at_g = match reason {
        Reason::DpkgStatusUnreadable | Reason::DpkgStatusEmpty => 3int,
        Reason::AptEtcMissing => 14int,
        Reason::AptListsMissing => 16int,
        _ => -1int,
    };
    let rest = if at_g >= 0 {
        t.update(at_g, '_')
    } else {
        t
    };
    assert(!rest.contains('g'));
    assert forall|j: int| 0 <= j < t.len() && #[trigger] t[j] == 'g' implies j >= 3 && (t[j - 1]
        != 'n' || t[j - 3] != 'd') by {
        assert(rest.contains(rest[j]));
        assert(j == at_g);
    }
    let line = a + t + b + n + c;
    assert(line == error_line(reason, at));
    assert forall|i: int| !text::stands_at(line, "pending"@, i) by {
        if text::stands_at(line, "pending"@, i) {
            let found = line.subrange(i, i + 7);
            assert(found[6] == 'g' && found[5] == 'n' && found[3] == 'd');
            let j = i + 6;
            assert(line[j] == 'g' && line[j - 1] == 'n' && line[j - 3] == 'd');
            let (la, lt, lb, ln) = (
                a.len() as int,
                t.len() as int,
                b.len() as int,
                n.len() as int,
            );
            if j < la {
                assert(a.contains(a[j]));
            } else if j < la + lt {
                assert(t[j - la] == 'g');
                assert(t[j - la - 1] == line[j - 1] && t[j - la - 3] == line[j - 3]);
            } else if j < la + lt + lb {
                assert(b.contains(b[j - la - lt]));
            } else if j < la + lt + lb + ln {
                assert(n[j - la - lt - lb] == 'g');
            } else {
                assert(c.contains(c[j - la - lt - lb - ln]));
            }
        }
    }
}

impl Clone for Report {
    fn clone(&self) -> (r: Self)
        ensures
            r == *self,
    {
        Report {
            outcome: self.outcome,
            lists_age_seconds: self.lists_age_seconds,
            at: self.at,
            detail: text::copy_optional(&self.detail),
        }
    }
}

impl Report {
    pub fn failed(reason: Reason, detail: String, at: u64) -> (r: Self)
        ensures
            r@ == failure(reason, detail@, at),
    {
        Report { outcome: Err(reason), lists_age_seconds: None, at, detail: Some(detail) }
    }

    pub fn succeeded(&self) -> (r: bool)
        ensures
            r == self.outcome is Ok,
    {
        self.outcome.is_ok()
    }

    /// The influx line protocol Telegraf's `inputs.exec` parses.
    ///
    /// `status` and `reason` sit on the check line in both cases, so that the
    /// metric keeps one set of labels.
    pub fn line_protocol(&self, security_metric: bool) -> (r: String)
        ensures
            r@ == (match self.outcome {
                Err(reason) => error_line(reason, self.at),
                Ok(counts) => count_lines(
                    counts,
                    self.lists_age_seconds,
                    self.at,
                    security_metric,
                ),
            }),
    {
        let at = text::decimal_of(self.at as u128);
        match self.outcome {
            Err(reason) => text::cat5(
                "muninn_updates,status=error,reason=",
                reason.as_str(),
                " check_success=0i,check_timestamp_seconds=",
                &at,
                "i\n",
            ),
            Ok(counts) => {
                let age = match self.lists_age_seconds {
                    Some(a) => text::cat3(",lists_age_seconds=", &text::signed_of(a), "i"),
                    None => String::new(),
                };
                let mut out = text::cat7(
                    "muninn_updates,status=ok,reason=none check_success=1i,check_timestamp_seconds=",
                    &at,
                    "i",
                    &age,
                    "\nmuninn_updates,severity=all pending=",
                    &text::decimal_of(counts.all as u128),
                    "i\n",
                );
                if security_metric {
                    out.append("muninn_updates,severity=security pending=");
                    out.append(&text::decimal_of(counts.security as u128));
                    out.append("i\n");
                }
                out
            }
        }
    }
}

// ---------------------------------------------------------------------------
// The host
// ---------------------------------------------------------------------------

/// A path below a directory.
pub open spec fn below(base: Seq<char>, relative: Seq<char>) -> Seq<char> {
    if base.len() == 0 {
        relative
    } else if base.last() == '/' {
        base + relative
    } else {
        base + "/"@ + relative
    }
}

fn join_path(base: &str, relative: &str) -> (r: String)
    ensures
        r@ == below(base@, relative@),
{
    let c = text::chars_of(base);
    if c.len() == 0 {
        relative.to_owned()
    } else if c[c.len() - 1] == '/' {
        text::cat2(base, relative)
    } else {
        text::cat3(base, "/", relative)
    }
}

/// Where the host's state is expected, given the mount prefix.
#[derive(Debug)]
pub struct HostPaths {
    pub dpkg_status: String,
    pub apt_etc: String,
    pub apt_lists: String,
}

impl HostPaths {
    /// Whether these are the paths below a mount.
    pub open spec fn lie_under(self, hostfs: Seq<char>) -> bool {
        &&& self.dpkg_status@ == below(hostfs, "var/lib/dpkg/status"@)
        &&& self.apt_etc@ == below(hostfs, "etc/apt"@)
        &&& self.apt_lists@ == below(hostfs, "var/lib/apt/lists"@)
    }

    pub fn under(hostfs: &str) -> (r: Self)
        ensures
            r.lie_under(hostfs@),
    {
        HostPaths {
            dpkg_status: join_path(hostfs, "var/lib/dpkg/status"),
            apt_etc: join_path(hostfs, "etc/apt"),
            apt_lists: join_path(hostfs, "var/lib/apt/lists"),
        }
    }
}

/// What is known of dpkg's status file.
#[derive(Debug)]
pub enum StatusFile {
    /// Its metadata cannot be read, for the reason the system words.
    Unreadable(String),
    Present { size: u64, opens: bool },
}

/// One entry of the package lists directory.
#[derive(Debug)]
pub struct ListEntry {
    pub name: String,
    /// When it was last changed, in seconds since the Unix epoch, where known.
    pub modified: Option<u64>,
}

/// What is known of the host mount.
#[derive(Debug)]
pub struct HostFacts {
    /// Whether the mount point is a directory.
    pub is_dir: bool,
    /// Whether it is a directory without entries.
    pub is_empty: bool,
    pub dpkg_status: StatusFile,
    pub apt_etc_is_dir: bool,
    pub apt_lists_is_dir: bool,
    /// The entries of the package lists directory, as far as they can be read.
    pub lists: Vec<ListEntry>,
    /// The os-release files that can be read, in order of precedence.
    pub os_release: Vec<String>,
}

/// Where a host records what it is, in order of precedence.
pub fn os_release_locations() -> (r: Vec<&'static str>)
    ensures
        text::slices(r@) == seq!["etc/os-release"@, "usr/lib/os-release"@],
{
    let mut out: Vec<&'static str> = Vec::new();
    out.push("etc/os-release");
    out.push("usr/lib/os-release");
    proof {
        assert(text::slices(out@) =~= seq!["etc/os-release"@, "usr/lib/os-release"@]);
    }
    out
}

/// Whether a file name is that of a package index.
pub open spec fn is_index(name: Seq<char>) -> bool {
    text::occurs(name, "_Packages"@)
}

/// Whether one of the entries is a package index.
pub open spec fn holds_index(lists: Seq<ListEntry>) -> bool {
    exists|i: int| 0 <= i < lists.len() && is_index((#[trigger] lists[i]).name@)
}

/// Whether one of the entries is a package index. Without one apt reports zero
/// pending updates, correctly from its point of view.
pub fn has_package_index(lists: &Vec<ListEntry>) -> (r: bool)
    ensures
        r == holds_index(lists@),
{
    let mut i: usize = 0;
    while i < lists.len()
        invariant
            i <= lists.len(),
            forall|j: int| 0 <= j < i ==> !is_index((#[trigger] lists@[j]).name@),
        decreases lists.len() - i,
    {
        if text::contains(&lists[i].name, "_Packages") {
            proof {
                assert(is_index(lists@[i as int].name@));
            }
            return true;
        }
        i += 1;
    }
    false
}

/// The latest change of a package index among the first `n` entries.
pub open spec fn newest(lists: Seq<ListEntry>, n: int) -> Option<u64>
    decreases n,
{
    if n <= 0 {
        None
    } else {
        let rest = newest(lists, n - 1);
        match lists[n - 1].modified {
            Some(m) => if !is_index(lists[n - 1].name@) {
                rest
            } else {
                match rest {
                    Some(r) => if r < m {
                        Some(m)
                    } else {
                        Some(r)
                    },
                    None => Some(m),
                }
            },
            None => rest,
        }
    }
}

/// How long ago the newest package index changed; never negative, even with a
/// host clock that runs ahead.
pub open spec fn age_of(lists: Seq<ListEntry>, now: u64) -> Option<i64> {
    match newest(lists, lists.len() as int) {
        Some(m) => Some(
            (if m < now {
                (now - m) as u64
            } else {
                0u64
            }) as i64,
        ),
        None => None,
    }
}

/// Age of the newest package index, in seconds.
pub fn lists_age(lists: &Vec<ListEntry>, now: u64) -> (r: Option<i64>)
    ensures
        r == age_of(lists@, now),
{
    let mut latest: Option<u64> = None;
    let mut i: usize = 0;
    while i < lists.len()
        invariant
            i <= lists.len(),
            latest == newest(lists@, i as int),
        decreases lists.len() - i,
    {
        if text::contains(&lists[i].name, "_Packages") {
            match lists[i].modified {
                Some(m) => {
                    latest = match latest {
                        Some(r) => if r < m {
                            Some(m)
                        } else {
                            Some(r)
                        },
                        None => Some(m),
                    };
                }
                None => {}
            }
        }
        i += 1;
    }
    match latest {
        Some(m) => {
            let age: u64 = if m < now {
                now - m
            } else {
                0
            };
            Some(age as i64)
        }
        None => None,
    }
}

// ---------------------------------------------------------------------------
// What the host calls itself
// ---------------------------------------------------------------------------

/// The value of the first line from `i` on that assigns `key`, without the
/// whitespace and the quotes around it.
pub open spec fn assigned(lines: Seq<Seq<char>>, key: Seq<char>, i: int) -> Option<Seq<char>>
    decreases lines.len() - i,
{
    if i < 0 || i >= lines.len() {
        None
    } else {
        let line = text::trimmed(lines[i]);
        let prefix = key + "="@;
        if prefix.is_prefix_of(line) {
            let value = text::trimmed(line.skip(prefix.len() as int));
            Some(text::without_trailing(text::without_leading(value, '"'), '"'))
        } else {
            assigned(lines, key, i + 1)
        }
    }
}

/// The value an os-release text assigns to `key`.
pub fn os_release_field(content: &str, key: &str) -> (r: Option<String>)
    ensures
        text::optional(r) == assigned(text::lines(content@), key@, 0),
{
    let lines = text::split_lines(content);
    let prefix = text::cat2(key, "=");
    let ghost all = text::lines(content@);
    let mut i: usize = 0;
    while i < lines.len()
        invariant
            i <= lines.len(),
            all == text::texts(lines@),
            all == text::lines(content@),
            prefix@ == key@ + "="@,
            assigned(all, key@, 0) == assigned(all, key@, i as int),
        decreases lines.len() - i,
    {
        proof {
            assert(all[i as int] == lines@[i as int]@);
        }
        let line = text::trim(&lines[i]);
        match text::strip_prefix(&line, &prefix) {
            Some(value) => {
                proof {
                    assert(line@.subrange(0, prefix@.len() as int) =~= prefix@);
                    assert(line@.skip(prefix@.len() as int) =~= value@);
                }
                let value = text::trim(&value);
                return Some(text::trim_trailing(&text::trim_leading(&value, '"'), '"'));
            }
            None => {}
        }
        i += 1;
    }
    None
}

/// The first non-empty value that one of the texts from `i` on assigns to `key`.
pub open spec fn first_assigned(texts: Seq<Seq<char>>, key: Seq<char>, i: int) -> Seq<char>
    decreases texts.len() - i,
{
    if i < 0 || i >= texts.len() {
        Seq::empty()
    } else {
        match assigned(text::lines(texts[i]), key, 0) {
            Some(v) => if v.len() > 0 {
                v
            } else {
                first_assigned(texts, key, i + 1)
            },
            None => first_assigned(texts, key, i + 1),
        }
    }
}

fn first_field(texts: &Vec<String>, key: &str) -> (r: String)
    ensures
        r@ == first_assigned(text::texts(texts@), key@, 0),
{
    let ghost all = text::texts(texts@);
    let mut i: usize = 0;
    while i < texts.len()
        invariant
            i <= texts.len(),
            all == text::texts(texts@),
            first_assigned(all, key@, 0) == first_assigned(all, key@, i as int),
        decreases texts.len() - i,
    {
        proof {
            assert(all[i as int] == texts@[i as int]@);
        }
        match os_release_field(&texts[i], key) {
            Some(v) => {
                if !v.as_str().is_empty() {
                    return v;
                }
            }
            None => {}
        }
        i += 1;
    }
    String::new()
}

/// What a host calls itself.
#[derive(Debug, Clone, PartialEq, Eq)]
pub struct OsRelease {
    pub id: String,
    pub id_like: String,
}

impl Default for OsRelease {
    fn default() -> (r: Self)
        ensures
            r.id@.len() == 0,
            r.id_like@.len() == 0,
    {
        OsRelease { id: String::new(), id_like: String::new() }
    }
}

/// Whether a list of names holds one of the Debian family.
pub open spec fn names_debian(names: Seq<char>) -> bool {
    text::words(names).contains("debian"@) || text::words(names).contains("ubuntu"@)
}

fn mentions_debian(names: &str) -> (r: bool)
    ensures
        r == names_debian(names@),
{
    let words = text::split_words(names);
    let ghost all = text::words(names@);
    let mut i: usize = 0;
    while i < words.len()
        invariant
            i <= words.len(),
            all == text::texts(words@),
            all == text::words(names@),
            forall|j: int| 0 <= j < i ==> #[trigger] all[j] != "debian"@ && all[j] != "ubuntu"@,
        decreases words.len() - i,
    {
        proof {
            assert(all[i as int] == words@[i as int]@);
        }
        if text::same(&words[i], "debian") || text::same(&words[i], "ubuntu") {
            return true;
        }
        i += 1;
    }
    false
}

impl OsRelease {
    /// Whether the host, by its name or by what it is like, is of the Debian
    /// family. Whole words count.
    pub fn is_debian_family(&self) -> (r: bool)
        ensures
            r == (names_debian(self.id@) || names_debian(self.id_like@)),
    {
        mentions_debian(&self.id) || mentions_debian(&self.id_like)
    }
}

/// The host's `ID` and `ID_LIKE` from the os-release files that can be read.
///
/// The first non-empty value of each field wins, rather than the first file: an
/// `/etc/os-release` may carry nothing but a pretty name.
pub fn os_release_ids(texts: &Vec<String>) -> (r: Option<OsRelease>)
    ensures
        match r {
            Some(ids) => {
                &&& texts@.len() > 0
                &&& ids.id@ == first_assigned(text::texts(texts@), "ID"@, 0)
                &&& ids.id_like@ == first_assigned(text::texts(texts@), "ID_LIKE"@, 0)
            },
            None => texts@.len() == 0,
        },
{
    if texts.len() == 0 {
        return None;
    }
    Some(OsRelease { id: first_field(texts, "ID"), id_like: first_field(texts, "ID_LIKE") })
}

// ---------------------------------------------------------------------------
// Preconditions
// ---------------------------------------------------------------------------

/// Why apt is not worth running, if it is not: the reason, and what a log says
/// about it.
pub open spec fn obstacle(hostfs: Seq<char>, facts: HostFacts) -> Option<(Reason, Seq<char>)> {
    let status = below(hostfs, "var/lib/dpkg/status"@);
    let etc = below(hostfs, "etc/apt"@);
    let lists = below(hostfs, "var/lib/apt/lists"@);
    let texts = text::texts(facts.os_release@);
    let id = first_assigned(texts, "ID"@, 0);
    if !facts.is_dir || facts.is_empty {
        Some(
            (
                Reason::HostfsNotMounted,
                "'"@ + hostfs + "' is missing or empty. Mount the host filesystem there: `-v /:"@
                    + hostfs + ":ro`"@,
            ),
        )
    } else if let StatusFile::Unreadable(e) = facts.dpkg_status {
        Some((Reason::DpkgStatusUnreadable, "cannot read '"@ + status + "': "@ + e@))
    } else if facts.dpkg_status->size == 0 {
        Some(
            (
                Reason::DpkgStatusEmpty,
                "'"@ + status
                    + "' is empty. An empty package database resolves to zero pending updates, which would be a confident wrong answer"@,
            ),
        )
    } else if !facts.dpkg_status->opens {
        Some((Reason::DpkgStatusUnreadable, "'"@ + status + "' exists but cannot be opened"@))
    } else if !facts.apt_etc_is_dir {
        Some((Reason::AptEtcMissing, "'"@ + etc + "' is missing"@))
    } else if !facts.apt_lists_is_dir {
        Some((Reason::AptListsMissing, "'"@ + lists + "' is missing"@))
    } else if !holds_index(facts.lists@) {
        Some(
            (
                Reason::AptListsEmpty,
                "'"@ + lists
                    + "' holds no package index. apt would report zero pending updates from an empty index, which is indistinguishable from an up-to-date host"@,
            ),
        )
    } else if texts.len() == 0 {
        Some(
            (
                Reason::OsReleaseUnreadable,
                "cannot read 'etc/os-release' or 'usr/lib/os-release' — note the first is normally a symlink into /usr/lib"@,
            ),
        )
    } else if !names_debian(id) && !names_debian(first_assigned(texts, "ID_LIKE"@, 0)) {
        Some(
            (
                Reason::HostNotDebianFamily,
                "the host reports ID="@ + text::debug_quoted(id) + ", which is not Debian-family"@,
            ),
        )
    } else {
        None
    }
}

/// Everything that has to be true before apt is worth running, checked one at a
/// time so that the reason is specific. Each is a deployment mistake that would
/// otherwise produce a plausible wrong number.
pub fn preconditions(hostfs: &str, facts: &HostFacts, now: u64) -> (r: Result<(), Report>)
    ensures
        match r {
            Ok(_) => obstacle(hostfs@, *facts) is None,
            Err(report) => obstacle(hostfs@, *facts) matches Some((reason, detail)) && report@
                == failure(reason, detail, now),
        },
{
    let paths = HostPaths::under(hostfs);
    let status = paths.dpkg_status.as_str();
    // Empty counts as absent: the image creates the directory so that a bind
    // mount has somewhere to land.
    if !facts.is_dir || facts.is_empty {
        return Err(
            Report::failed(
                Reason::HostfsNotMounted,
                text::cat5(
                    "'",
                    hostfs,
                    "' is missing or empty. Mount the host filesystem there: `-v /:",
                    hostfs,
                    ":ro`",
                ),
                now,
            ),
        );
    }
    match &facts.dpkg_status {
        StatusFile::Unreadable(e) => {
            return Err(
                Report::failed(
                    Reason::DpkgStatusUnreadable,
                    text::cat4("cannot read '", status, "': ", e),
                    now,
                ),
            );
        }
        StatusFile::Present { size, opens } => {
            if *size == 0 {
                return Err(
                    Report::failed(
                        Reason::DpkgStatusEmpty,
                        text::cat3(
                            "'",
                            status,
                            "' is empty. An empty package database resolves to zero pending updates, which would be a confident wrong answer",
                        ),
                        now,
                    ),
                );
            }
            // Metadata is not readability.
            if !*opens {
                return Err(
                    Report::failed(
                        Reason::DpkgStatusUnreadable,
                        text::cat3("'", status, "' exists but cannot be opened"),
                        now,
                    ),
                );
            }
        }
    }
    if !facts.apt_etc_is_dir {
        return Err(
            Report::failed(
                Reason::AptEtcMissing,
                text::cat3("'", &paths.apt_etc, "' is missing"),
                now,
            ),
        );
    }
    if !facts.apt_lists_is_dir {
        return Err(
            Report::failed(
                Reason::AptListsMissing,
                text::cat3("'", &paths.apt_lists, "' is missing"),
                now,
            ),
        );
    }
    if !has_package_index(&facts.lists) {
        return Err(
            Report::failed(
                Reason::AptListsEmpty,
                text::cat3(
                    "'",
                    &paths.apt_lists,
                    "' holds no package index. apt would report zero pending updates from an empty index, which is indistinguishable from an up-to-date host",
                ),
                now,
            ),
        );
    }
    proof {
        assert(text::texts(facts.os_release@).len() == facts.os_release@.len());
    }
    // A host running something else would get a confident answer derived from a
    // package manager it does not use.
    match os_release_ids(&facts.os_release) {
        None => Err(
            Report::failed(
                Reason::OsReleaseUnreadable,
                "cannot read 'etc/os-release' or 'usr/lib/os-release' — note the first is normally a symlink into /usr/lib".to_owned(),
                now,
            ),
        ),
        Some(ids) => {
            if !ids.is_debian_family() {
                return Err(
                    Report::failed(
                        Reason::HostNotDebianFamily,
                        text::cat3(
                            "the host reports ID=",
                            &text::quote_debug(&ids.id),
                            ", which is not Debian-family",
                        ),
                        now,
                    ),
                );
            }
            Ok(())
        }
    }
}

// ---------------------------------------------------------------------------
// apt
// ---------------------------------------------------------------------------

/// `list` with one apt option.
pub open spec fn with_option(
    list: Seq<Seq<char>>,
    key: Seq<char>,
    value: Seq<char>,
) -> Seq<Seq<char>> {
    list.push("-o"@).push(key + "="@ + value)
}

fn push_option(list: &mut Vec<String>, key: &str, value: &str)
    ensures
        text::texts(final(list)@) == with_option(text::texts(old(list)@), key@, value@),
{
    text::note(list, "-o".to_owned());
    text::note(list, text::cat3(key, "=", value));
}

/// The command line of the simulated upgrade: the host's package state, and every
/// writable directory redirected.
pub open spec fn apt_command(hostfs: Seq<char>, cache: Seq<char>) -> Seq<Seq<char>> {
    let etc = below(hostfs, "etc/apt"@);
    let a = seq!["-s"@, "dist-upgrade"@];
    let a = with_option(a, "Dir::State::status"@, below(hostfs, "var/lib/dpkg/status"@));
    let a = with_option(a, "Dir::Etc::sourcelist"@, below(etc, "sources.list"@));
    let a = with_option(a, "Dir::Etc::sourceparts"@, below(etc, "sources.list.d"@));
    let a = with_option(a, "Dir::Etc::trusted"@, below(etc, "trusted.gpg"@));
    let a = with_option(a, "Dir::Etc::trustedparts"@, below(etc, "trusted.gpg.d"@));
    let a = with_option(a, "Dir::Etc::preferences"@, below(etc, "preferences"@));
    let a = with_option(a, "Dir::Etc::preferencesparts"@, below(etc, "preferences.d"@));
    let a = with_option(a, "Dir::State::lists"@, below(hostfs, "var/lib/apt/lists"@));
    let a = with_option(a, "Dir::Cache"@, cache);
    let a = with_option(a, "Debug::NoLocking"@, "1"@);
    with_option(a, "APT::Get::Show-Versions"@, "false"@)
}

/// The arguments `apt-get` is run with.
pub fn apt_arguments(hostfs: &str, cache: &str) -> (r: Vec<String>)
    ensures
        text::texts(r@) == apt_command(hostfs@, cache@),
{
    let paths = HostPaths::under(hostfs);
    let etc = paths.apt_etc.as_str();
    let mut args: Vec<String> = Vec::new();
    args.push("-s".to_owned());
    args.push("dist-upgrade".to_owned());
    proof {
        assert(text::texts(args@) =~= seq!["-s"@, "dist-upgrade"@]);
    }
    push_option(&mut args, "Dir::State::status", &paths.dpkg_status);
    push_option(&mut args, "Dir::Etc::sourcelist", &join_path(etc, "sources.list"));
    push_option(&mut args, "Dir::Etc::sourceparts", &join_path(etc, "sources.list.d"));
    push_option(&mut args, "Dir::Etc::trusted", &join_path(etc, "trusted.gpg"));
    push_option(&mut args, "Dir::Etc::trustedparts", &join_path(etc, "trusted.gpg.d"));
    push_option(&mut args, "Dir::Etc::preferences", &join_path(etc, "preferences"));
    push_option(&mut args, "Dir::Etc::preferencesparts", &join_path(etc, "preferences.d"));
    push_option(&mut args, "Dir::State::lists", &paths.apt_lists);
    // The one directory apt genuinely writes to.
    push_option(&mut args, "Dir::Cache", cache);
    // The mount is read-only, so there is no lock to take.
    push_option(&mut args, "Debug::NoLocking", "1");
    push_option(&mut args, "APT::Get::Show-Versions", "false");
    args
}

/// The variables `apt-get` is run with: temporary files in the scratch directory,
/// and untranslated output.
pub fn apt_environment(cache: &str) -> (r: Vec<(String, String)>)
    ensures
        pairs(r@) == seq![
            ("TMPDIR"@, cache@),
            ("LC_ALL"@, "C"@),
            ("LANG"@, "C"@),
            ("DEBIAN_FRONTEND"@, "noninteractive"@),
        ],
{
    let mut out: Vec<(String, String)> = Vec::new();
    out.push(("TMPDIR".to_owned(), cache.to_owned()));
    out.push(("LC_ALL".to_owned(), "C".to_owned()));
    out.push(("LANG".to_owned(), "C".to_owned()));
    out.push(("DEBIAN_FRONTEND".to_owned(), "noninteractive".to_owned()));
    proof {
        assert(pairs(out@) =~= seq![
            ("TMPDIR"@, cache@),
            ("LC_ALL"@, "C"@),
            ("LANG"@, "C"@),
            ("DEBIAN_FRONTEND"@, "noninteractive"@),
        ]);
    }
    out
}

/// Whether a line announces a package that would be installed or upgraded.
pub open spec fn announces(line: Seq<char>) -> bool {
    "Inst "@.is_prefix_of(line)
}

/// Whether it announces a security update: by the origin of the candidate, between
/// the parentheses, and never by the name of a package on either side of them.
pub open spec fn announces_security(line: Seq<char>) -> bool {
    let rest = line.skip("Inst "@.len() as int);
    let open = text::before_char(rest, '(') as int;
    let body = rest.skip(open + 1);
    let close = text::before_char(body, ')') as int;
    &&& announces(line)
    &&& open < rest.len()
    &&& text::occurs(text::lowered(body.take(close)), "-security"@)
}

/// One more, up to the largest count there is.
pub open spec fn one_more(n: u32) -> u32 {
    if n == u32::MAX {
        n
    } else {
        (n + 1) as u32
    }
}

/// How many of the first `n` lines announce a package.
pub open spec fn announced(lines: Seq<Seq<char>>, n: int) -> u32
    decreases n,
{
    if n <= 0 {
        0
    } else if announces(lines[n - 1]) {
        one_more(announced(lines, n - 1))
    } else {
        announced(lines, n - 1)
    }
}

/// How many of the first `n` lines announce a security update.
pub open spec fn announced_security(lines: Seq<Seq<char>>, n: int) -> u32
    decreases n,
{
    if n <= 0 {
        0
    } else if announces_security(lines[n - 1]) {
        one_more(announced_security(lines, n - 1))
    } else {
        announced_security(lines, n - 1)
    }
}

/// What a simulated upgrade says.
pub open spec fn counted(output: Seq<char>) -> Result<Counts, Reason> {
    let lines = text::lines(output);
    sound(announced(lines, lines.len() as int), announced_security(lines, lines.len() as int))
}

fn is_security(line: &str) -> (r: bool)
    ensures
        r == announces_security(line@),
{
    match text::strip_prefix(line, "Inst ") {
        None => false,
        Some(rest) => {
            proof {
                assert(line@.subrange(0, "Inst "@.len() as int) =~= "Inst "@);
                assert(line@.skip("Inst "@.len() as int) =~= rest@);
            }
            let c = text::chars_of(&rest);
            let open: usize = text::position_of(&c, '(', 0);
            proof {
                assert(c@.skip(0) =~= rest@);
            }
            if open >= c.len() {
                return false;
            }
            let close: usize = text::position_of(&c, ')', open + 1);
            let origin = text::string_between(&c, open + 1, close);
            proof {
                assert(origin@ =~= rest@.skip(open + 1).take(close - (open + 1)));
            }
            text::contains(&text::to_lower(&origin), "-security")
        }
    }
}

/// Counts what apt would install or upgrade, and how much of it is security
/// updates.
pub fn parse(stdout: &str) -> (r: Result<Counts, Reason>)
    ensures
        r == counted(stdout@),
{
    let lines = text::split_lines(stdout);
    let ghost every = text::lines(stdout@);
    let mut all: u32 = 0;
    let mut security: u32 = 0;
    let mut i: usize = 0;
    while i < lines.len()
        invariant
            i <= lines.len(),
            every == text::texts(lines@),
            all == announced(every, i as int),
            security == announced_security(every, i as int),
        decreases lines.len() - i,
    {
        proof {
            assert(every[i as int] == lines@[i as int]@);
        }
        if text::starts_with(&lines[i], "Inst ") {
            all = if all == u32::MAX {
                all
            } else {
                all + 1
            };
        }
        if is_security(&lines[i]) {
            security = if security == u32::MAX {
                security
            } else {
                security + 1
            };
        }
        i += 1;
    }
    proof {
        assert(every.len() == lines@.len());
    }
    Counts::checked(all, security)
}

proof fn lemma_security_is_a_subset(lines: Seq<Seq<char>>, n: int)
    ensures
        announced_security(lines, n) <= announced(lines, n),
    decreases n,
{
    if n > 0 {
        lemma_security_is_a_subset(lines, n - 1);
    }
}

/// Whatever apt prints, counting it succeeds, and no more security updates than
/// updates come out.
pub proof fn law_security_updates_are_updates(output: Seq<char>)
    ensures
        counted(output) matches Ok(c) && c.security <= c.all,
{
    lemma_security_is_a_subset(text::lines(output), text::lines(output).len() as int);
}

// ---------------------------------------------------------------------------
// The check
// ---------------------------------------------------------------------------

/// The first line from `i` on that is not blank.
pub open spec fn first_full(lines: Seq<Seq<char>>, i: int) -> Seq<char>
    decreases lines.len() - i,
{
    if i < 0 || i >= lines.len() {
        "no output"@
    } else if !text::is_blank(lines[i]) {
        text::trimmed(lines[i])
    } else {
        first_full(lines, i + 1)
    }
}

/// The first line of a text that is not blank.
pub fn first_line(s: &str) -> (r: String)
    ensures
        r@ == first_full(text::lines(s@), 0),
{
    let lines = text::split_lines(s);
    let ghost all = text::lines(s@);
    let mut i: usize = 0;
    while i < lines.len()
        invariant
            i <= lines.len(),
            all == text::texts(lines@),
            all == text::lines(s@),
            first_full(all, 0) == first_full(all, i as int),
        decreases lines.len() - i,
    {
        proof {
            assert(all[i as int] == lines@[i as int]@);
        }
        if !text::blank(&lines[i]) {
            return text::trim(&lines[i]);
        }
        i += 1;
    }
    "no output".to_owned()
}

/// How far a check came once its preconditions held.
#[derive(Debug)]
pub enum Attempt {
    /// The scratch directory could not be created.
    NoScratch(String),
    /// apt could not be run.
    NoApt(String),
    Ran { success: bool, status: String, stdout: Vec<u8>, stderr: Vec<u8> },
}

/// What a check finds.
pub open spec fn finding(
    hostfs: Seq<char>,
    scratch_base: Seq<char>,
    facts: HostFacts,
    attempt: Attempt,
    now: u64,
) -> Finding {
    match obstacle(hostfs, facts) {
        Some((reason, detail)) => failure(reason, detail, now),
        None => match attempt {
            Attempt::NoScratch(e) => failure(
                Reason::ScratchUnavailable,
                "cannot create a scratch directory below '"@ + scratch_base + "': "@ + e@
                    + ". apt writes its cache there even when simulating; with a read-only root filesystem this needs a tmpfs"@,
                now,
            ),
            Attempt::NoApt(e) => failure(
                Reason::AptFailed,
                "could not run apt-get: "@ + e@ + ". The runtime image must carry apt and dpkg"@,
                now,
            ),
            Attempt::Ran { success, status, stdout, stderr } => if !success {
                failure(
                    Reason::AptFailed,
                    "apt-get -s dist-upgrade exited with "@ + status@ + ": "@ + first_full(
                        text::lines(text::utf8_lossy(stderr@)),
                        0,
                    ),
                    now,
                )
            } else {
                match counted(text::utf8_lossy(stdout@)) {
                    Err(reason) => failure(
                        reason,
                        "apt's output did not parse: more security updates than updates in total, so neither number can be trusted"@,
                        now,
                    ),
                    Ok(counts) => Finding {
                        outcome: Ok(counts),
                        lists_age_seconds: age_of(facts.lists@, now),
                        at: now,
                        detail: None,
                    },
                }
            },
        },
    }
}

/// Judges one check: the preconditions first, then what became of the attempt.
/// A non-zero apt is not "zero updates".
pub fn check(
    hostfs: &str,
    scratch_base: &str,
    facts: &HostFacts,
    attempt: &Attempt,
    now: u64,
) -> (r: Report)
    ensures
        r@ == finding(hostfs@, scratch_base@, *facts, *attempt, now),
{
    if let Err(report) = preconditions(hostfs, facts, now) {
        return report;
    }
    match attempt {
        Attempt::NoScratch(e) => Report::failed(
            Reason::ScratchUnavailable,
            text::cat5(
                "cannot create a scratch directory below '",
                scratch_base,
                "': ",
                e,
                ". apt writes its cache there even when simulating; with a read-only root filesystem this needs a tmpfs",
            ),
            now,
        ),
        Attempt::NoApt(e) => Report::failed(
            Reason::AptFailed,
            text::cat3(
                "could not run apt-get: ",
                e,
                ". The runtime image must carry apt and dpkg",
            ),
            now,
        ),
        Attempt::Ran { success, status, stdout, stderr } => {
            if !*success {
                return Report::failed(
                    Reason::AptFailed,
                    text::cat4(
                        "apt-get -s dist-upgrade exited with ",
                        status,
                        ": ",
                        &first_line(&text::lossy(stderr)),
                    ),
                    now,
                );
            }
            match parse(&text::lossy(stdout)) {
                Err(reason) => Report::failed(
                    reason,
                    "apt's output did not parse: more security updates than updates in total, so neither number can be trusted".to_owned(),
                    now,
                ),
                Ok(counts) => Report {
                    outcome: Ok(counts),
                    lists_age_seconds: lists_age(&facts.lists, now),
                    at: now,
                    detail: None,
                },
            }
        }
    }
}

/// A check that could not look reports why, and no counts: counts come out only of
/// a run of apt that succeeded on a host that met every precondition.
pub proof fn law_counts_come_only_from_a_successful_run(
    hostfs: Seq<char>,
    scratch_base: Seq<char>,
    facts: HostFacts,
    attempt: Attempt,
    now: u64,
)
    ensures
        finding(hostfs, scratch_base, facts, attempt, now).outcome is Ok ==> obstacle(
            hostfs,
            facts,
        ) is None && (attempt matches Attempt::Ran { success, .. } && success),
{
}

} // verus!
