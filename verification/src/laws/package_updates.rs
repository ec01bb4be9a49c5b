//! What the check for pending package updates reports.

use vstd::prelude::*;
use vstd::string::*;
use crate::laws::text::{
    law_the_first_of_a_character, lemma_line, lemma_lines_parts, lemma_lowered_parts,
    lemma_part_occurs, lemma_trimmed, lemma_without_leading, lemma_without_trailing,
};
use crate::modules::updates::debian::{
    law_reasons_have_distinct_tokens, announced, announced_security, announces, announces_security,
    assigned, below, check, counted, first_assigned, holds_index, is_index, lists_age, names_debian,
    newest, obstacle, parse, preconditions, Attempt, Counts, HostFacts, ListEntry, Reason, Report,
    StatusFile, apt_arguments, apt_environment,
};
use crate::config::normalised::pairs;
use crate::text;

verus! {

// ---------------------------------------------------------------------------
// Counting
// ---------------------------------------------------------------------------

proof fn lemma_one_line(line: Seq<char>)
    requires
        line.len() > 0,
        !line.contains('\n'),
    ensures
        counted(line) == Ok::<Counts, Reason>(
            Counts {
                all: if announces(line) { 1 } else { 0 },
                security: if announces_security(line) { 1 } else { 0 },
            },
        ),
{
    lemma_line(line, Seq::empty());
    let lines = text::lines(line);
    assert(lines.len() == 1 && lines[0] == line);
    assert(announced(lines, 0) == 0 && announced_security(lines, 0) == 0);
    assert(announced(lines, 1) == if announces(line) { 1u32 } else { 0u32 });
    assert(announced_security(lines, 1) == if announces_security(line) { 1u32 } else { 0u32 });
}

proof fn lemma_parenthesised(a: Seq<char>, m: Seq<char>, d: Seq<char>)
    requires
        !a.contains('('),
        !m.contains(')'),
    ensures
        announces("Inst "@ + a + "("@ + m + ")"@ + d),
        announces_security("Inst "@ + a + "("@ + m + ")"@ + d) == text::occurs(
            text::lowered(m),
            "-security"@,
        ),
{
    reveal_strlit("Inst ");
    reveal_strlit("(");
    reveal_strlit(")");
    let line = "Inst "@ + a + "("@ + m + ")"@ + d;
    let body = m + ")"@ + d;
    let rest = a + seq!['('] + body;
    assert(line.subrange(0, 5) =~= "Inst "@);
    assert(line.skip(5) =~= rest);
    law_the_first_of_a_character(a, '(', body);
    assert(rest.skip(a.len() as int + 1) =~= body);
    assert(body =~= m + seq![')'] + d);
    law_the_first_of_a_character(m, ')', d);
    assert(body.take(m.len() as int) =~= m);
}

/// A package whose candidate comes from a security suite is one update and one
/// security update, wherever between the parentheses the suite stands, in whatever
/// case, and whatever else stands there.
pub proof fn law_a_security_origin_counts_wherever_it_stands(
    a: Seq<char>,
    b: Seq<char>,
    x: Seq<char>,
    c: Seq<char>,
    d: Seq<char>,
    stdout: &str,
    r: Result<Counts, Reason>,
)
    requires
        call_ensures(parse, (stdout,), r),
        stdout@ == "Inst "@ + a + "("@ + (b + x + c) + ")"@ + d,
        text::lowered(x) == "-security"@,
        !a.contains('('),
        !(b + x + c).contains(')'),
        !stdout@.contains('\n'),
    ensures
        r == Ok::<Counts, Reason>(Counts { all: 1, security: 1 }),
{
    reveal_strlit("Inst ");
    lemma_parenthesised(a, b + x + c, d);
    lemma_lowered_parts(b + x, c);
    lemma_lowered_parts(b, x);
    lemma_part_occurs(text::lowered(b), "-security"@, text::lowered(c));
    lemma_one_line(stdout@);
}

/// A package without a security suite between the parentheses is an update and no
/// security update, whatever stands on either side of them.
pub proof fn law_a_name_is_no_origin(
    a: Seq<char>,
    m: Seq<char>,
    d: Seq<char>,
    stdout: &str,
    r: Result<Counts, Reason>,
)
    requires
        call_ensures(parse, (stdout,), r),
        stdout@ == "Inst "@ + a + "("@ + m + ")"@ + d,
        !text::occurs(text::lowered(m), "-security"@),
        !a.contains('('),
        !m.contains(')'),
        !stdout@.contains('\n'),
    ensures
        r == Ok::<Counts, Reason>(Counts { all: 1, security: 0 }),
{
    reveal_strlit("Inst ");
    lemma_parenthesised(a, m, d);
    lemma_one_line(stdout@);
}

/// A package without parentheses is an update and no security update.
pub proof fn law_a_line_without_an_origin(a: Seq<char>, stdout: &str, r: Result<Counts, Reason>)
    requires
        call_ensures(parse, (stdout,), r),
        stdout@ == "Inst "@ + a,
        !a.contains('('),
        !a.contains('\n'),
    ensures
        r == Ok::<Counts, Reason>(Counts { all: 1, security: 0 }),
{
    reveal_strlit("Inst ");
    let line = stdout@;
    assert(line.subrange(0, 5) =~= "Inst "@);
    assert(line.skip(5) =~= a);
    law_the_first_of_a_character(a, '(', Seq::empty());
    assert(!line.contains('\n')) by {
        if line.contains('\n') {
            let k = choose|k: int| 0 <= k < line.len() && line[k] == '\n';
            if k >= 5 {
                assert(a[k - 5] == '\n');
            }
        }
    }
    lemma_one_line(line);
}

/// A line that does not start with `Inst ` announces nothing.
pub proof fn law_other_lines_do_not_count(stdout: &str, r: Result<Counts, Reason>)
    requires
        call_ensures(parse, (stdout,), r),
        !stdout@.contains('\n'),
        !("Inst "@.is_prefix_of(stdout@)),
    ensures
        r == Ok::<Counts, Reason>(Counts { all: 0, security: 0 }),
{
    if stdout@.len() > 0 {
        lemma_one_line(stdout@);
    } else {
        let lines = text::lines(stdout@);
        assert(lines.len() == 0);
        assert(announced(lines, 0) == 0 && announced_security(lines, 0) == 0);
    }
}

proof fn lemma_counts_of_first(a: Seq<Seq<char>>, b: Seq<Seq<char>>, n: int)
    requires
        0 <= n <= a.len(),
    ensures
        announced(a + b, n) == announced(a, n),
        announced_security(a + b, n) == announced_security(a, n),
    decreases n,
{
    if n > 0 {
        lemma_counts_of_first(a, b, n - 1);
        assert((a + b)[n - 1] == a[n - 1]);
    }
}

proof fn lemma_counts_at_most(a: Seq<Seq<char>>, n: int)
    requires
        n >= 0,
    ensures
        announced(a, n) <= n,
        announced_security(a, n) <= announced(a, n),
    decreases n,
{
    if n > 0 {
        lemma_counts_at_most(a, n - 1);
    }
}

proof fn lemma_counts_add(a: Seq<Seq<char>>, b: Seq<Seq<char>>, n: int)
    requires
        0 <= n <= b.len(),
        a.len() + b.len() < u32::MAX,
    ensures
        announced(a + b, a.len() + n) == announced(a, a.len() as int) + announced(b, n),
        announced_security(a + b, a.len() + n) == announced_security(a, a.len() as int)
            + announced_security(b, n),
    decreases n,
{
    lemma_counts_of_first(a, b, a.len() as int);
    lemma_counts_at_most(a, a.len() as int);
    if n > 0 {
        lemma_counts_add(a, b, n - 1);
        lemma_counts_at_most(b, n - 1);
        assert((a + b)[a.len() + n - 1] == b[n - 1]);
    }
}

/// Every line counts by itself: the counts of two outputs, one behind the other, are
/// the sums of their counts.
pub proof fn law_counts_add_up(
    a: &str,
    b: &str,
    both: &str,
    ra: Result<Counts, Reason>,
    rb: Result<Counts, Reason>,
    r: Result<Counts, Reason>,
)
    requires
        call_ensures(parse, (a,), ra),
        call_ensures(parse, (b,), rb),
        call_ensures(parse, (both,), r),
        both@ == a@ + b@,
        a@.len() > 0,
        a@.last() == '\n',
        text::lines(a@).len() + text::lines(b@).len() < u32::MAX,
    ensures
        ra matches Ok(x) && rb matches Ok(y) && r matches Ok(z) && z.all == x.all + y.all
            && z.security == x.security + y.security,
{
    let (la, lb) = (text::lines(a@), text::lines(b@));
    lemma_lines_parts(a@, b@);
    lemma_counts_add(la, lb, lb.len() as int);
    lemma_counts_at_most(la, la.len() as int);
    lemma_counts_at_most(lb, lb.len() as int);
}

// ---------------------------------------------------------------------------
// The age of the package lists
// ---------------------------------------------------------------------------

/// Whether an entry is a package index with a known time.
pub open spec fn dated(e: ListEntry) -> bool {
    text::occurs(e.name@, "_Packages"@) && e.modified is Some
}

proof fn lemma_newest(lists: Seq<ListEntry>, n: int)
    requires
        0 <= n <= lists.len(),
    ensures
        match newest(lists, n) {
            Some(m) => {
                &&& exists|i: int| 0 <= i < n && dated(#[trigger] lists[i]) && lists[i].modified == Some(m)
                &&& forall|i: int| 0 <= i < n && dated(#[trigger] lists[i]) ==> lists[i].modified->0 <= m
            },
            None => forall|i: int| 0 <= i < n ==> !dated(#[trigger] lists[i]),
        },
    decreases n,
{
    if n > 0 {
        lemma_newest(lists, n - 1);
        let e = lists[n - 1];
        match newest(lists, n - 1) {
            Some(m) => {
                let i = choose|i: int|
                    0 <= i < n - 1 && dated(#[trigger] lists[i]) && lists[i].modified == Some(m);
                if dated(e) && m < e.modified->0 {
                    assert(dated(lists[n - 1]));
                } else {
                    assert(dated(lists[i]));
                }
            },
            None => {
                if dated(e) {
                    assert(dated(lists[n - 1]));
                }
            },
        }
    }
}

/// The age is that of the newest package index, and never negative; without a dated
/// index there is none.
pub proof fn law_the_age_is_that_of_the_newest_index(
    lists: &Vec<ListEntry>,
    now: u64,
    r: Option<i64>,
)
    requires
        call_ensures(lists_age, (lists, now), r),
        now <= i64::MAX,
    ensures
        match r {
            Some(age) => {
                &&& age >= 0
                &&& forall|i: int|
                    0 <= i < lists@.len() && dated(#[trigger] lists@[i]) ==> age <= (
                    if lists@[i].modified->0 < now {
                        now - lists@[i].modified->0
                    } else {
                        0
                    })
                &&& exists|i: int|
                    0 <= i < lists@.len() && dated(#[trigger] lists@[i]) && (if lists@[i].modified->0
                        < now {
                        age == now - lists@[i].modified->0
                    } else {
                        age == 0
                    })
            },
            None => forall|i: int| 0 <= i < lists@.len() ==> !dated(#[trigger] lists@[i]),
        },
{
    lemma_newest(lists@, lists@.len() as int);
}

// ---------------------------------------------------------------------------
// What has to hold before
// ---------------------------------------------------------------------------

/// A check can run exactly on a mounted host of the Debian family with a filled
/// package database, apt's settings and a package index.
pub proof fn law_what_a_check_needs(hostfs: &str, facts: &HostFacts, now: u64, r: Result<(), Report>)
    requires
        call_ensures(preconditions, (hostfs, facts, now), r),
    ensures
        r is Ok <==> {
            &&& facts.is_dir
            &&& !facts.is_empty
            &&& facts.dpkg_status matches StatusFile::Present { size, opens } && size > 0 && opens
            &&& facts.apt_etc_is_dir
            &&& facts.apt_lists_is_dir
            &&& exists|i: int|
                0 <= i < facts.lists@.len() && text::occurs(
                    (#[trigger] facts.lists@[i]).name@,
                    "_Packages"@,
                )
            &&& facts.os_release@.len() > 0
            &&& names_debian(first_assigned(text::texts(facts.os_release@), "ID"@, 0))
                || names_debian(first_assigned(text::texts(facts.os_release@), "ID_LIKE"@, 0))
        },
        r matches Err(report) ==> report.outcome is Err && report.at == now
            && report.lists_age_seconds is None && report.detail is Some,
{
    assert(text::texts(facts.os_release@).len() == facts.os_release@.len());
    if let Err(report) = r {
        assert(report@.outcome is Err);
    }
    if holds_index(facts.lists@) {
        let i = choose|i: int|
            0 <= i < facts.lists@.len() && is_index((#[trigger] facts.lists@[i]).name@);
        assert(text::occurs(facts.lists@[i].name@, "_Packages"@));
    }
    if exists|i: int|
        0 <= i < facts.lists@.len() && text::occurs(
            (#[trigger] facts.lists@[i]).name@,
            "_Packages"@,
        ) {
        let i = choose|i: int|
            0 <= i < facts.lists@.len() && text::occurs(
                (#[trigger] facts.lists@[i]).name@,
                "_Packages"@,
            );
        assert(is_index(facts.lists@[i].name@));
    }
}

/// Each thing that is missing is reported as itself, the first of them first.
pub proof fn law_what_is_missing_is_named(
    hostfs: &str,
    facts: &HostFacts,
    now: u64,
    report: Report,
)
    requires
        call_ensures(preconditions, (hostfs, facts, now), Err::<(), Report>(report)),
    ensures
        !facts.is_dir || facts.is_empty <==> report.outcome == Err::<Counts, Reason>(
            Reason::HostfsNotMounted,
        ),
        facts.is_dir && !facts.is_empty ==> {
            &&& facts.dpkg_status is Unreadable ==> report.outcome == Err::<Counts, Reason>(
                Reason::DpkgStatusUnreadable,
            )
            &&& facts.dpkg_status matches StatusFile::Present { size, opens } ==> {
                &&& size == 0 <==> report.outcome == Err::<Counts, Reason>(Reason::DpkgStatusEmpty)
                &&& size > 0 && !opens ==> report.outcome == Err::<Counts, Reason>(
                    Reason::DpkgStatusUnreadable,
                )
                &&& size > 0 && opens ==> {
                    &&& !facts.apt_etc_is_dir <==> report.outcome == Err::<Counts, Reason>(
                        Reason::AptEtcMissing,
                    )
                    &&& facts.apt_etc_is_dir ==> {
                        &&& !facts.apt_lists_is_dir <==> report.outcome == Err::<Counts, Reason>(
                            Reason::AptListsMissing,
                        )
                        &&& facts.apt_lists_is_dir && holds_index(facts.lists@) ==> (
                        facts.os_release@.len() == 0 <==> report.outcome == Err::<Counts, Reason>(
                            Reason::OsReleaseUnreadable,
                        ))
                        &&& facts.apt_lists_is_dir && holds_index(facts.lists@)
                            && facts.os_release@.len() > 0 ==> report.outcome == Err::<
                            Counts,
                            Reason,
                        >(Reason::HostNotDebianFamily)
                        &&& facts.apt_lists_is_dir && !holds_index(facts.lists@)
                            ==> report.outcome == Err::<Counts, Reason>(Reason::AptListsEmpty)
                    }
                }
            }
        },
{
    assert(text::texts(facts.os_release@).len() == facts.os_release@.len());
    assert(report@.outcome == report.outcome);
}

/// An assignment gives what stands behind the equals sign, with or without quotes.
pub proof fn law_an_assignment_is_read(
    lines: Seq<Seq<char>>,
    key: Seq<char>,
    v: Seq<char>,
    k: int,
)
    requires
        0 <= k < lines.len(),
        lines[k] == key + "="@ + v || lines[k] == key + "=\""@ + v + "\""@,
        key.len() > 0,
        !text::whitespace(key[0]),
        v.len() > 0,
        !text::whitespace(v[0]),
        !text::whitespace(v.last()),
        v[0] != '"',
        v.last() != '"',
        forall|i: int|
            0 <= i < k ==> !(key + "="@).is_prefix_of(text::trimmed(#[trigger] lines[i])),
    ensures
        assigned(lines, key, 0) == Some(v),
{
    lemma_assignment_skips(lines, key, 0, k);
    reveal_strlit("=");
    reveal_strlit("=\"");
    reveal_strlit("\"");
    let prefix = key + "="@;
    let none = Seq::<char>::empty();
    let line = lines[k];
    lemma_trimmed(none, line, none);
    assert(none + line + none =~= line);
    assert(line.subrange(0, prefix.len() as int) =~= prefix);
    let value = line.skip(prefix.len() as int);
    lemma_trimmed(none, value, none);
    assert(none + value + none =~= value);
    if line == prefix + v {
        assert(value =~= v);
        lemma_without_leading('"', 0, v);
        assert(Seq::new(0, |i: int| '"') + v =~= v);
        lemma_without_trailing(v, '"', 0);
        assert(v + Seq::new(0, |i: int| '"') =~= v);
    } else {
        let one = Seq::new(1, |i: int| '"');
        assert(value =~= one + (v + one));
        lemma_without_leading('"', 1, v + one);
        lemma_without_trailing(v, '"', 1);
    }
}

proof fn lemma_assignment_skips(lines: Seq<Seq<char>>, key: Seq<char>, i: int, k: int)
    requires
        0 <= i <= k < lines.len(),
        forall|j: int|
            i <= j < k ==> !(key + "="@).is_prefix_of(text::trimmed(#[trigger] lines[j])),
    ensures
        assigned(lines, key, i) == assigned(lines, key, k),
    decreases k - i,
{
    if i < k {
        assert(!(key + "="@).is_prefix_of(text::trimmed(lines[i])));
        lemma_assignment_skips(lines, key, i + 1, k);
    }
}

/// The first file that gives a key a value decides it.
pub proof fn law_the_first_value_stands(texts: Seq<Seq<char>>, key: Seq<char>, k: int, v: Seq<char>)
    requires
        0 <= k < texts.len(),
        assigned(text::lines(texts[k]), key, 0) == Some(v),
        v.len() > 0,
        forall|i: int|
            0 <= i < k ==> (assigned(text::lines(#[trigger] texts[i]), key, 0) matches Some(w)
                ==> w.len() == 0),
    ensures
        first_assigned(texts, key, 0) == v,
{
    lemma_first_value(texts, key, 0, k);
}

proof fn lemma_first_value(texts: Seq<Seq<char>>, key: Seq<char>, i: int, k: int)
    requires
        0 <= i <= k < texts.len(),
        forall|j: int|
            i <= j < k ==> (assigned(text::lines(#[trigger] texts[j]), key, 0) matches Some(w)
                ==> w.len() == 0),
    ensures
        first_assigned(texts, key, i) == first_assigned(texts, key, k),
    decreases k - i,
{
    if i < k {
        assert(assigned(text::lines(texts[i]), key, 0) matches Some(w) ==> w.len() == 0);
        lemma_first_value(texts, key, i + 1, k);
    }
}

/// The family is named by one of the words.
pub proof fn law_the_family_is_a_word(names: Seq<char>)
    ensures
        names_debian(names) <==> exists|i: int|
            0 <= i < text::words(names).len() && (#[trigger] text::words(names)[i] == "debian"@
                || text::words(names)[i] == "ubuntu"@),
{
    let w = text::words(names);
    if w.contains("debian"@) {
        let i = choose|i: int| 0 <= i < w.len() && w[i] == "debian"@;
        assert(w[i] == "debian"@);
    }
    if w.contains("ubuntu"@) {
        let i = choose|i: int| 0 <= i < w.len() && w[i] == "ubuntu"@;
        assert(w[i] == "ubuntu"@);
    }
}

// ---------------------------------------------------------------------------
// The report
// ---------------------------------------------------------------------------

/// Every reason is told by the token that says what it is.
pub proof fn law_a_reason_is_told_by_its_token(reason: Reason, r: &'static str)
    requires
        call_ensures(Reason::as_str, (reason,), r),
    ensures
        reason == Reason::HostfsNotMounted <==> r@ == "hostfs_not_mounted"@,
        reason == Reason::DpkgStatusUnreadable <==> r@ == "dpkg_status_unreadable"@,
        reason == Reason::DpkgStatusEmpty <==> r@ == "dpkg_status_empty"@,
        reason == Reason::AptEtcMissing <==> r@ == "apt_etc_missing"@,
        reason == Reason::AptListsMissing <==> r@ == "apt_lists_missing"@,
        reason == Reason::AptListsEmpty <==> r@ == "apt_lists_empty"@,
        reason == Reason::OsReleaseUnreadable <==> r@ == "os_release_unreadable"@,
        reason == Reason::HostNotDebianFamily <==> r@ == "host_not_debian_family"@,
        reason == Reason::ScratchUnavailable <==> r@ == "scratch_unavailable"@,
        reason == Reason::AptFailed <==> r@ == "apt_failed"@,
        reason == Reason::ParseInconsistent <==> r@ == "parse_inconsistent"@,
{
    reveal_strlit("hostfs_not_mounted");
    reveal_strlit("dpkg_status_unreadable");
    reveal_strlit("dpkg_status_empty");
    reveal_strlit("apt_etc_missing");
    reveal_strlit("apt_lists_missing");
    reveal_strlit("apt_lists_empty");
    reveal_strlit("os_release_unreadable");
    reveal_strlit("host_not_debian_family");
    reveal_strlit("scratch_unavailable");
    reveal_strlit("apt_failed");
    reveal_strlit("parse_inconsistent");
    if r@ == Reason::HostfsNotMounted.token() {
        law_reasons_have_distinct_tokens(reason, Reason::HostfsNotMounted);
    }
    if r@ == Reason::DpkgStatusUnreadable.token() {
        law_reasons_have_distinct_tokens(reason, Reason::DpkgStatusUnreadable);
    }
    if r@ == Reason::DpkgStatusEmpty.token() {
        law_reasons_have_distinct_tokens(reason, Reason::DpkgStatusEmpty);
    }
    if r@ == Reason::AptEtcMissing.token() {
        law_reasons_have_distinct_tokens(reason, Reason::AptEtcMissing);
    }
    if r@ == Reason::AptListsMissing.token() {
        law_reasons_have_distinct_tokens(reason, Reason::AptListsMissing);
    }
    if r@ == Reason::AptListsEmpty.token() {
        law_reasons_have_distinct_tokens(reason, Reason::AptListsEmpty);
    }
    if r@ == Reason::OsReleaseUnreadable.token() {
        law_reasons_have_distinct_tokens(reason, Reason::OsReleaseUnreadable);
    }
    if r@ == Reason::HostNotDebianFamily.token() {
        law_reasons_have_distinct_tokens(reason, Reason::HostNotDebianFamily);
    }
    if r@ == Reason::ScratchUnavailable.token() {
        law_reasons_have_distinct_tokens(reason, Reason::ScratchUnavailable);
    }
    if r@ == Reason::AptFailed.token() {
        law_reasons_have_distinct_tokens(reason, Reason::AptFailed);
    }
    if r@ == Reason::ParseInconsistent.token() {
        law_reasons_have_distinct_tokens(reason, Reason::ParseInconsistent);
    }
}

/// A successful check reports its time, its age where known, and the counts, each
/// under its own severity; a failed one reports its reason and its time.
pub proof fn law_the_lines_say_what_was_found(report: &Report, security_metric: bool, r: String)
    requires
        call_ensures(Report::line_protocol, (report, security_metric), r),
    ensures
        match report.outcome {
            Ok(counts) => {
                &&& text::occurs(
                    r@,
                    "muninn_updates,status=ok,reason=none check_success=1i,check_timestamp_seconds="@
                        + text::decimal(report.at as nat) + "i"@,
                )
                &&& text::occurs(
                    r@,
                    "\nmuninn_updates,severity=all pending="@ + text::decimal(counts.all as nat)
                        + "i\n"@,
                )
                &&& security_metric ==> text::occurs(
                    r@,
                    "muninn_updates,severity=security pending="@ + text::decimal(
                        counts.security as nat,
                    ) + "i\n"@,
                )
                &&& report.lists_age_seconds matches Some(age) ==> text::occurs(
                    r@,
                    ",lists_age_seconds="@ + text::signed(age as int) + "i"@,
                )
            },
            Err(reason) => text::occurs(
                r@,
                "muninn_updates,status=error,reason="@ + reason.token()
                    + " check_success=0i,check_timestamp_seconds="@ + text::decimal(
                    report.at as nat,
                ) + "i\n"@,
            ),
        },
{
    let none = Seq::<char>::empty();
    let at = text::decimal(report.at as nat);
    match report.outcome {
        Ok(counts) => {
            let head = "muninn_updates,status=ok,reason=none check_success=1i,check_timestamp_seconds="@
                + at + "i"@;
            let age = crate::modules::updates::debian::age_field(report.lists_age_seconds);
            let all = "\nmuninn_updates,severity=all pending="@ + text::decimal(counts.all as nat)
                + "i\n"@;
            let security = "muninn_updates,severity=security pending="@ + text::decimal(
                counts.security as nat,
            ) + "i\n"@;
            let tail = if security_metric {
                security
            } else {
                none
            };
            assert(r@ =~= head + age + all + tail);
            lemma_part_of_four(head, age, all, tail);
        },
        Err(reason) => {
            assert(none + r@ + none =~= r@);
            lemma_part_occurs(none, r@, none);
        },
    }
}

proof fn lemma_part_of_four(a: Seq<char>, b: Seq<char>, c: Seq<char>, d: Seq<char>)
    ensures
        text::occurs(a + b + c + d, a),
        text::occurs(a + b + c + d, b),
        text::occurs(a + b + c + d, c),
        text::occurs(a + b + c + d, d),
{
    let none = Seq::<char>::empty();
    lemma_part_occurs(none, a, b + c + d);
    assert(none + a + (b + c + d) =~= a + b + c + d);
    lemma_part_occurs(a, b, c + d);
    assert(a + b + (c + d) =~= a + b + c + d);
    lemma_part_occurs(a + b, c, d);
    lemma_part_occurs(a + b + c, d, none);
    assert(a + b + c + d + none =~= a + b + c + d);
}

/// Without the security metric the lines are the same but for the one about security
/// updates.
pub proof fn law_the_security_line_is_all_that_is_left_out(report: &Report, with: String, without: String)
    requires
        call_ensures(Report::line_protocol, (report, true), with),
        call_ensures(Report::line_protocol, (report, false), without),
    ensures
        match report.outcome {
            Ok(counts) => with@ == without@ + ("muninn_updates,severity=security pending="@
                + text::decimal(counts.security as nat) + "i\n"@),
            Err(_) => with@ == without@,
        },
{
    if let Ok(counts) = report.outcome {
        assert(with@ =~= without@ + ("muninn_updates,severity=security pending="@ + text::decimal(
            counts.security as nat,
        ) + "i\n"@));
    }
}

/// A run of apt that succeeded on a fit host gives the counts of what it printed; one
/// that did not gives the reason, and the check's time stands in either.
pub proof fn law_a_check_reports_what_apt_printed(
    hostfs: &str,
    scratch_base: &str,
    facts: &HostFacts,
    attempt: &Attempt,
    now: u64,
    r: Report,
    pre: Result<(), Report>,
    counts: Result<Counts, Reason>,
    age: Option<i64>,
    output: &str,
)
    requires
        call_ensures(check, (hostfs, scratch_base, facts, attempt, now), r),
        call_ensures(preconditions, (hostfs, facts, now), pre),
        call_ensures(parse, (output,), counts),
        call_ensures(lists_age, (&facts.lists, now), age),
    ensures
        r.at == now,
        pre matches Err(p) ==> r@ == p@,
        pre is Ok ==> match *attempt {
            Attempt::NoScratch(_) => r.outcome == Err::<Counts, Reason>(Reason::ScratchUnavailable),
            Attempt::NoApt(_) => r.outcome == Err::<Counts, Reason>(Reason::AptFailed),
            Attempt::Ran { success, status, stdout, stderr } => {
                &&& !success ==> r.outcome == Err::<Counts, Reason>(Reason::AptFailed)
                &&& success && output@ == text::utf8_lossy(stdout@) ==> r.outcome == counts
                    && r.lists_age_seconds == age && r.detail is None
            },
        },
{
    crate::modules::updates::debian::law_security_updates_are_updates(output@);
    assert(r@.at == r.at && r@.outcome == r.outcome);
    if let Err(p) = pre {
        assert(r@.detail == p@.detail);
    }
    if pre is Ok {
        assert(obstacle(hostfs@, *facts) is None);
        if let Attempt::Ran { success, status, stdout, stderr } = *attempt {
            if success && output@ == text::utf8_lossy(stdout@) {
                assert(r@.outcome == counts);
                assert(r@.detail is None);
            }
        }
    }
}

// ---------------------------------------------------------------------------
// apt
// ---------------------------------------------------------------------------

/// Whether a command line gives an option.
pub open spec fn gives(list: Seq<Seq<char>>, option: Seq<char>) -> bool {
    exists|i: int| #[trigger] gives_at(list, i, option)
}

/// Whether it gives the option at this place.
pub open spec fn gives_at(list: Seq<Seq<char>>, i: int, option: Seq<char>) -> bool {
    0 <= i && i + 1 < list.len() && list[i] == "-o"@ && list[i + 1] == option
}

/// apt simulates an upgrade of the mounted host: its state, sources and lists are read
/// below the mount, and only the cache is elsewhere.
pub proof fn law_apt_looks_at_the_mounted_host(hostfs: &str, cache: &str, r: Vec<String>)
    requires
        call_ensures(apt_arguments, (hostfs, cache), r),
        hostfs@.len() > 0,
        hostfs@.last() != '/',
    ensures
        text::texts(r@)[0] == "-s"@,
        text::texts(r@)[1] == "dist-upgrade"@,
        gives(text::texts(r@), "Dir::State::status"@ + "="@ + (hostfs@ + "/"@ + "var/lib/dpkg/status"@)),
        gives(text::texts(r@), "Dir::Etc::sourcelist"@ + "="@ + (hostfs@ + "/"@ + "etc/apt"@ + "/"@ + "sources.list"@)),
        gives(text::texts(r@), "Dir::Etc::sourceparts"@ + "="@ + (hostfs@ + "/"@ + "etc/apt"@ + "/"@ + "sources.list.d"@)),
        gives(text::texts(r@), "Dir::Etc::trusted"@ + "="@ + (hostfs@ + "/"@ + "etc/apt"@ + "/"@ + "trusted.gpg"@)),
        gives(text::texts(r@), "Dir::Etc::trustedparts"@ + "="@ + (hostfs@ + "/"@ + "etc/apt"@ + "/"@ + "trusted.gpg.d"@)),
        gives(text::texts(r@), "Dir::Etc::preferences"@ + "="@ + (hostfs@ + "/"@ + "etc/apt"@ + "/"@ + "preferences"@)),
        gives(text::texts(r@), "Dir::Etc::preferencesparts"@ + "="@ + (hostfs@ + "/"@ + "etc/apt"@ + "/"@ + "preferences.d"@)),
        gives(text::texts(r@), "Dir::State::lists"@ + "="@ + (hostfs@ + "/"@ + "var/lib/apt/lists"@)),
        gives(text::texts(r@), "Dir::Cache"@ + "="@ + cache@),
        gives(text::texts(r@), "Debug::NoLocking"@ + "="@ + "1"@),
        gives(text::texts(r@), "APT::Get::Show-Versions"@ + "="@ + "false"@),
{
    let l = text::texts(r@);
    reveal_strlit("etc/apt");
    let etc = below(hostfs@, "etc/apt"@);
    assert(etc.last() == 't');
    assert(l.len() == 24);
    assert(gives_at(l, 2, "Dir::State::status"@ + "="@ + (hostfs@ + "/"@ + "var/lib/dpkg/status"@)));
    assert(gives_at(l, 4, "Dir::Etc::sourcelist"@ + "="@ + (hostfs@ + "/"@ + "etc/apt"@ + "/"@ + "sources.list"@)));
    assert(gives_at(l, 6, "Dir::Etc::sourceparts"@ + "="@ + (hostfs@ + "/"@ + "etc/apt"@ + "/"@ + "sources.list.d"@)));
    assert(gives_at(l, 8, "Dir::Etc::trusted"@ + "="@ + (hostfs@ + "/"@ + "etc/apt"@ + "/"@ + "trusted.gpg"@)));
    assert(gives_at(l, 10, "Dir::Etc::trustedparts"@ + "="@ + (hostfs@ + "/"@ + "etc/apt"@ + "/"@ + "trusted.gpg.d"@)));
    assert(gives_at(l, 12, "Dir::Etc::preferences"@ + "="@ + (hostfs@ + "/"@ + "etc/apt"@ + "/"@ + "preferences"@)));
    assert(gives_at(l, 14, "Dir::Etc::preferencesparts"@ + "="@ + (hostfs@ + "/"@ + "etc/apt"@ + "/"@ + "preferences.d"@)));
    assert(gives_at(l, 16, "Dir::State::lists"@ + "="@ + (hostfs@ + "/"@ + "var/lib/apt/lists"@)));
    assert(gives_at(l, 18, "Dir::Cache"@ + "="@ + cache@));
    assert(gives_at(l, 20, "Debug::NoLocking"@ + "="@ + "1"@));
    assert(gives_at(l, 22, "APT::Get::Show-Versions"@ + "="@ + "false"@));
}

/// apt writes its temporary files into the cache and prints untranslated.
pub proof fn law_apt_runs_untranslated_in_its_cache(cache: &str, r: Vec<(String, String)>)
    requires
        call_ensures(apt_environment, (cache,), r),
    ensures
        pairs(r@).contains(("TMPDIR"@, cache@)),
        pairs(r@).contains(("LC_ALL"@, "C"@)),
        pairs(r@).contains(("LANG"@, "C"@)),
{
    assert(pairs(r@)[0] == ("TMPDIR"@, cache@));
    assert(pairs(r@)[1] == ("LC_ALL"@, "C"@));
    assert(pairs(r@)[2] == ("LANG"@, "C"@));
}

/// What is told of a failed run is its first line that says anything.
pub proof fn law_the_first_line_that_says_anything(lines: Seq<Seq<char>>, k: int)
    requires
        0 <= k < lines.len(),
        !text::is_blank(lines[k]),
        forall|i: int| 0 <= i < k ==> text::is_blank(#[trigger] lines[i]),
    ensures
        crate::modules::updates::debian::first_full(lines, 0) == text::trimmed(lines[k]),
{
    lemma_blank_lines(lines, 0, k);
}

proof fn lemma_blank_lines(lines: Seq<Seq<char>>, i: int, k: int)
    requires
        0 <= i <= k < lines.len(),
        forall|j: int| i <= j < k ==> text::is_blank(#[trigger] lines[j]),
    ensures
        crate::modules::updates::debian::first_full(lines, i)
            == crate::modules::updates::debian::first_full(lines, k),
    decreases k - i,
{
    if i < k {
        assert(text::is_blank(lines[i]));
        lemma_blank_lines(lines, i + 1, k);
    }
}

} // verus!
