//! What is reported about the agent itself.

use vstd::prelude::*;
use vstd::string::*;
use crate::duration::ConfigDuration;
use crate::health::metrics::{
    bit, check_families, duration_family, escape, escaped, escaped_char, exposition, info_family,
    intro, render_at, seconds_text, single, state_family, success_series, timestamp_series,
    version_or_unknown,
};
use crate::health::server::{live, ready, status_at, Live, Ready, Status};
use crate::health::state::{place_of, recorded, sorted, HealthState, ModuleCheck, State};
use crate::laws::text::{lemma_head5, lemma_occurs_within, lemma_tail3, lemma_tail4, lemma_tail5};
use crate::text;

verus! {

// ---------------------------------------------------------------------------
// Metrics
// ---------------------------------------------------------------------------

/// The line of a series without labels.
pub open spec fn plain_line(name: Seq<char>, value: Seq<char>) -> Seq<char> {
    name + " "@ + value + "\n"@
}

/// The line of a module's series.
pub open spec fn module_line(series: Seq<char>, module: Seq<char>, value: Seq<char>) -> Seq<char> {
    series + escaped(module) + "\"} "@ + value + "\n"@
}

/// One and zero.
pub open spec fn one_if(b: bool) -> Seq<char> {
    if b {
        "1"@
    } else {
        "0"@
    }
}

proof fn lemma_single(name: Seq<char>, kind: Seq<char>, about: Seq<char>, value: Seq<char>)
    ensures
        text::occurs(single(name, kind, about, value), plain_line(name, value)),
{
    lemma_tail4(intro(name, kind, about), name, " "@, value, "\n"@);
}

proof fn lemma_series(list: Seq<(Seq<char>, ModuleCheck)>, i: int)
    requires
        0 <= i < list.len(),
    ensures
        text::occurs(
            success_series(list),
            module_line(
                "muninn_module_check_success{module=\""@,
                list[i].0,
                one_if(list[i].1.success),
            ),
        ),
        text::occurs(
            timestamp_series(list),
            module_line(
                "muninn_module_check_timestamp_seconds{module=\""@,
                list[i].0,
                text::decimal(list[i].1.at as nat),
            ),
        ),
    decreases list.len(),
{
    let s = "muninn_module_check_success{module=\""@;
    let t = "muninn_module_check_timestamp_seconds{module=\""@;
    let rest = list.drop_last();
    let (rs, rt) = (success_series(rest), timestamp_series(rest));
    let (last, check) = list.last();
    let (name, flag, at) = (escaped(last), bit(check.success), text::decimal(check.at as nat));
    if i == list.len() - 1 {
        lemma_tail5(rs, s, name, "\"} "@, flag, "\n"@);
        lemma_tail5(rt, t, name, "\"} "@, at, "\n"@);
    } else {
        lemma_series(rest, i);
        assert(rest[i] == list[i]);
        lemma_head5(
            rs,
            s,
            name,
            "\"} "@,
            flag,
            "\n"@,
            module_line(s, list[i].0, one_if(list[i].1.success)),
        );
        lemma_head5(
            rt,
            t,
            name,
            "\"} "@,
            at,
            "\n"@,
            module_line(t, list[i].0, text::decimal(list[i].1.at as nat)),
        );
    }
}

proof fn lemma_checks(list: Seq<(Seq<char>, ModuleCheck)>, i: int)
    requires
        0 <= i < list.len(),
    ensures
        text::occurs(
            check_families(list),
            module_line(
                "muninn_module_check_success{module=\""@,
                list[i].0,
                one_if(list[i].1.success),
            ),
        ),
        text::occurs(
            check_families(list),
            module_line(
                "muninn_module_check_timestamp_seconds{module=\""@,
                list[i].0,
                text::decimal(list[i].1.at as nat),
            ),
        ),
{
    let none = Seq::<char>::empty();
    lemma_series(list, i);
    let a = intro(
        "muninn_module_check_success"@,
        "gauge"@,
        "1 when a module's last self-check succeeded."@,
    );
    let b = intro(
        "muninn_module_check_timestamp_seconds"@,
        "gauge"@,
        "When a module last completed a self-check."@,
    );
    let (s, t) = (success_series(list), timestamp_series(list));
    lemma_occurs_within(
        a,
        s,
        b + t,
        module_line(
            "muninn_module_check_success{module=\""@,
            list[i].0,
            one_if(list[i].1.success),
        ),
    );
    assert(a + s + (b + t) =~= check_families(list));
    lemma_occurs_within(
        a + s + b,
        t,
        none,
        module_line(
            "muninn_module_check_timestamp_seconds{module=\""@,
            list[i].0,
            text::decimal(list[i].1.at as nat),
        ),
    );
    assert(a + s + b + t + none =~= check_families(list));
}

spec fn family(s: HealthState, uptime: ConfigDuration, version: Seq<char>, i: int) -> Seq<char> {
    if i == 0 {
        info_family(version, version_or_unknown(s.details.telegraf_version))
    } else if i == 1 {
        state_family(s.state.name())
    } else if i == 2 {
        single(
            "muninn_uptime_seconds"@,
            "gauge"@,
            "Process uptime."@,
            seconds_text(uptime.secs, uptime.nanos),
        )
    } else if i == 3 {
        single(
            "muninn_ready"@,
            "gauge"@,
            "1 when /health/ready would succeed."@,
            bit(s.state.ready()),
        )
    } else if i == 4 {
        single(
            "muninn_telegraf_running"@,
            "gauge"@,
            "1 when Telegraf is running as a supervised child."@,
            bit(s.details.telegraf_pid is Some),
        )
    } else if i == 5 {
        single(
            "muninn_telegraf_restarts_total"@,
            "counter"@,
            "Times Telegraf has been restarted by muninn. Zero unless a bounded restart policy is enabled."@,
            text::decimal(s.telegraf_restarts as nat),
        )
    } else if i == 6 {
        duration_family(
            "muninn_config_generation_duration_seconds"@,
            "Time taken to render the Telegraf configuration."@,
            s.details.config_generation,
        )
    } else if i == 7 {
        duration_family(
            "muninn_telegraf_validation_duration_seconds"@,
            "Time taken by `telegraf config check`."@,
            s.details.telegraf_validation,
        )
    } else {
        check_families(s.details.module_checks@)
    }
}

spec fn families(s: HealthState, uptime: ConfigDuration, version: Seq<char>, n: int) -> Seq<char>
    decreases n,
{
    if n <= 0 {
        Seq::empty()
    } else if n == 1 {
        family(s, uptime, version, 0)
    } else {
        families(s, uptime, version, n - 1) + family(s, uptime, version, n - 1)
    }
}

proof fn lemma_family_occurs(
    s: HealthState,
    uptime: ConfigDuration,
    version: Seq<char>,
    n: int,
    i: int,
    needle: Seq<char>,
)
    requires
        0 <= i < n,
        text::occurs(family(s, uptime, version, i), needle),
    ensures
        text::occurs(families(s, uptime, version, n), needle),
    decreases n,
{
    let none = Seq::<char>::empty();
    if n > 1 {
        let (rest, last) = (families(s, uptime, version, n - 1), family(s, uptime, version, n - 1));
        if i == n - 1 {
            lemma_occurs_within(rest, last, none, needle);
            assert(rest + last + none =~= rest + last);
        } else {
            lemma_family_occurs(s, uptime, version, n - 1, i, needle);
            lemma_occurs_within(none, rest, last, needle);
            assert(none + rest + last =~= rest + last);
        }
    }
}

proof fn lemma_families(s: HealthState, uptime: ConfigDuration, version: Seq<char>)
    ensures
        families(s, uptime, version, 9) == exposition(s, uptime, version),
{
    reveal_with_fuel(families, 10);
}

proof fn lemma_info(version: Seq<char>, telegraf: Seq<char>)
    ensures
        text::occurs(
            info_family(version, telegraf),
            "muninn_info{version=\""@ + escaped(version) + "\",telegraf_version=\""@ + escaped(
                telegraf,
            ) + "\"} 1\n"@,
        ),
{
    lemma_tail5(
        intro("muninn_info"@, "gauge"@, "Build information."@),
        "muninn_info{version=\""@,
        escaped(version),
        "\",telegraf_version=\""@,
        escaped(telegraf),
        "\"} 1\n"@,
    );
}

proof fn lemma_state(name: Seq<char>)
    ensures
        text::occurs(
            state_family(name),
            "muninn_state{state=\""@ + escaped(name) + "\"} 1\n"@,
        ),
{
    let head = intro(
        "muninn_state"@,
        "gauge"@,
        "Current supervisor state, as a label; the value is always 1."@,
    );
    lemma_tail3(head, "muninn_state{state=\""@, escaped(name), "\"} 1\n"@);
}

/// The metrics say what state the agent is in: whether it is ready, whether Telegraf
/// runs, how often it was restarted, how long it is up and how long its steps took.
pub proof fn law_the_metrics_say_how_the_agent_is(
    s: &HealthState,
    uptime: &ConfigDuration,
    version: &str,
    r: String,
)
    requires
        call_ensures(render_at, (s, uptime, version), r),
    ensures
        text::occurs(
            r@,
            "muninn_info{version=\""@ + escaped(version@) + "\",telegraf_version=\""@ + escaped(
                match s.details.telegraf_version {
                    Some(v) => v@,
                    None => "unknown"@,
                },
            ) + "\"} 1\n"@,
        ),
        text::occurs(r@, "muninn_state{state=\""@ + escaped(s.state.name()) + "\"} 1\n"@),
        text::occurs(
            r@,
            plain_line("muninn_uptime_seconds"@, seconds_text(uptime.secs, uptime.nanos)),
        ),
        text::occurs(
            r@,
            plain_line(
                "muninn_ready"@,
                one_if(s.state == State::Ready || s.state == State::Degraded),
            ),
        ),
        text::occurs(
            r@,
            plain_line("muninn_telegraf_running"@, one_if(s.details.telegraf_pid is Some)),
        ),
        text::occurs(
            r@,
            plain_line(
                "muninn_telegraf_restarts_total"@,
                text::decimal(s.telegraf_restarts as nat),
            ),
        ),
        s.details.config_generation matches Some(d) ==> text::occurs(
            r@,
            plain_line(
                "muninn_config_generation_duration_seconds"@,
                seconds_text(d.secs, d.nanos),
            ),
        ),
        s.details.telegraf_validation matches Some(d) ==> text::occurs(
            r@,
            plain_line(
                "muninn_telegraf_validation_duration_seconds"@,
                seconds_text(d.secs, d.nanos),
            ),
        ),
{
    let (h, u, v) = (*s, *uptime, version@);
    lemma_families(h, u, v);
    let tv = version_or_unknown(h.details.telegraf_version);
    lemma_info(v, tv);
    lemma_family_occurs(
        h,
        u,
        v,
        9,
        0,
        "muninn_info{version=\""@ + escaped(v) + "\",telegraf_version=\""@ + escaped(tv) + "\"} 1\n"@,
    );
    lemma_state(h.state.name());
    lemma_family_occurs(
        h,
        u,
        v,
        9,
        1,
        "muninn_state{state=\""@ + escaped(h.state.name()) + "\"} 1\n"@,
    );
    lemma_single(
        "muninn_uptime_seconds"@,
        "gauge"@,
        "Process uptime."@,
        seconds_text(u.secs, u.nanos),
    );
    lemma_family_occurs(
        h,
        u,
        v,
        9,
        2,
        plain_line("muninn_uptime_seconds"@, seconds_text(u.secs, u.nanos)),
    );
    lemma_single(
        "muninn_ready"@,
        "gauge"@,
        "1 when /health/ready would succeed."@,
        bit(h.state.ready()),
    );
    lemma_family_occurs(h, u, v, 9, 3, plain_line("muninn_ready"@, bit(h.state.ready())));
    lemma_single(
        "muninn_telegraf_running"@,
        "gauge"@,
        "1 when Telegraf is running as a supervised child."@,
        bit(h.details.telegraf_pid is Some),
    );
    lemma_family_occurs(
        h,
        u,
        v,
        9,
        4,
        plain_line("muninn_telegraf_running"@, bit(h.details.telegraf_pid is Some)),
    );
    lemma_single(
        "muninn_telegraf_restarts_total"@,
        "counter"@,
        "Times Telegraf has been restarted by muninn. Zero unless a bounded restart policy is enabled."@,
        text::decimal(h.telegraf_restarts as nat),
    );
    lemma_family_occurs(
        h,
        u,
        v,
        9,
        5,
        plain_line(
            "muninn_telegraf_restarts_total"@,
            text::decimal(h.telegraf_restarts as nat),
        ),
    );
    if let Some(d) = h.details.config_generation {
        lemma_single(
            "muninn_config_generation_duration_seconds"@,
            "gauge"@,
            "Time taken to render the Telegraf configuration."@,
            seconds_text(d.secs, d.nanos),
        );
        lemma_family_occurs(
            h,
            u,
            v,
            9,
            6,
            plain_line(
                "muninn_config_generation_duration_seconds"@,
                seconds_text(d.secs, d.nanos),
            ),
        );
    }
    if let Some(d) = h.details.telegraf_validation {
        lemma_single(
            "muninn_telegraf_validation_duration_seconds"@,
            "gauge"@,
            "Time taken by `telegraf config check`."@,
            seconds_text(d.secs, d.nanos),
        );
        lemma_family_occurs(
            h,
            u,
            v,
            9,
            7,
            plain_line(
                "muninn_telegraf_validation_duration_seconds"@,
                seconds_text(d.secs, d.nanos),
            ),
        );
    }
}

/// Every module that was checked has a line with its own result and a line with its own
/// time, whatever else was recorded.
pub proof fn law_every_module_shows_its_own_check(
    s: &HealthState,
    uptime: &ConfigDuration,
    version: &str,
    r: String,
    i: int,
)
    requires
        call_ensures(render_at, (s, uptime, version), r),
        0 <= i < s.details.module_checks@.len(),
    ensures
        text::occurs(
            r@,
            module_line(
                "muninn_module_check_success{module=\""@,
                s.details.module_checks@[i].0,
                one_if(s.details.module_checks@[i].1.success),
            ),
        ),
        text::occurs(
            r@,
            module_line(
                "muninn_module_check_timestamp_seconds{module=\""@,
                s.details.module_checks@[i].0,
                text::decimal(s.details.module_checks@[i].1.at as nat),
            ),
        ),
{
    let (h, u, v) = (*s, *uptime, version@);
    let list = h.details.module_checks@;
    lemma_families(h, u, v);
    lemma_checks(list, i);
    lemma_family_occurs(
        h,
        u,
        v,
        9,
        8,
        module_line(
            "muninn_module_check_success{module=\""@,
            list[i].0,
            one_if(list[i].1.success),
        ),
    );
    lemma_family_occurs(
        h,
        u,
        v,
        9,
        8,
        module_line(
            "muninn_module_check_timestamp_seconds{module=\""@,
            list[i].0,
            text::decimal(list[i].1.at as nat),
        ),
    );
}

proof fn lemma_escaped_parts(a: Seq<char>, b: Seq<char>)
    ensures
        escaped(a + b) == escaped(a) + escaped(b),
    decreases b.len(),
{
    if b.len() == 0 {
        assert(a + b =~= a);
        assert(escaped(a) + escaped(b) =~= escaped(a));
    } else {
        lemma_escaped_parts(a, b.drop_last());
        assert((a + b).drop_last() =~= a + b.drop_last());
        assert((a + b).last() == b.last());
        assert(escaped(a + b) =~= escaped(a) + escaped(b));
    }
}

/// A label value is escaped character by character: a backslash and a quote behind a
/// backslash, a line end as a backslash and an `n`, anything else as it is.
pub proof fn law_labels_are_escaped_by_character(a: Seq<char>, c: char, b: Seq<char>, s: &str, r: String)
    requires
        call_ensures(escape, (s,), r),
        s@ == a + seq![c] + b,
    ensures
        r@ == escaped(a) + (if c == '\\' {
            seq!['\\', '\\']
        } else if c == '"' {
            seq!['\\', '"']
        } else if c == '\n' {
            seq!['\\', 'n']
        } else {
            seq![c]
        }) + escaped(b),
        escaped(Seq::<char>::empty()) == Seq::<char>::empty(),
{
    lemma_escaped_parts(a + seq![c], b);
    lemma_escaped_parts(a, seq![c]);
    reveal_strlit("\\\\");
    reveal_strlit("\\\"");
    reveal_strlit("\\n");
    assert(seq![c].drop_last() =~= Seq::<char>::empty());
    assert(seq![c].last() == c);
    assert(escaped(seq![c].drop_last()) =~= Seq::<char>::empty());
    assert(escaped(seq![c]) =~= escaped_char(c));
    assert("\\\\"@ =~= seq!['\\', '\\']);
    assert("\\\""@ =~= seq!['\\', '"']);
    assert("\\n"@ =~= seq!['\\', 'n']);
}

// ---------------------------------------------------------------------------
// Records
// ---------------------------------------------------------------------------

proof fn lemma_place(list: Seq<(Seq<char>, ModuleCheck)>, name: Seq<char>, i: int)
    requires
        0 <= i <= list.len(),
        sorted(list),
    ensures
        i <= place_of(list, name, i) <= list.len(),
        forall|j: int| i <= j < place_of(list, name, i) ==> text::sorts_before((#[trigger] list[j]).0, name),
        forall|j: int| place_of(list, name, i) <= j < list.len() && (#[trigger] list[j]).0 == name
            ==> j == place_of(list, name, i),
    decreases list.len() - i,
{
    if i < list.len() && text::sorts_before(list[i].0, name) {
        lemma_place(list, name, i + 1);
    } else if i < list.len() {
        assert forall|j: int| i <= j < list.len() && (#[trigger] list[j]).0 == name implies j
            == i by {
            if j > i {
                assert(text::sorts_before(list[i].0, list[j].0));
            }
        }
    }
}

/// A recorded check stands under its module's name, in place of an earlier one, and
/// every other module's check stays as it was.
pub proof fn law_recording_touches_one_module(
    list: Seq<(Seq<char>, ModuleCheck)>,
    name: Seq<char>,
    check: ModuleCheck,
    other: Seq<char>,
    c: ModuleCheck,
)
    requires
        sorted(list),
    ensures
        recorded(list, name, check).contains((name, check)),
        recorded(list, name, check).contains((name, c)) ==> c == check,
        other != name ==> (recorded(list, name, check).contains((other, c)) <==> list.contains(
            (other, c),
        )),
{
    lemma_place(list, name, 0);
    let k = place_of(list, name, 0);
    let all = recorded(list, name, check);
    assert(all[k] == (name, check));
    if k < list.len() && list[k].0 == name {
        assert(all == list.update(k, (name, check)));
        if all.contains((name, c)) {
            let j = choose|j: int| 0 <= j < all.len() && all[j] == (name, c);
            if j != k {
                assert(list[j].0 == name);
                if j < k {
                    text::lemma_sorts_before(name, name);
                }
            }
        }
        if other != name {
            if all.contains((other, c)) {
                let j = choose|j: int| 0 <= j < all.len() && all[j] == (other, c);
                assert(list[j] == (other, c));
            }
            if list.contains((other, c)) {
                let j = choose|j: int| 0 <= j < list.len() && list[j] == (other, c);
                assert(all[j] == (other, c));
            }
        }
    } else {
        assert(all == list.insert(k, (name, check)));
        if all.contains((name, c)) {
            let j = choose|j: int| 0 <= j < all.len() && all[j] == (name, c);
            if j < k {
                assert(list[j].0 == name);
                text::lemma_sorts_before(name, name);
            } else if j > k {
                assert(list[j - 1].0 == name);
            }
        }
        if other != name {
            if all.contains((other, c)) {
                let j = choose|j: int| 0 <= j < all.len() && all[j] == (other, c);
                if j < k {
                    assert(list[j] == (other, c));
                } else {
                    assert(list[j - 1] == (other, c));
                }
            }
            if list.contains((other, c)) {
                let j = choose|j: int| 0 <= j < list.len() && list[j] == (other, c);
                if j < k {
                    assert(all[j] == (other, c));
                } else {
                    assert(all[j + 1] == (other, c));
                }
            }
        }
    }
}

/// Recording a check changes the checks and nothing else of the state.
pub proof fn law_recording_changes_only_the_checks(
    before: HealthState,
    after: HealthState,
    module: Seq<char>,
    check: ModuleCheck,
)
    requires
        before.wf(),
        after.records(before, module, check),
    ensures
        after.state == before.state,
        after.telegraf_restarts == before.telegraf_restarts,
        after.details.telegraf_pid == before.details.telegraf_pid,
        after.details.telegraf_version == before.details.telegraf_version,
        after.details.last_telegraf_exit == before.details.last_telegraf_exit,
        after.details.modules == before.details.modules,
        after.details.outputs == before.details.outputs,
        after.details.module_checks@.contains((module, check)),
{
    law_recording_touches_one_module(
        before.details.module_checks@,
        module,
        check,
        module,
        check,
    );
}

// ---------------------------------------------------------------------------
// Answers
// ---------------------------------------------------------------------------

/// A probe is answered by the state: ready only while Telegraf collects, live unless the
/// agent has failed or stopped.
pub proof fn law_probes_are_answered_by_the_state(s: &HealthState, state: State, l: Live, r: Ready)
    requires
        call_ensures(live, (state,), l),
        call_ensures(ready, (s,), r),
    ensures
        l.code == 200 <==> state != State::Failed && state != State::Stopped,
        l.code == 200 || l.code == 503,
        r.code == 200 <==> s.state == State::Ready || s.state == State::Degraded,
        r.code == 200 || r.code == 503,
        r.telegraf.running <==> s.details.telegraf_pid is Some,
        r.telegraf.pid == s.details.telegraf_pid,
        r.telegraf.version == s.details.telegraf_version,
        r.telegraf.last_exit == s.details.last_telegraf_exit,
        r.state@ == s.state.name(),
        l.state@ == state.name(),
        l.status@ == (if l.code == 200 {
            "ok"@
        } else {
            "down"@
        }),
        r.status@ == (if r.code == 200 {
            "ready"@
        } else {
            "not_ready"@
        }),
{
}

/// The status tells what is known, each thing under its own name.
pub proof fn law_the_status_tells_what_is_known(s: &HealthState, uptime: u64, version: &str, r: Status)
    requires
        call_ensures(status_at, (s, uptime, version), r),
    ensures
        r.muninn_version@ == version@,
        r.telegraf_version == s.details.telegraf_version,
        r.state@ == s.state.name(),
        r.ready <==> s.state == State::Ready || s.state == State::Degraded,
        r.uptime_seconds == uptime,
        r.telegraf.running <==> s.details.telegraf_pid is Some,
        r.telegraf.pid == s.details.telegraf_pid,
        r.telegraf.last_exit == s.details.last_telegraf_exit,
        r.telegraf_restarts == s.telegraf_restarts,
        r.modules@ == s.details.modules@,
        r.outputs@ == s.details.outputs@,
        r.module_checks@.len() == s.details.module_checks@.len(),
        forall|i: int|
            0 <= i < r.module_checks@.len() ==> {
                &&& (#[trigger] r.module_checks@[i]).module@ == s.details.module_checks@[i].0
                &&& r.module_checks@[i].success == s.details.module_checks@[i].1.success
                &&& r.module_checks@[i].at == s.details.module_checks@[i].1.at
            },
{
    let all = crate::health::server::check_statuses(r.module_checks@);
    assert(all.len() == r.module_checks@.len());
    assert forall|i: int| 0 <= i < r.module_checks@.len() implies {
        &&& (#[trigger] r.module_checks@[i]).module@ == s.details.module_checks@[i].0
        &&& r.module_checks@[i].success == s.details.module_checks@[i].1.success
        &&& r.module_checks@[i].at == s.details.module_checks@[i].1.at
    } by {
        assert(all[i].0 == r.module_checks@[i].module@);
        assert(all[i].1.success == r.module_checks@[i].success);
        assert(all[i].1.at == r.module_checks@[i].at);
    }
}

/// Every state is told by the name that says what it is.
pub proof fn law_a_state_is_told_by_its_name(state: State, name: &'static str)
    requires
        call_ensures(State::as_str, (&state,), name),
    ensures
        state == State::Starting ==> name@ == "starting"@,
        state == State::LoadingConfiguration ==> name@ == "loading_configuration"@,
        state == State::ValidatingConfiguration ==> name@ == "validating_configuration"@,
        state == State::CheckingRuntime ==> name@ == "checking_runtime"@,
        state == State::GeneratingTelegrafConfiguration ==> name@
            == "generating_telegraf_configuration"@,
        state == State::ValidatingTelegrafConfiguration ==> name@
            == "validating_telegraf_configuration"@,
        state == State::StartingTelegraf ==> name@ == "starting_telegraf"@,
        state == State::Ready ==> name@ == "ready"@,
        state == State::Degraded ==> name@ == "degraded"@,
        state == State::Stopping ==> name@ == "stopping"@,
        state == State::Failed ==> name@ == "failed"@,
        state == State::Stopped ==> name@ == "stopped"@,
{
}

} // verus!
