//! How the configuration file is written, and how Telegraf is run with it.

use vstd::prelude::*;
use vstd::string::*;
use crate::duration::{in_range, scale, span_of, tally, ConfigDuration, Tally};
use crate::error::{Fault, MuninnError};
use crate::laws::image_updates::nanos;
use crate::laws::text::{
    law_a_number_reads_back, lemma_assoc, lemma_head5, lemma_occurs_within, lemma_part_occurs,
    lemma_tail5,
};
use crate::secret::{redacted, Redactor};
use crate::telegraf::model::{
    in_order, key_index, law_instances_are_ordered_by_rank_then_name, merged, union, value_text,
    with_scalar, Plugin, Section, Telegraf, TelegrafConfig, Toml,
};
use crate::telegraf::process::{
    arguments, forward, loudness, shutdown, Exit, Forwarded, Loudness, Stage, Step, Waited,
};
use crate::telegraf::renderer::{
    full_name, option_lines, plugin_head, plugin_text, plugins_text, render, table_lines,
};
use crate::telegraf::validator::{check_config, kept_lines};
use crate::telegraf::version::{
    check, parse, query, reported, resolve_binary_path, versionlike, word_behind_name, Run,
};
use crate::text;

verus! {

// ---------------------------------------------------------------------------
// The file
// ---------------------------------------------------------------------------

/// The line of an option.
pub open spec fn option_line(indent: Seq<char>, key: Seq<char>, value: Toml) -> Seq<char> {
    indent + key + " = "@ + value_text(value) + "\n"@
}

proof fn lemma_option(list: Seq<(Seq<char>, Toml)>, indent: Seq<char>, i: int)
    requires
        0 <= i < list.len(),
    ensures
        text::occurs(option_lines(list, indent), option_line(indent, list[i].0, list[i].1)),
    decreases list.len(),
{
    let rest = option_lines(list.drop_last(), indent);
    let (k, v) = list.last();
    if i == list.len() - 1 {
        lemma_tail5(rest, indent, k, " = "@, value_text(v), "\n"@);
    } else {
        lemma_option(list.drop_last(), indent, i);
        assert(list.drop_last()[i] == list[i]);
        lemma_head5(
            rest,
            indent,
            k,
            " = "@,
            value_text(v),
            "\n"@,
            option_line(indent, list[i].0, list[i].1),
        );
    }
}

proof fn lemma_plugin_in_text(list: Seq<Plugin>, i: int, needle: Seq<char>)
    requires
        0 <= i < list.len(),
        text::occurs(plugin_text(list[i]), needle),
    ensures
        text::occurs(plugins_text(list), needle),
    decreases list.len(),
{
    let none = Seq::<char>::empty();
    let (rest, last) = (plugins_text(list.drop_last()), plugin_text(list.last()));
    if i == list.len() - 1 {
        lemma_occurs_within(rest, last, none, needle);
        assert(rest + last + none =~= rest + last);
    } else {
        lemma_plugin_in_text(list.drop_last(), i, needle);
        lemma_occurs_within(none, rest, last, needle);
        assert(none + rest + last =~= rest + last);
    }
}

proof fn lemma_in_order(list: Seq<Plugin>, i: int) -> (k: int)
    requires
        0 <= i < list.len(),
    ensures
        0 <= k < in_order(list).len(),
        in_order(list)[k] == list[i],
{
    broadcast use vstd::seq_lib::group_to_multiset_ensures;

    law_instances_are_ordered_by_rank_then_name(list);
    assert(list.contains(list[i]));
    assert(list.to_multiset().count(list[i]) > 0);
    assert(in_order(list).contains(list[i]));
    choose|k: int| 0 <= k < in_order(list).len() && in_order(list)[k] == list[i]
}

proof fn lemma_three(a: Seq<char>, b: Seq<char>, c: Seq<char>, d: Seq<char>, needle: Seq<char>)
    requires
        text::occurs(b, needle) || text::occurs(c, needle) || text::occurs(d, needle),
    ensures
        text::occurs(a + b + c + d, needle),
{
    let none = Seq::<char>::empty();
    if text::occurs(b, needle) {
        lemma_occurs_within(a, b, c + d, needle);
        lemma_assoc(a + b, c, d);
    } else if text::occurs(c, needle) {
        lemma_occurs_within(a + b, c, d, needle);
    } else {
        lemma_occurs_within(a + b + c, d, none, needle);
        assert(a + b + c + d + none =~= a + b + c + d);
    }
}

/// Every option of the agent and of every instance is written as a line of its own, with
/// its key and its value, and every instance has its header.
pub proof fn law_every_option_is_written(
    config: &TelegrafConfig,
    version: &str,
    r: String,
    i: int,
    k: int,
)
    requires
        call_ensures(render, (config, version), r),
    ensures
        0 <= k < config@.agent.len() ==> text::occurs(
            r@,
            option_line("  "@, config@.agent[k].0, config@.agent[k].1),
        ),
        0 <= i < config@.inputs.len() ==> {
            let p = config@.inputs[i];
            &&& text::occurs(r@, plugin_head(p))
            &&& 0 <= k < p.scalars.len() ==> text::occurs(
                r@,
                option_line("  "@, p.scalars[k].0, p.scalars[k].1),
            )
        },
        0 <= i < config@.outputs.len() ==> {
            let p = config@.outputs[i];
            &&& text::occurs(r@, plugin_head(p))
            &&& 0 <= k < p.scalars.len() ==> text::occurs(
                r@,
                option_line("  "@, p.scalars[k].0, p.scalars[k].1),
            )
        },
{
    let t = config@;
    let head = "# Generated by muninn "@ + version@
        + ". Rewritten at every start; do not edit.\n\n[agent]\n"@;
    let a = option_lines(t.agent, "  "@);
    let (b, c) = (plugins_text(in_order(t.inputs)), plugins_text(in_order(t.outputs)));
    assert(r@ == head + a + b + c);
    if 0 <= k < t.agent.len() {
        lemma_option(t.agent, "  "@, k);
        lemma_three(head, a, b, c, option_line("  "@, t.agent[k].0, t.agent[k].1));
    }
    if 0 <= i < t.inputs.len() {
        let p = t.inputs[i];
        let at = lemma_in_order(t.inputs, i);
        lemma_plugin_head(p);
        lemma_plugin_in_text(in_order(t.inputs), at, plugin_head(p));
        lemma_three(head, a, b, c, plugin_head(p));
        if 0 <= k < p.scalars.len() {
            lemma_plugin_option(p, k);
            let line = option_line("  "@, p.scalars[k].0, p.scalars[k].1);
            lemma_plugin_in_text(in_order(t.inputs), at, line);
            lemma_three(head, a, b, c, line);
        }
    }
    if 0 <= i < t.outputs.len() {
        let p = t.outputs[i];
        let at = lemma_in_order(t.outputs, i);
        lemma_plugin_head(p);
        lemma_plugin_in_text(in_order(t.outputs), at, plugin_head(p));
        lemma_three(head, a, b, c, plugin_head(p));
        if 0 <= k < p.scalars.len() {
            lemma_plugin_option(p, k);
            let line = option_line("  "@, p.scalars[k].0, p.scalars[k].1);
            lemma_plugin_in_text(in_order(t.outputs), at, line);
            lemma_three(head, a, b, c, line);
        }
    }
}

proof fn lemma_plugin_head(p: Plugin)
    ensures
        text::occurs(plugin_text(p), plugin_head(p)),
{
    let none = Seq::<char>::empty();
    let o = option_lines(p.scalars, "  "@);
    let t = table_lines(p.subtables, full_name(p.section, p.plugin));
    lemma_part_occurs(none, plugin_head(p), o + t);
    lemma_assoc(plugin_head(p), o, t);
    assert(none + plugin_head(p) =~= plugin_head(p));
}

proof fn lemma_plugin_option(p: Plugin, k: int)
    requires
        0 <= k < p.scalars.len(),
    ensures
        text::occurs(plugin_text(p), option_line("  "@, p.scalars[k].0, p.scalars[k].1)),
{
    lemma_option(p.scalars, "  "@, k);
    lemma_occurs_within(
        plugin_head(p),
        option_lines(p.scalars, "  "@),
        table_lines(p.subtables, full_name(p.section, p.plugin)),
        option_line("  "@, p.scalars[k].0, p.scalars[k].1),
    );
}

/// An instance says where it comes from and what it is: its note, its section and its
/// plugin.
pub proof fn law_a_header_names_the_plugin(p: Plugin)
    ensures
        p.note matches Some(note) ==> p.section == Section::Input ==> plugin_head(p) == "\n# "@
            + note + "\n[["@ + ("inputs"@ + "."@ + p.plugin) + "]]\n"@,
        p.note matches Some(note) ==> p.section == Section::Output ==> plugin_head(p) == "\n# "@
            + note + "\n[["@ + ("outputs"@ + "."@ + p.plugin) + "]]\n"@,
{
}

/// A number is written in digits, a switch as `true` or `false`, a list in brackets.
pub proof fn law_values_are_written_as_they_are(i: int, b: bool, v: Toml)
    ensures
        i >= 0 ==> text::spelled(value_text(Toml::Whole(i))) == i,
        value_text(Toml::Flag(b)) == (if b {
            "true"@
        } else {
            "false"@
        }),
        value_text(Toml::List(seq![v])) == "["@ + value_text(v) + "]"@,
{
    if i >= 0 {
        law_a_number_reads_back(i as nat);
    }
    let texts = crate::telegraf::model::value_texts(seq![v]);
    assert(texts.len() == 1 && texts[0] == value_text(v));
}

// ---------------------------------------------------------------------------
// Merging
// ---------------------------------------------------------------------------

proof fn lemma_key_index(list: Seq<(Seq<char>, Toml)>, key: Seq<char>, i: int)
    requires
        0 <= i <= list.len(),
    ensures
        match key_index(list, key, i) {
            Some(k) => i <= k < list.len() && list[k].0 == key && forall|j: int|
                i <= j < k ==> (#[trigger] list[j]).0 != key,
            None => forall|j: int| i <= j < list.len() ==> (#[trigger] list[j]).0 != key,
        },
    decreases list.len() - i,
{
    if i < list.len() && list[i].0 != key {
        lemma_key_index(list, key, i + 1);
    }
}

/// Merging an option into a list adds it where its key is new, unites it with the one that
/// is there where both are lists, and leaves any other as it is.
pub proof fn law_merging_an_option(list: Seq<(Seq<char>, Toml)>, key: Seq<char>, value: Toml, k: int)
    ensures
        (forall|j: int| 0 <= j < list.len() ==> (#[trigger] list[j]).0 != key) ==> with_scalar(
            list,
            (key, value),
        ) == list.push((key, value)),
        0 <= k < list.len() && list[k].0 == key && (forall|j: int|
            0 <= j < k ==> (#[trigger] list[j]).0 != key) ==> with_scalar(list, (key, value)) == (
        match (list[k].1, value) {
            (Toml::List(a), Toml::List(b)) => list.update(k, (key, Toml::List(union(a, b)))),
            _ => list,
        }),
{
    lemma_key_index(list, key, 0);
}

/// Merging two instances merges their options one by one, keeps what the first is, and
/// notes both.
pub proof fn law_merging_two_instances(a: Plugin, b: Plugin)
    ensures
        merged(a, b).plugin == a.plugin,
        merged(a, b).rank == a.rank,
        merged(a, b).section == a.section,
        merged(a, b).merge_key == a.merge_key,
        b.scalars.len() == 0 ==> merged(a, b).scalars == a.scalars,
        b.scalars.len() > 0 ==> merged(a, b).scalars == with_scalar(
            merged(a, Plugin { scalars: b.scalars.drop_last(), ..b }).scalars,
            b.scalars.last(),
        ),
        b.note is None ==> merged(a, b).note == a.note,
        a.note is None ==> merged(a, b).note == b.note,
        a.note matches Some(x) ==> (b.note matches Some(y) ==> !text::occurs(x, y) ==> merged(
            a,
            b,
        ).note == Some(x + ", "@ + y)),
{
}

// ---------------------------------------------------------------------------
// Durations
// ---------------------------------------------------------------------------

/// Telegraf is given the same length of time, to the millisecond.
pub proof fn law_telegraf_is_given_the_same_time(d: &ConfigDuration, r: String)
    requires
        call_ensures(ConfigDuration::as_telegraf, (d,), r),
        d.wf(),
    ensures
        exists|n: nat|
            (r@ == #[trigger] text::decimal(n) + "s"@ && n * 1000 == nanos(*d) / 1_000_000) || (r@
                == text::decimal(n) + "ms"@ && n == nanos(*d) / 1_000_000 && n % 1000 != 0),
{
    let m = d.millis();
    assert(m == nanos(*d) / 1_000_000);
    if m % 1000 == 0 {
        assert(r@ == text::decimal(m / 1000) + "s"@ && (m / 1000) * 1000 == m);
    } else {
        assert(r@ == text::decimal(m) + "ms"@);
    }
}

proof fn lemma_tally_digits(s: Seq<char>, n: nat)
    requires
        s == text::decimal(n),
        n <= u64::MAX,
    ensures
        tally(s) == Some(Tally { number: n, ..Tally::blank() }),
    decreases n,
{
    law_a_number_reads_back(n);
    if n < 10 {
        assert(s.drop_last() =~= Seq::<char>::empty());
        assert(tally(s.drop_last()) == Some(Tally::blank()));
        assert(text::digit_value(s.last()) == n);
    } else {
        lemma_tally_digits(text::decimal(n / 10), n / 10);
        assert(s.drop_last() =~= text::decimal(n / 10));
        assert(text::digit_value(s.last()) == n % 10);
    }
}

/// A number of seconds, minutes, hours or days is taken wherever it fits: nothing that can
/// be counted is refused.
pub proof fn law_no_period_that_fits_is_refused(n: nat, unit: char, each: nat)
    requires
        unit == 's' && each == 1 || unit == 'm' && each == 60 || unit == 'h' && each == 3600 || unit
            == 'd' && each == 86400 || unit == 'w' && each == 604800,
        n * each <= u64::MAX,
        n <= u64::MAX,
    ensures
        in_range(text::decimal(n) + seq![unit]),
        span_of(text::decimal(n) + seq![unit]) == crate::duration::humantime_parse(
            text::decimal(n) + seq![unit],
        ),
{
    let s = text::decimal(n) + seq![unit];
    lemma_tally_digits(text::decimal(n), n);
    assert(s.drop_last() =~= text::decimal(n));
    assert(s.last() == unit);
    let one = Seq::<char>::empty().push(unit);
    let t = tally(s)->0;
    assert(!text::is_digit(unit) && !text::whitespace(unit));
    assert(t.unit =~= one);
    assert(scale(one) == each * 1_000_000_000);
    assert(t.number == n && t.part == 0 && t.parts == 1 && t.total == 0);
    let w = each * 1_000_000_000;
    assert(n * w == (n * each) * 1_000_000_000) by (nonlinear_arith)
        requires
            w == each * 1_000_000_000,
    ;
    assert(0 * scale(one) as nat / 1 == 0);
    assert(t.sum() == n * w);
}

// ---------------------------------------------------------------------------
// Telegraf's version
// ---------------------------------------------------------------------------

/// The version is the word behind the name, whatever stands around the two.
pub proof fn law_the_version_stands_behind_the_name(
    output: &str,
    k: int,
    r: Option<String>,
)
    requires
        call_ensures(parse, (output,), r),
        0 <= k,
        k + 1 < text::words(output@).len(),
        text::lowered(text::words(output@)[k]) == "telegraf"@,
        forall|i: int|
            0 <= i < k ==> text::lowered(#[trigger] text::words(output@)[i]) != "telegraf"@,
    ensures
        match r {
            Some(v) => v@ == text::words(output@)[k + 1],
            None => {
                let w = text::words(output@)[k + 1];
                w.len() == 0 || !('0' <= w[0] <= '9') || exists|i: int|
                    0 <= i < w.len() && !('0' <= #[trigger] w[i] <= '9' || 'a' <= w[i] <= 'z' || 'A'
                        <= w[i] <= 'Z' || w[i] == '.' || w[i] == '-')
            },
        },
{
    let w = text::words(output@);
    lemma_name_skips(w, 0, k);
    if r is None {
        let v = w[k + 1];
        assert(!versionlike(v));
        if v.len() > 0 && '0' <= v[0] <= '9' {
            let i = choose|i: int|
                0 <= i < v.len() && !(crate::telegraf::version::alphanumeric(#[trigger] v[i]) || v[i]
                    == '.' || v[i] == '-');
            assert(!('0' <= v[i] <= '9' || 'a' <= v[i] <= 'z' || 'A' <= v[i] <= 'Z' || v[i] == '.'
                || v[i] == '-'));
        }
    }
}

proof fn lemma_name_skips(words: Seq<Seq<char>>, i: int, k: int)
    requires
        0 <= i <= k < words.len(),
        forall|j: int| i <= j < k ==> text::lowered(#[trigger] words[j]) != "telegraf"@,
    ensures
        word_behind_name(words, i) == word_behind_name(words, k),
    decreases k - i,
{
    if i < k {
        assert(text::lowered(words[i]) != "telegraf"@);
        lemma_name_skips(words, i + 1, k);
    }
}

/// The binary is accepted exactly if it ran and reports the version that is expected; it
/// is asked on standard output, and on standard error where that is empty.
pub proof fn law_only_the_matching_binary_is_accepted(
    binary: &str,
    run: &Run,
    r: Result<String, MuninnError>,
)
    requires
        call_ensures(check, (binary, run), r),
    ensures
        r is Ok <==> (*run matches Run::Finished { success, status, stdout, stderr } && reported(
            text::utf8_lossy(
                if stdout@.len() == 0 {
                    stderr@
                } else {
                    stdout@
                },
            ),
        ) == Some("1.39.2"@)),
        r matches Ok(v) ==> v@ == "1.39.2"@,
{
}

/// The override names the binary, unless it is empty.
pub proof fn law_the_override_names_the_binary(v: Option<String>, r: String)
    requires
        call_ensures(resolve_binary_path, (v,), r),
    ensures
        v matches Some(s) ==> s@.len() > 0 ==> r@ == s@,
        v is None || (v matches Some(s) && s@.len() == 0) ==> r@ == "/usr/local/bin/telegraf"@,
{
}

// ---------------------------------------------------------------------------
// The process
// ---------------------------------------------------------------------------

/// How a process ended is told by its signal, or else by its code, and it ended cleanly
/// if it returned zero or was asked to stop.
pub proof fn law_how_a_process_ended(
    code: Option<i32>,
    signal: Option<i32>,
    e: Exit,
    clean: bool,
    told: String,
)
    requires
        call_ensures(Exit::from_status, (code, signal), e),
        call_ensures(Exit::is_clean_shutdown, (&e,), clean),
        call_ensures(Exit::describe, (&e,), told),
    ensures
        signal matches Some(s) ==> (clean <==> s == 15 || s == 2) && told@ == "signal "@
            + text::signed(s as int),
        signal is None ==> match code {
            Some(c) => (clean <==> c == 0) && told@ == "exit code "@ + text::signed(c as int),
            None => !clean,
        },
{
}

/// A stop ends with the process, kills it only once its grace period is over, and never
/// waits for anything but its end after that.
pub proof fn law_a_stop_kills_only_after_the_grace_period(stage: Stage, waited: Waited, r: Step)
    requires
        call_ensures(shutdown, (stage, waited), r),
    ensures
        r is Kill <==> stage == Stage::Asked && waited is TimedOut,
        waited matches Waited::Exited(exit) ==> r == Step::Done(exit),
        r is Done <==> waited is Exited,
        r is Fail <==> waited is Failed,
{
}

/// A line of Telegraf's is passed on unless it is blank, without known secrets, and as loud
/// as Telegraf marked it.
pub proof fn law_a_line_is_passed_on(line: &str, redactor: &Redactor, r: Option<Forwarded>)
    requires
        call_ensures(forward, (line, redactor), r),
    ensures
        r is None <==> text::is_blank(line@),
        r matches Some(f) ==> {
            &&& f.line@ == redacted(redactor@, line@)
            &&& f.loudness == Loudness::Error <==> text::occurs(f.line@, "E!"@)
            &&& f.loudness == Loudness::Warn <==> !text::occurs(f.line@, "E!"@) && text::occurs(
                f.line@,
                "W!"@,
            )
        },
{
}

/// Telegraf is started on the generated file.
pub proof fn law_telegraf_is_started_on_the_file(path: &str, r: Vec<String>)
    requires
        call_ensures(arguments, (path,), r),
    ensures
        r@.len() == 2,
        r@[0]@ == "--config"@,
        r@[1]@ == path@,
{
    let all = text::texts(r@);
    assert(all.len() == r@.len());
    assert(all[0] == r@[0]@ && all[1] == r@[1]@);
}

/// A generated file is accepted exactly if Telegraf ran and accepted it; a binary that did
/// not run is not the file's fault.
pub proof fn law_the_file_is_judged_by_telegraf(
    binary: &str,
    run: &Run,
    redactor: &Redactor,
    r: Result<(), MuninnError>,
)
    requires
        call_ensures(check_config, (binary, run, redactor), r),
    ensures
        r is Ok <==> (*run matches Run::Finished { success, status, stdout, stderr } && success),
        r matches Err(e) ==> (e@ is TelegrafConfig <==> run is Finished),
        r matches Err(e) ==> (e@ is TelegrafStart <==> !(run is Finished)),
{
}

/// Every line Telegraf printed is kept, in its order, without known secrets and trailing
/// blanks, but for the blank ones and those about loading.
pub proof fn law_the_diagnosis_keeps_the_lines(
    lines: Seq<Seq<char>>,
    secrets: Seq<Seq<char>>,
    n: int,
)
    requires
        0 < n <= lines.len(),
    ensures
        ({
            let line = lines[n - 1];
            let rest = kept_lines(lines, secrets, n - 1);
            kept_lines(lines, secrets, n) == if text::occurs(line, "I! Loading config"@)
                || text::trimmed_end(line).len() == 0 {
                rest
            } else {
                rest.push(redacted(secrets, text::trimmed_end(line)))
            }
        }),
{
}

// ---------------------------------------------------------------------------
// Sub-tables and the whole file
// ---------------------------------------------------------------------------

proof fn lemma_tables(
    list: Seq<(Seq<char>, Seq<(Seq<char>, Toml)>)>,
    name: Seq<char>,
    i: int,
    k: int,
)
    requires
        0 <= i < list.len(),
        0 <= k < list[i].1.len(),
    ensures
        text::occurs(table_lines(list, name), "  ["@ + name + "."@ + list[i].0 + "]\n"@),
        text::occurs(
            table_lines(list, name),
            option_line("    "@, list[i].1[k].0, list[i].1[k].1),
        ),
    decreases list.len(),
{
    let none = Seq::<char>::empty();
    let rest = table_lines(list.drop_last(), name);
    let (key, options) = list.last();
    let head = "  ["@ + name + "."@ + key + "]\n"@;
    let body = option_lines(options, "    "@);
    lemma_tail5(rest, "  ["@, name, "."@, key, "]\n"@);
    assert(table_lines(list, name) == rest + head + body);
    if i == list.len() - 1 {
        lemma_part_occurs(rest, head, body);
        lemma_option(options, "    "@, k);
        lemma_occurs_within(
            rest + head,
            body,
            none,
            option_line("    "@, list[i].1[k].0, list[i].1[k].1),
        );
        assert(rest + head + body + none =~= rest + head + body);
    } else {
        assert(list.drop_last()[i] == list[i]);
        lemma_tables(list.drop_last(), name, i, k);
        lemma_occurs_within(none, rest, head + body, "  ["@ + name + "."@ + list[i].0 + "]\n"@);
        lemma_occurs_within(
            none,
            rest,
            head + body,
            option_line("    "@, list[i].1[k].0, list[i].1[k].1),
        );
        lemma_assoc(rest, head, body);
        assert(none + rest =~= rest);
    }
}

/// Every sub-table is written under the header of its instance, with its options.
pub proof fn law_every_sub_table_is_written(
    config: &TelegrafConfig,
    version: &str,
    r: String,
    i: int,
    t: int,
    k: int,
)
    requires
        call_ensures(render, (config, version), r),
        0 <= i < config@.inputs.len(),
        config@.inputs[i].section == Section::Input,
        0 <= t < config@.inputs[i].subtables.len(),
        0 <= k < config@.inputs[i].subtables[t].1.len(),
    ensures
        ({
            let p = config@.inputs[i];
            let table = p.subtables[t];
            &&& text::occurs(
                r@,
                "  ["@ + ("inputs"@ + "."@ + p.plugin) + "."@ + table.0 + "]\n"@,
            )
            &&& text::occurs(r@, option_line("    "@, table.1[k].0, table.1[k].1))
        }),
{
    let none = Seq::<char>::empty();
    let w = config@;
    let p = w.inputs[i];
    let name = full_name(p.section, p.plugin);
    let table = p.subtables[t];
    let head = "# Generated by muninn "@ + version@
        + ". Rewritten at every start; do not edit.\n\n[agent]\n"@;
    let a = option_lines(w.agent, "  "@);
    let (b, c) = (plugins_text(in_order(w.inputs)), plugins_text(in_order(w.outputs)));
    assert(r@ == head + a + b + c);
    let at = lemma_in_order(w.inputs, i);
    lemma_tables(p.subtables, name, t, k);
    let tables = table_lines(p.subtables, name);
    let first = plugin_head(p) + option_lines(p.scalars, "  "@);
    let title = "  ["@ + name + "."@ + table.0 + "]\n"@;
    let line = option_line("    "@, table.1[k].0, table.1[k].1);
    lemma_occurs_within(first, tables, none, title);
    lemma_occurs_within(first, tables, none, line);
    assert(first + tables + none =~= first + tables);
    lemma_plugin_in_text(in_order(w.inputs), at, title);
    lemma_plugin_in_text(in_order(w.inputs), at, line);
    lemma_three(head, a, b, c, title);
    lemma_three(head, a, b, c, line);
}

/// The file says what wrote it, then holds the agent, the inputs and the outputs, in that
/// order.
pub proof fn law_the_file_has_its_parts_in_order(
    config: &TelegrafConfig,
    version: &str,
    r: String,
    without: &TelegrafConfig,
    w: String,
)
    requires
        call_ensures(render, (config, version), r),
        call_ensures(render, (without, version), w),
        without@.agent == config@.agent,
        without@.inputs == config@.inputs,
        without@.outputs.len() == 0,
    ensures
        ("# Generated by muninn "@ + version@).is_prefix_of(r@),
        w@.is_prefix_of(r@),
        r@ == w@ + plugins_text(in_order(config@.outputs)),
{
    let t = config@;
    let mark = "# Generated by muninn "@ + version@;
    let rest = ". Rewritten at every start; do not edit.\n\n[agent]\n"@;
    let a = option_lines(t.agent, "  "@);
    let (b, c) = (plugins_text(in_order(t.inputs)), plugins_text(in_order(t.outputs)));
    let first = mark + rest + a + b;
    assert(in_order(without@.outputs) =~= Seq::<Plugin>::empty());
    assert(plugins_text(in_order(without@.outputs)) =~= Seq::<char>::empty());
    assert(w@ =~= first);
    assert(r@ == first + c);
    assert(r@.subrange(0, first.len() as int) =~= first);
    assert(first.len() >= mark.len());
    assert forall|i: int| 0 <= i < mark.len() implies r@[i] == mark[i] by {
        assert((mark + rest)[i] == mark[i]);
        assert((mark + rest + a)[i] == (mark + rest)[i]);
        assert(first[i] == (mark + rest + a)[i]);
    }
    assert(r@.subrange(0, mark.len() as int) =~= mark);
}

/// The instances are written in the order they are documented in.
pub proof fn law_the_documented_order()
    ensures
        crate::modules::inputs::RANK_CPU < crate::modules::inputs::RANK_MEM,
        crate::modules::inputs::RANK_MEM < crate::modules::inputs::RANK_SYSTEM,
        crate::modules::inputs::RANK_SYSTEM < crate::modules::inputs::RANK_SWAP,
        crate::modules::inputs::RANK_SWAP < crate::modules::inputs::RANK_PROCESSES,
        crate::modules::inputs::RANK_PROCESSES < crate::modules::inputs::RANK_DISK,
        crate::modules::inputs::RANK_DISK < crate::modules::inputs::RANK_DISKIO,
        crate::modules::inputs::RANK_DISKIO < crate::modules::inputs::RANK_NET,
        crate::modules::inputs::RANK_NET < crate::modules::inputs::RANK_DOCKER,
        crate::modules::inputs::RANK_DOCKER < crate::modules::inputs::RANK_UPDATES,
        crate::modules::inputs::RANK_UPDATES < crate::modules::inputs::RANK_IMAGE_UPDATES,
        crate::modules::outputs::RANK_INFLUXDB < crate::modules::outputs::RANK_PROMETHEUS,
{
}

/// What Telegraf printed is told with its errors first, or else how it ended.
pub proof fn law_the_diagnosis_tells_errors_first(
    stderr: &Vec<u8>,
    stdout: &Vec<u8>,
    status: &str,
    redactor: &Redactor,
    r: String,
)
    requires
        call_ensures(crate::telegraf::validator::diagnostics, (stderr, stdout, status, redactor), r),
    ensures
        ({
            let lines = text::lines(text::utf8_lossy(stderr@)) + text::lines(
                text::utf8_lossy(stdout@),
            );
            let kept = kept_lines(lines, redactor@, lines.len() as int);
            &&& text::joined(kept, "\n"@).len() > 0 ==> r@ == text::joined(kept, "\n"@)
            &&& kept.len() == 0 ==> r@ == "telegraf exited with "@ + status@ + " and said nothing"@
        }),
{
}

/// A list is written in its order, with commas between.
pub proof fn law_a_list_is_written_in_order(a: Seq<Toml>, v: Toml)
    requires
        a.len() > 0,
    ensures
        exists|inner: Seq<char>|
            value_text(Toml::List(a)) == #[trigger] ("["@ + inner + "]"@) && value_text(
                Toml::List(a.push(v)),
            ) == "["@ + (inner + ", "@ + value_text(v)) + "]"@,
{
    let x = crate::telegraf::model::value_texts(a);
    let y = crate::telegraf::model::value_texts(a.push(v));
    assert(y.drop_last() =~= x);
    assert(y.last() == value_text(v));
    let inner = text::joined(x, ", "@);
    assert(value_text(Toml::List(a)) == "["@ + inner + "]"@);
    assert(text::joined(y, ", "@) == inner + ", "@ + value_text(v));
}

/// What two lists have together starts with the first, as it is.
pub proof fn law_the_first_list_stays_first(a: Seq<Toml>, b: Seq<Toml>)
    ensures
        a.len() <= union(a, b).len(),
        union(a, b).take(a.len() as int) == a,
    decreases b.len(),
{
    if b.len() > 0 {
        law_the_first_list_stays_first(a, b.drop_last());
        let u = union(a, b.drop_last());
        assert(union(a, b).take(a.len() as int) =~= u.take(a.len() as int));
    } else {
        assert(a.take(a.len() as int) =~= a);
    }
}

/// A process that could not be started is named, with the reason.
pub proof fn law_a_failed_start_names_the_binary(binary: &str, run: &Run, e: MuninnError)
    requires
        call_ensures(crate::telegraf::process::spawn_error, (binary, run), e),
    ensures
        *run is NotFound ==> e@ == Fault::TelegrafStart("no Telegraf binary at '"@ + binary@ + "'"@),
        *run is PermissionDenied ==> e@ == Fault::TelegrafStart(
            "'"@ + binary@ + "' is not executable"@,
        ),
        *run matches Run::Failed(m) ==> e@ == Fault::TelegrafStart(
            "cannot start '"@ + binary@ + "': "@ + m@,
        ),
{
}

/// The version is asked of what the binary printed, and of nothing else.
pub proof fn law_the_version_is_what_the_binary_printed(
    binary: &str,
    run: &Run,
    r: Result<String, MuninnError>,
)
    requires
        call_ensures(query, (binary, run), r),
    ensures
        r is Ok ==> *run is Finished,
        *run matches Run::Finished { success, status, stdout, stderr } ==> {
            let shown = text::utf8_lossy(
                if stdout@.len() == 0 {
                    stderr@
                } else {
                    stdout@
                },
            );
            &&& reported(shown) matches Some(v) ==> (r matches Ok(s) && s@ == v)
            &&& reported(shown) is None ==> r is Err
        },
{
}

} // verus!
