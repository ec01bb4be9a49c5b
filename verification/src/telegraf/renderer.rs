//! The one place that turns a typed configuration into TOML text.
//!
//! The order is declared, not sorted: options in the order they were added,
//! sub-tables behind every option, instances by rank and name. The same
//! configuration gives the same bytes.

use vstd::prelude::*;
use vstd::string::*;
use crate::telegraf::model::{
    borrowed_plugins, entries, in_order, tables, value_text, Plugin, PluginInstance, Section,
    Telegraf, TelegrafConfig, Toml, TomlTable, TomlValue,
};
use crate::text;

verus! {

/// One line per option.
pub open spec fn option_lines(list: Seq<(Seq<char>, Toml)>, indent: Seq<char>) -> Seq<char>
    decreases list.len(),
{
    if list.len() == 0 {
        Seq::empty()
    } else {
        option_lines(list.drop_last(), indent) + indent + list.last().0 + " = "@ + value_text(
            list.last().1,
        ) + "\n"@
    }
}

/// The name of a plugin, with its section.
pub open spec fn full_name(section: Section, plugin: Seq<char>) -> Seq<char> {
    section.name() + "."@ + plugin
}

/// The sub-tables of a plugin.
pub open spec fn table_lines(
    list: Seq<(Seq<char>, Seq<(Seq<char>, Toml)>)>,
    name: Seq<char>,
) -> Seq<char>
    decreases list.len(),
{
    if list.len() == 0 {
        Seq::empty()
    } else {
        table_lines(list.drop_last(), name) + "  ["@ + name + "."@ + list.last().0 + "]\n"@
            + option_lines(list.last().1, "    "@)
    }
}

/// What stands above the options of a plugin: an empty line, its provenance, its
/// header.
pub open spec fn plugin_head(p: Plugin) -> Seq<char> {
    match p.note {
        Some(note) => "\n# "@ + note + "\n[["@ + full_name(p.section, p.plugin) + "]]\n"@,
        None => "\n[["@ + full_name(p.section, p.plugin) + "]]\n"@,
    }
}

/// One plugin block.
pub open spec fn plugin_text(p: Plugin) -> Seq<char> {
    plugin_head(p) + option_lines(p.scalars, "  "@) + table_lines(
        p.subtables,
        full_name(p.section, p.plugin),
    )
}

/// One block after the other.
pub open spec fn plugins_text(list: Seq<Plugin>) -> Seq<char>
    decreases list.len(),
{
    if list.len() == 0 {
        Seq::empty()
    } else {
        plugins_text(list.drop_last()) + plugin_text(list.last())
    }
}

/// The whole file.
pub open spec fn file_text(config: Telegraf, version: Seq<char>) -> Seq<char> {
    "# Generated by muninn "@ + version + ". Rewritten at every start; do not edit.\n\n[agent]\n"@
        + option_lines(config.agent, "  "@) + plugins_text(in_order(config.inputs))
        + plugins_text(in_order(config.outputs))
}

fn write_options(list: &Vec<(String, TomlValue)>, indent: &str) -> (r: String)
    ensures
        r@ == option_lines(entries(list@), indent@),
{
    let ghost all = entries(list@);
    let mut out = String::new();
    let mut i: usize = 0;
    while i < list.len()
        invariant
            i <= list.len(),
            all == entries(list@),
            out@ == option_lines(all.subrange(0, i as int), indent@),
        decreases list.len() - i,
    {
        proof {
            let next = all.subrange(0, i + 1);
            assert(next.drop_last() =~= all.subrange(0, i as int));
            assert(next.last() == (list@[i as int].0@, list@[i as int].1@));
        }
        out.append(indent);
        out.append(&list[i].0);
        out.append(" = ");
        out.append(&list[i].1.render());
        out.append("\n");
        i += 1;
    }
    proof {
        assert(all.subrange(0, i as int) =~= all);
    }
    out
}

fn write_tables(list: &Vec<(String, TomlTable)>, name: &str) -> (r: String)
    ensures
        r@ == table_lines(tables(list@), name@),
{
    let ghost all = tables(list@);
    let mut out = String::new();
    let mut i: usize = 0;
    while i < list.len()
        invariant
            i <= list.len(),
            all == tables(list@),
            out@ == table_lines(all.subrange(0, i as int), name@),
        decreases list.len() - i,
    {
        proof {
            let next = all.subrange(0, i + 1);
            assert(next.drop_last() =~= all.subrange(0, i as int));
            assert(next.last() == (list@[i as int].0@, list@[i as int].1@));
        }
        out.append("  [");
        out.append(name);
        out.append(".");
        out.append(&list[i].0);
        out.append("]\n");
        out.append(&write_options(&list[i].1.entries, "    "));
        i += 1;
    }
    proof {
        assert(all.subrange(0, i as int) =~= all);
    }
    out
}

fn write_plugin(p: &PluginInstance) -> (r: String)
    ensures
        r@ == plugin_text(p@),
{
    let name = text::cat3(p.section.prefix(), ".", &p.plugin);
    let mut out = match &p.note {
        Some(note) => text::cat5("\n# ", note, "\n[[", &name, "]]\n"),
        None => text::cat3("\n[[", &name, "]]\n"),
    };
    // Sub-tables last: every key behind one would belong to it.
    out.append(&write_options(&p.scalars, "  "));
    out.append(&write_tables(&p.subtables, &name));
    out
}

fn write_plugins(list: &Vec<&PluginInstance>) -> (r: String)
    ensures
        r@ == plugins_text(borrowed_plugins(list@)),
{
    let ghost all = borrowed_plugins(list@);
    let mut out = String::new();
    let mut i: usize = 0;
    while i < list.len()
        invariant
            i <= list.len(),
            all == borrowed_plugins(list@),
            out@ == plugins_text(all.subrange(0, i as int)),
        decreases list.len() - i,
    {
        proof {
            let next = all.subrange(0, i + 1);
            assert(next.drop_last() =~= all.subrange(0, i as int));
            assert(next.last() == list@[i as int]@);
        }
        out.append(&write_plugin(list[i]));
        i += 1;
    }
    proof {
        assert(all.subrange(0, i as int) =~= all);
    }
    out
}

/// Renders a configuration as the file Telegraf reads.
pub fn render(config: &TelegrafConfig, version: &str) -> (r: String)
    ensures
        r@ == file_text(config@, version@),
{
    let mut out = text::cat3(
        "# Generated by muninn ",
        version,
        ". Rewritten at every start; do not edit.\n\n[agent]\n",
    );
    out.append(&write_options(&config.agent, "  "));
    out.append(&write_plugins(&config.inputs()));
    out.append(&write_plugins(&config.outputs()));
    out
}

/// A plugin block is the block without sub-tables, and then the sub-tables: no
/// option ever follows one.
pub proof fn law_options_precede_subtables(p: Plugin)
    ensures
        plugin_text(p) == plugin_text(Plugin { subtables: Seq::empty(), ..p }) + table_lines(
            p.subtables,
            full_name(p.section, p.plugin),
        ),
{
    let head = plugin_head(p) + option_lines(p.scalars, "  "@);
    assert(head + Seq::<char>::empty() =~= head);
}

} // verus!
