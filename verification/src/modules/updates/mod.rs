//! Pending package updates on the host.
//!
//! Telegraf has no package input plugin, so the rendered plugin runs muninn
//! again, with the check of [`debian`] behind it, and the result arrives as
//! influx line protocol. A failing check does not stop muninn: it is visible, as
//! `check_success=0` with a reason.

pub mod debian;

pub use crate::modules::inputs::Module::Updates;

use vstd::prelude::*;
use vstd::string::*;
use crate::config::normalised::Config;
use crate::modules::inputs::RANK_UPDATES;
use crate::telegraf::model::{
    bare, tomls, word_list, Plugin, PluginInstance, Section, Toml, TomlValue,
};
use crate::text;

verus! {

/// Where the image installs muninn. The rendered configuration names this path
/// rather than the running executable, so that it does not depend on where it is
/// rendered.
pub const MUNINN_BINARY: &'static str = "/usr/local/bin/muninn";

/// The subcommand that performs the check.
pub const CHECK_SUBCOMMAND: &'static str = "update-check";

/// What `Path::parent` gives for a path, as text.
pub uninterp spec fn path_parent(path: Seq<char>) -> Option<Seq<char>>;

/// `Path::parent` gives a path without its final component, and nothing for a
/// root or an empty path. What it gives depends on the path alone.
#[verifier::external_body]
fn parent_of(path: &str) -> (r: Option<String>)
    ensures
        text::optional(r) == path_parent(path@),
{
    std::path::Path::new(path).parent().map(|p| p.display().to_string())
}

/// The host mount prefix as the check sees it: on the host itself, the root.
pub open spec fn prefix_text(c: Config) -> Seq<char> {
    match c.runtime.host_mount_prefix {
        Some(p) => p@,
        None => "/"@,
    }
}

/// The host mount prefix as the check should see it.
pub fn host_prefix(config: &Config) -> (r: String)
    ensures
        r@ == prefix_text(*config),
{
    match &config.runtime.host_mount_prefix {
        Some(p) => p.clone(),
        None => "/".to_owned(),
    }
}

/// The directory of the generated configuration, if it has one.
pub open spec fn scratch_text(c: Config) -> Option<Seq<char>> {
    match path_parent(c.runtime.generated_config_path@) {
        Some(p) => if p.len() == 0 {
            None
        } else {
            Some(p)
        },
        None => None,
    }
}

/// Where apt's cache directory should be created: the runtime directory, which is
/// the one writable place the documented deployment has.
pub fn scratch_directory(config: &Config) -> (r: Option<String>)
    ensures
        text::optional(r) == scratch_text(*config),
{
    match parent_of(&config.runtime.generated_config_path) {
        Some(p) => if p.as_str().is_empty() {
            None
        } else {
            Some(p)
        },
        None => None,
    }
}

/// The command line of the check.
pub open spec fn command_line(c: Config) -> Seq<Seq<char>> {
    text::also(
        seq![MUNINN_BINARY@, CHECK_SUBCOMMAND@],
        !c.modules.updates.security_only_metric,
        "--no-security-metric"@,
    )
}

/// The environment of the check, given its scratch directory.
pub open spec fn environment(c: Config, scratch: Option<Seq<char>>) -> Seq<Seq<char>> {
    let list = seq!["HOSTFS="@ + prefix_text(c)];
    match scratch {
        Some(dir) => list.push("TMPDIR="@ + dir),
        None => list,
    }
}

/// The plugin that runs the check, given its scratch directory.
pub open spec fn updates_plugin_in(c: Config, scratch: Option<Seq<char>>) -> Plugin {
    bare(Section::Input, "exec"@, RANK_UPDATES)
        .noted("module: "@ + "updates"@)
        .with("commands"@, Toml::List(seq![word_list(command_line(c))]))
        .with("environment"@, word_list(environment(c, scratch)))
        .with("interval"@, Toml::Text(c.modules.updates.interval.telegraf()))
        .with("timeout"@, Toml::Text("30s"@))
        .with("data_format"@, Toml::Text("influx"@))
        .with("ignore_error"@, Toml::Flag(false))
}

/// The plugin that runs the check.
pub open spec fn updates_plugin(c: Config) -> Plugin {
    updates_plugin_in(c, scratch_text(c))
}

/// An array holding one command line.
pub fn one_command(command: &Vec<String>) -> (r: TomlValue)
    ensures
        r@ == Toml::List(seq![word_list(text::texts(command@))]),
{
    let mut list: Vec<TomlValue> = Vec::new();
    let words = TomlValue::words(command);
    let ghost v = words@;
    list.push(words);
    proof {
        assert(tomls(list@) =~= seq![v]);
    }
    TomlValue::array(list)
}

/// Renders the plugin that runs the check in a scratch directory.
pub fn render_updates_in(c: &Config, scratch: Option<String>) -> (r: PluginInstance)
    ensures
        r@ == updates_plugin_in(*c, text::optional(scratch)),
{
    let m = &c.modules.updates;
    let mut command: Vec<String> = Vec::new();
    command.push(MUNINN_BINARY.to_owned());
    command.push(CHECK_SUBCOMMAND.to_owned());
    proof {
        assert(text::texts(command@) =~= seq![MUNINN_BINARY@, CHECK_SUBCOMMAND@]);
    }
    if !m.security_only_metric {
        text::note(&mut command, "--no-security-metric".to_owned());
    }
    let mut environment: Vec<String> = Vec::new();
    environment.push(text::cat2("HOSTFS=", &host_prefix(c)));
    proof {
        assert(text::texts(environment@) =~= seq!["HOSTFS="@ + prefix_text(*c)]);
    }
    // apt writes its cache directory even when it is only simulating.
    match &scratch {
        Some(dir) => text::note(&mut environment, text::cat2("TMPDIR=", dir)),
        None => {}
    }
    PluginInstance::input("exec", RANK_UPDATES)
        .from_module("updates")
        // One array per command: Telegraf removes the single-string form.
        .scalar("commands", one_command(&command))
        .scalar("environment", TomlValue::words(&environment))
        // Its own schedule: package state changes on the scale of hours.
        .scalar("interval", TomlValue::text(&m.interval.as_telegraf()))
        // apt has to parse the host's whole package index.
        .scalar("timeout", TomlValue::text("30s"))
        .scalar("data_format", TomlValue::text("influx"))
        // The check reports its own failure as data, so a non-zero exit means
        // that it is broken.
        .scalar("ignore_error", TomlValue::flag(false))
}

/// Renders the plugin that runs the check.
pub fn render_updates(c: &Config) -> (r: PluginInstance)
    ensures
        r@ == updates_plugin(*c),
{
    render_updates_in(c, scratch_directory(c))
}

} // verus!
