//! From the file to the generated configuration: what an operator writes under a key is
//! what Telegraf is told.

use vstd::prelude::*;
use vstd::string::*;
use crate::config::host::Host;
use crate::config::loader::{from_document, parsed, Overrides};
use crate::config::model::ConfigV1;
use crate::config::normalised::Config;
use crate::error::MuninnError;
use crate::laws::configuration::{inside, law_overrides_change_only_logging, says};
use crate::laws::telegraf::{
    has, law_docker_is_told_what_is_configured, law_filters_reach_the_plugin_they_are_for,
    law_the_outputs_are_told_what_is_configured, texts_value,
};
use crate::modules::{build, RenderContext};
use crate::telegraf::model::{TelegrafConfig, Toml};
use crate::yaml::{lookup, Node, Yaml};

verus! {

/// The texts of a list in the file, as a value.
pub open spec fn written(items: Seq<Node>) -> Toml {
    Toml::List(Seq::new(items.len(), |i: int| Toml::Text(items[i]->Text_0)))
}

/// Whether a list in the file holds nothing but texts, and at least one.
pub open spec fn holds_texts(items: Seq<Node>) -> bool {
    items.len() > 0 && forall|i: int| 0 <= i < items.len() ==> (#[trigger] items[i]) is Text
}

proof fn lemma_written(items: Seq<Node>, value: Seq<String>)
    requires
        holds_texts(items),
        value.len() == items.len(),
        forall|i: int|
            0 <= i < items.len() ==> (items[i] matches Node::Text(t) ==> (#[trigger] value[i])@ == t),
    ensures
        texts_value(value) == written(items),
{
    assert forall|i: int| 0 <= i < items.len() implies (#[trigger] value[i])@
        == items[i]->Text_0 by {
        assert(items[i] is Text);
    }
    assert(texts_value(value)->List_0 =~= written(items)->List_0);
}

/// The containers, mount points, devices and interfaces that the file includes or excludes
/// are those that Telegraf is told to include or to exclude.
pub proof fn law_what_the_file_excludes_telegraf_excludes(
    doc: &Result<Option<Yaml>, String>,
    o: &Overrides,
    host: &Host,
    cfg: ConfigV1,
    w: Vec<String>,
    root: Node,
    c: Config,
    ctx: &RenderContext<'_>,
    r: TelegrafConfig,
    items: Seq<Node>,
)
    requires
        call_ensures(
            from_document,
            (doc, o, host),
            Ok::<(ConfigV1, Vec<String>), MuninnError>((cfg, w)),
        ),
        parsed(*doc) == Ok::<Option<Node>, Seq<char>>(Some(root)),
        call_ensures(Config::from_v1, (cfg, host), Ok::<Config, MuninnError>(c)),
        call_ensures(build, (ctx,), r),
        *ctx.config == c,
        holds_texts(items),
    ensures
        ({
            let docker = inside(inside(root, "modules"@), "docker"@);
            lookup(docker, "enabled"@) == Some(Node::Bool(true)) ==> {
                &&& lookup(docker, "container_exclude"@) == Some(Node::List(items)) ==> has(
                    r@.inputs,
                    "docker"@,
                    "container_name_exclude"@,
                    written(items),
                )
                &&& lookup(docker, "container_include"@) == Some(Node::List(items)) ==> has(
                    r@.inputs,
                    "docker"@,
                    "container_name_include"@,
                    written(items),
                )
            }
        }),
        ({
            let disks = inside(inside(root, "modules"@), "disks"@);
            lookup(disks, "enabled"@) == Some(Node::Bool(true)) ==> {
                &&& lookup(disks, "include_mountpoints"@) == Some(Node::List(items)) ==> has(
                    r@.inputs,
                    "disk"@,
                    "mount_points"@,
                    written(items),
                )
                &&& lookup(disks, "exclude_filesystems"@) == Some(Node::List(items)) ==> has(
                    r@.inputs,
                    "disk"@,
                    "ignore_fs"@,
                    written(items),
                )
            }
        }),
        ({
            let network = inside(inside(root, "modules"@), "network"@);
            lookup(network, "enabled"@) == Some(Node::Bool(true)) ==> (lookup(
                network,
                "include_interfaces"@,
            ) == Some(Node::List(items)) ==> has(
                r@.inputs,
                "net"@,
                "interfaces"@,
                written(items),
            ))
        }),
{
    law_overrides_change_only_logging(doc, o, host, cfg, w, root);
    law_filters_reach_the_plugin_they_are_for(ctx, r);
    assert(c.modules == cfg.modules);
    let m = inside(root, "modules"@);
    let docker = inside(m, "docker"@);
    if lookup(docker, "enabled"@) == Some(Node::Bool(true)) {
        assert(cfg.modules.docker.enabled);
        law_docker_is_told_what_is_configured(ctx, r);
        if lookup(docker, "container_exclude"@) == Some(Node::List(items)) {
            lemma_written(items, cfg.modules.docker.container_exclude@);
        }
        if lookup(docker, "container_include"@) == Some(Node::List(items)) {
            lemma_written(items, cfg.modules.docker.container_include@);
        }
    }
    let disks = inside(m, "disks"@);
    if lookup(disks, "enabled"@) == Some(Node::Bool(true)) {
        assert(cfg.modules.disks.enabled);
        if lookup(disks, "include_mountpoints"@) == Some(Node::List(items)) {
            lemma_written(items, cfg.modules.disks.include_mountpoints@);
        }
        if lookup(disks, "exclude_filesystems"@) == Some(Node::List(items)) {
            lemma_written(items, cfg.modules.disks.exclude_filesystems@);
        }
    }
    let network = inside(m, "network"@);
    if lookup(network, "enabled"@) == Some(Node::Bool(true)) {
        assert(cfg.modules.network.enabled);
        if lookup(network, "include_interfaces"@) == Some(Node::List(items)) {
            lemma_written(items, cfg.modules.network.include_interfaces@);
        }
    }
}

/// What the file says of the InfluxDB output is what Telegraf writes to: the URL, the
/// organization and the bucket of the file, each in its own place.
pub proof fn law_telegraf_writes_where_the_file_says(
    doc: &Result<Option<Yaml>, String>,
    o: &Overrides,
    host: &Host,
    cfg: ConfigV1,
    w: Vec<String>,
    root: Node,
    c: Config,
    ctx: &RenderContext<'_>,
    r: TelegrafConfig,
)
    requires
        call_ensures(
            from_document,
            (doc, o, host),
            Ok::<(ConfigV1, Vec<String>), MuninnError>((cfg, w)),
        ),
        parsed(*doc) == Ok::<Option<Node>, Seq<char>>(Some(root)),
        call_ensures(Config::from_v1, (cfg, host), Ok::<Config, MuninnError>(c)),
        call_ensures(build, (ctx,), r),
        *ctx.config == c,
    ensures
        ({
            let n = inside(inside(root, "outputs"@), "influxdb"@);
            lookup(n, "enabled"@) == Some(Node::Bool(true)) ==> {
                &&& lookup(n, "url"@) matches Some(Node::Text(t)) ==> has(
                    r@.outputs,
                    "influxdb_v2"@,
                    "urls"@,
                    Toml::List(seq![Toml::Text(t)]),
                )
                &&& lookup(n, "organization"@) matches Some(Node::Text(t)) ==> has(
                    r@.outputs,
                    "influxdb_v2"@,
                    "organization"@,
                    Toml::Text(t),
                )
                &&& lookup(n, "bucket"@) matches Some(Node::Text(t)) ==> has(
                    r@.outputs,
                    "influxdb_v2"@,
                    "bucket"@,
                    Toml::Text(t),
                )
            }
        }),
{
    law_overrides_change_only_logging(doc, o, host, cfg, w, root);
    law_the_outputs_are_told_what_is_configured(ctx, r);
    let n = inside(inside(root, "outputs"@), "influxdb"@);
    if lookup(n, "enabled"@) == Some(Node::Bool(true)) {
        assert(cfg.outputs.influxdb.enabled);
        assert(c.outputs.influxdb is Some);
    }
}

} // verus!
