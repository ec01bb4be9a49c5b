//! The input modules: each a declarative mapping from options onto a Telegraf
//! plugin.
//!
//! Ranks decide the order in which plugins appear in the generated file.

pub use crate::modules::inputs::Module::{
    Cpu, DiskIo, Disks, Docker, ImageUpdates, Load, Memory, Network, Processes, Swap, System,
    Updates,
};

use vstd::prelude::*;
use vstd::string::*;
use crate::config::normalised::Config;
use crate::duration::ConfigDuration;
use crate::modules::image_updates::{image_updates_plugin, render_image_updates};
use crate::modules::outputs::{one_word, two_words};
use crate::modules::updates::{render_updates, updates_plugin};
use crate::modules::{
    endpoint_needs, host_needs, Endpoint, EndpointKind, MonitoringModule, Needs, Reach,
    RenderContext, Requirements,
};
use crate::telegraf::model::{
    bare, plugins, word_list, Plugin, PluginInstance, Section, Toml, TomlValue,
};
use crate::text;

verus! {

pub const RANK_CPU: u16 = 10;

pub const RANK_MEM: u16 = 20;

pub const RANK_SYSTEM: u16 = 30;

pub const RANK_SWAP: u16 = 40;

pub const RANK_PROCESSES: u16 = 50;

pub const RANK_DISK: u16 = 60;

pub const RANK_DISKIO: u16 = 70;

pub const RANK_NET: u16 = 80;

pub const RANK_DOCKER: u16 = 90;

pub const RANK_UPDATES: u16 = 100;

pub const RANK_IMAGE_UPDATES: u16 = 110;

/// The monitoring modules.
#[derive(Debug, Clone, Copy, PartialEq, Eq, Structural)]
pub enum Module {
    Cpu,
    Memory,
    /// Load averages: a group of `inputs.system`, sharing a merge key with
    /// [`Module::System`].
    Load,
    /// Uptime and logged-in users, without the load averages that Telegraf's own
    /// default adds.
    System,
    Swap,
    Processes,
    Disks,
    DiskIo,
    Network,
    Docker,
    /// Pending package updates on the host.
    Updates,
    /// Whether a newer image is available for each running container.
    ImageUpdates,
}

/// The rank of a module's plugin.
pub open spec fn rank_of(m: Module) -> u16 {
    match m {
        Module::Cpu => RANK_CPU,
        Module::Memory => RANK_MEM,
        Module::Load => RANK_SYSTEM,
        Module::System => RANK_SYSTEM,
        Module::Swap => RANK_SWAP,
        Module::Processes => RANK_PROCESSES,
        Module::Disks => RANK_DISK,
        Module::DiskIo => RANK_DISKIO,
        Module::Network => RANK_NET,
        Module::Docker => RANK_DOCKER,
        Module::Updates => RANK_UPDATES,
        Module::ImageUpdates => RANK_IMAGE_UPDATES,
    }
}

/// The name of a module's plugin.
pub open spec fn plugin_name(m: Module) -> Seq<char> {
    match m {
        Module::Cpu => "cpu"@,
        Module::Memory => "mem"@,
        Module::Load => "system"@,
        Module::System => "system"@,
        Module::Swap => "swap"@,
        Module::Processes => "processes"@,
        Module::Disks => "disk"@,
        Module::DiskIo => "diskio"@,
        Module::Network => "net"@,
        Module::Docker => "docker"@,
        Module::Updates => "exec"@,
        Module::ImageUpdates => "exec"@,
    }
}

/// The merge key of a module's plugin: shared by the two that share a plugin.
pub open spec fn merge_key_of(m: Module) -> Option<Seq<char>> {
    match m {
        Module::Load => Some("system"@),
        Module::System => Some("system"@),
        _ => None,
    }
}

/// Whether an input instance is that of a module.
pub open spec fn belongs_to(p: Plugin, m: Module) -> bool {
    &&& p.section == Section::Input
    &&& p.plugin == plugin_name(m)
    &&& p.rank == rank_of(m)
    &&& p.merge_key == merge_key_of(m)
}

/// What a Docker endpoint text means: the scheme, and something behind it.
pub open spec fn endpoint_of(endpoint: Seq<char>) -> Option<Reach> {
    if "unix://"@.is_prefix_of(endpoint) {
        if endpoint == "unix://"@ {
            None
        } else {
            Some(Reach::UnixSocket(endpoint.skip("unix://"@.len() as int)))
        }
    } else if "tcp://"@.is_prefix_of(endpoint) {
        if endpoint == "tcp://"@ {
            None
        } else {
            Some(Reach::Tcp(endpoint.skip("tcp://"@.len() as int)))
        }
    } else {
        None
    }
}

pub open spec fn timed(reach: Option<Reach>, timeout: ConfigDuration) -> Option<
    (Reach, ConfigDuration),
> {
    match reach {
        Some(r) => Some((r, timeout)),
        None => None,
    }
}

/// The service a Docker endpoint names, if it names one.
pub fn parse_docker_endpoint(endpoint: &str, timeout: ConfigDuration) -> (r: Option<Endpoint>)
    ensures
        (match r {
            Some(e) => Some(e@),
            None => None,
        }) == timed(endpoint_of(endpoint@), timeout),
{
    match text::strip_prefix(endpoint, "unix://") {
        Some(path) => {
            proof {
                assert("unix://"@.is_prefix_of(endpoint@)) by {
                    assert(endpoint@.subrange(0, "unix://"@.len() as int) =~= "unix://"@);
                }
                assert(endpoint@.skip("unix://"@.len() as int) =~= path@);
                if path@.len() == 0 {
                    assert(endpoint@ =~= "unix://"@);
                } else {
                    assert(endpoint@.len() != "unix://"@.len());
                }
            }
            if path.as_str().is_empty() {
                return None;
            }
            return Some(Endpoint { kind: EndpointKind::UnixSocket(path), timeout });
        }
        None => {}
    }
    match text::strip_prefix(endpoint, "tcp://") {
        Some(address) => {
            proof {
                assert("tcp://"@.is_prefix_of(endpoint@)) by {
                    assert(endpoint@.subrange(0, "tcp://"@.len() as int) =~= "tcp://"@);
                }
                assert(endpoint@.skip("tcp://"@.len() as int) =~= address@);
                if address@.len() == 0 {
                    assert(endpoint@ =~= "tcp://"@);
                } else {
                    assert(endpoint@.len() != "tcp://"@.len());
                }
            }
            if address.as_str().is_empty() {
                return None;
            }
            Some(Endpoint { kind: EndpointKind::Tcp(address), timeout })
        }
        None => None,
    }
}

/// The plugin a module contributes.
pub open spec fn plugin_of(m: Module, c: Config) -> Plugin {
    match m {
        Module::Cpu => bare(Section::Input, "cpu"@, RANK_CPU)
            .noted("module: "@ + "cpu"@)
            .with("percpu"@, Toml::Flag(true))
            .with("totalcpu"@, Toml::Flag(true))
            .with("collect_cpu_time"@, Toml::Flag(false))
            .with("report_active"@, Toml::Flag(false)),
        Module::Memory => bare(Section::Input, "mem"@, RANK_MEM).noted("module: "@ + "memory"@),
        Module::Load => (Plugin {
            merge_key: Some("system"@),
            ..bare(Section::Input, "system"@, RANK_SYSTEM)
        }).noted("module: "@ + "load"@).with("include"@, word_list(seq!["load"@])),
        Module::System => (Plugin {
            merge_key: Some("system"@),
            ..bare(Section::Input, "system"@, RANK_SYSTEM)
        }).noted("module: "@ + "system"@).with("include"@, word_list(seq!["uptime"@, "users"@])),
        Module::Swap => bare(Section::Input, "swap"@, RANK_SWAP).noted("module: "@ + "swap"@),
        Module::Processes => bare(Section::Input, "processes"@, RANK_PROCESSES).noted(
            "module: "@ + "processes"@,
        ),
        Module::Disks => bare(Section::Input, "disk"@, RANK_DISK)
            .noted("module: "@ + "disks"@)
            .with_list("mount_points"@, text::texts(c.modules.disks.include_mountpoints@))
            .with_list("ignore_fs"@, text::texts(c.modules.disks.exclude_filesystems@))
            .dropping("path"@, text::texts(c.modules.disks.exclude_mountpoints@)),
        Module::DiskIo => bare(Section::Input, "diskio"@, RANK_DISKIO)
            .noted("module: "@ + "disk_io"@)
            .with_list("devices"@, text::texts(c.modules.disk_io.include_devices@))
            .dropping("name"@, text::texts(c.modules.disk_io.exclude_devices@)),
        Module::Network => bare(Section::Input, "net"@, RANK_NET)
            .noted("module: "@ + "network"@)
            .with_list("interfaces"@, text::texts(c.modules.network.include_interfaces@))
            .dropping("interface"@, text::texts(c.modules.network.exclude_interfaces@)),
        Module::Docker => bare(Section::Input, "docker"@, RANK_DOCKER)
            .noted("module: "@ + "docker"@)
            .with("endpoint"@, Toml::Text(c.modules.docker.endpoint@))
            .with("timeout"@, Toml::Text(c.modules.docker.timeout.telegraf()))
            .with_list("container_name_include"@, text::texts(c.modules.docker.container_include@))
            .with_list("container_name_exclude"@, text::texts(c.modules.docker.container_exclude@))
            .with("container_state_include"@, word_list(text::texts(c.modules.docker.container_states@)))
            .with("perdevice_include"@, word_list(seq!["cpu"@]))
            .with("total_include"@, word_list(seq!["cpu"@, "blkio"@, "network"@])),
        Module::Updates => updates_plugin(c),
        Module::ImageUpdates => image_updates_plugin(c),
    }
}

fn three_words(a: &str, b: &str, c: &str) -> (r: TomlValue)
    ensures
        r@ == word_list(seq![a@, b@, c@]),
{
    let mut list: Vec<String> = Vec::new();
    list.push(a.to_owned());
    list.push(b.to_owned());
    list.push(c.to_owned());
    proof {
        assert(text::texts(list@) =~= seq![a@, b@, c@]);
    }
    TomlValue::words(&list)
}

fn render_disks(c: &Config) -> (r: PluginInstance)
    ensures
        r@ == plugin_of(Module::Disks, *c),
{
    let m = &c.modules.disks;
    PluginInstance::input("disk", RANK_DISK)
        .from_module("disks")
        .list("mount_points", &m.include_mountpoints)
        .list("ignore_fs", &m.exclude_filesystems)
        // The plugin filters by filesystem type but not by path.
        .tagdrop("path", &m.exclude_mountpoints)
}

fn render_disk_io(c: &Config) -> (r: PluginInstance)
    ensures
        r@ == plugin_of(Module::DiskIo, *c),
{
    let m = &c.modules.disk_io;
    PluginInstance::input("diskio", RANK_DISKIO)
        .from_module("disk_io")
        .list("devices", &m.include_devices)
        // The device tag is `name`, not `device`.
        .tagdrop("name", &m.exclude_devices)
}

fn render_network(c: &Config) -> (r: PluginInstance)
    ensures
        r@ == plugin_of(Module::Network, *c),
{
    let m = &c.modules.network;
    PluginInstance::input("net", RANK_NET)
        .from_module("network")
        .list("interfaces", &m.include_interfaces)
        .tagdrop("interface", &m.exclude_interfaces)
}

fn render_docker(c: &Config) -> (r: PluginInstance)
    ensures
        r@ == plugin_of(Module::Docker, *c),
{
    let m = &c.modules.docker;
    PluginInstance::input("docker", RANK_DOCKER)
        .from_module("docker")
        .scalar("endpoint", TomlValue::text(&m.endpoint))
        .scalar("timeout", TomlValue::text(&m.timeout.as_telegraf()))
        .list("container_name_include", &m.container_include)
        .list("container_name_exclude", &m.container_exclude)
        // A stopped container disappears from the metrics rather than reporting
        // zeros, unless its state is asked for.
        .scalar("container_state_include", TomlValue::words(&m.container_states))
        .scalar("perdevice_include", one_word("cpu"))
        .scalar("total_include", three_words("cpu", "blkio", "network"))
}

fn one_path(a: &'static str) -> (r: Requirements)
    ensures
        r@ == host_needs(seq![a@]),
{
    let mut paths: Vec<&'static str> = Vec::new();
    paths.push(a);
    proof {
        assert(text::slices(paths@) =~= seq![a@]);
    }
    Requirements::host(paths)
}

fn two_paths(a: &'static str, b: &'static str) -> (r: Requirements)
    ensures
        r@ == host_needs(seq![a@, b@]),
{
    let mut paths: Vec<&'static str> = Vec::new();
    paths.push(a);
    paths.push(b);
    proof {
        assert(text::slices(paths@) =~= seq![a@, b@]);
    }
    Requirements::host(paths)
}

fn updates_requirements() -> (r: Requirements)
    ensures
        r@ == (Needs { debian_family_only: true, ..host_needs(seq!["var"@, "etc"@, "usr"@]) }),
{
    // /etc/os-release is a symlink into /usr.
    let mut paths: Vec<&'static str> = Vec::new();
    paths.push("var");
    paths.push("etc");
    paths.push("usr");
    proof {
        assert(text::slices(paths@) =~= seq!["var"@, "etc"@, "usr"@]);
    }
    let mut r = Requirements::host(paths);
    r.debian_family_only = true;
    r
}

impl MonitoringModule for Module {
    open spec fn name(&self) -> Seq<char> {
        match self {
            Module::Cpu => "cpu"@,
            Module::Memory => "memory"@,
            Module::Load => "load"@,
            Module::System => "system"@,
            Module::Swap => "swap"@,
            Module::Processes => "processes"@,
            Module::Disks => "disks"@,
            Module::DiskIo => "disk_io"@,
            Module::Network => "network"@,
            Module::Docker => "docker"@,
            Module::Updates => "updates"@,
            Module::ImageUpdates => "image_updates"@,
        }
    }

    open spec fn switched_on(&self, c: Config) -> bool {
        match self {
            Module::Cpu => c.modules.cpu.enabled,
            Module::Memory => c.modules.memory.enabled,
            Module::Load => c.modules.load.enabled,
            Module::System => c.modules.system.enabled,
            Module::Swap => c.modules.swap.enabled,
            Module::Processes => c.modules.processes.enabled,
            Module::Disks => c.modules.disks.enabled,
            Module::DiskIo => c.modules.disk_io.enabled,
            Module::Network => c.modules.network.enabled,
            Module::Docker => c.modules.docker.enabled,
            Module::Updates => c.modules.updates.enabled,
            Module::ImageUpdates => c.modules.image_updates.enabled,
        }
    }

    open spec fn needs(&self, c: Config) -> Needs {
        match self {
            Module::System => host_needs(seq!["proc"@, "var"@]),
            Module::DiskIo => host_needs(seq!["proc"@, "sys"@]),
            Module::Docker => endpoint_needs(
                timed(endpoint_of(c.modules.docker.endpoint@), c.modules.docker.timeout),
            ),
            Module::Updates => Needs {
                debian_family_only: true,
                ..host_needs(seq!["var"@, "etc"@, "usr"@])
            },
            Module::ImageUpdates => endpoint_needs(
                timed(
                    endpoint_of(c.modules.image_updates.endpoint@),
                    c.modules.image_updates.timeout,
                ),
            ),
            _ => host_needs(seq!["proc"@]),
        }
    }

    open spec fn contributes(&self, c: Config) -> Seq<Plugin> {
        seq![plugin_of(*self, c)]
    }

    fn id(&self) -> (r: &'static str) {
        match self {
            Module::Cpu => "cpu",
            Module::Memory => "memory",
            Module::Load => "load",
            Module::System => "system",
            Module::Swap => "swap",
            Module::Processes => "processes",
            Module::Disks => "disks",
            Module::DiskIo => "disk_io",
            Module::Network => "network",
            Module::Docker => "docker",
            Module::Updates => "updates",
            Module::ImageUpdates => "image_updates",
        }
    }

    fn enabled(&self, config: &Config) -> (r: bool) {
        match self {
            Module::Cpu => config.modules.cpu.enabled,
            Module::Memory => config.modules.memory.enabled,
            Module::Load => config.modules.load.enabled,
            Module::System => config.modules.system.enabled,
            Module::Swap => config.modules.swap.enabled,
            Module::Processes => config.modules.processes.enabled,
            Module::Disks => config.modules.disks.enabled,
            Module::DiskIo => config.modules.disk_io.enabled,
            Module::Network => config.modules.network.enabled,
            Module::Docker => config.modules.docker.enabled,
            Module::Updates => config.modules.updates.enabled,
            Module::ImageUpdates => config.modules.image_updates.enabled,
        }
    }

    fn requirements(&self, config: &Config) -> (r: Requirements) {
        match self {
            Module::System => two_paths("proc", "var"),
            Module::DiskIo => two_paths("proc", "sys"),
            // Derived from the configured endpoint: a socket proxy reached over
            // TCP has no socket file at all.
            Module::Docker => Requirements::endpoint(
                parse_docker_endpoint(
                    &config.modules.docker.endpoint,
                    config.modules.docker.timeout,
                ),
            ),
            Module::Updates => updates_requirements(),
            Module::ImageUpdates => Requirements::endpoint(
                parse_docker_endpoint(
                    &config.modules.image_updates.endpoint,
                    config.modules.image_updates.timeout,
                ),
            ),
            _ => one_path("proc"),
        }
    }

    fn render(&self, ctx: &RenderContext<'_>) -> (r: Vec<PluginInstance>) {
        let p = match self {
            Module::Cpu => PluginInstance::input("cpu", RANK_CPU)
                .from_module("cpu")
                .scalar("percpu", TomlValue::flag(true))
                .scalar("totalcpu", TomlValue::flag(true))
                .scalar("collect_cpu_time", TomlValue::flag(false))
                // Includes iowait, so it reads as saturation on a machine that is
                // waiting on disk.
                .scalar("report_active", TomlValue::flag(false)),
            Module::Memory => PluginInstance::input("mem", RANK_MEM).from_module("memory"),
            Module::Load => PluginInstance::input("system", RANK_SYSTEM)
                .merge_key("system")
                .from_module("load")
                .scalar("include", one_word("load")),
            Module::System => PluginInstance::input("system", RANK_SYSTEM)
                .merge_key("system")
                .from_module("system")
                .scalar("include", two_words("uptime", "users")),
            Module::Swap => PluginInstance::input("swap", RANK_SWAP).from_module("swap"),
            Module::Processes => PluginInstance::input("processes", RANK_PROCESSES).from_module(
                "processes",
            ),
            Module::Disks => render_disks(ctx.config),
            Module::DiskIo => render_disk_io(ctx.config),
            Module::Network => render_network(ctx.config),
            Module::Docker => render_docker(ctx.config),
            Module::Updates => render_updates(ctx.config),
            Module::ImageUpdates => render_image_updates(ctx.config),
        };
        let ghost v = p@;
        let mut out: Vec<PluginInstance> = Vec::new();
        out.push(p);
        proof {
            assert(v == plugin_of(*self, *ctx.config));
            assert(plugins(out@) =~= seq![v]);
        }
        out
    }
}

/// A module's instance is its own.
pub proof fn lemma_belongs_to(m: Module, c: Config)
    ensures
        belongs_to(plugin_of(m, c), m),
{
}

/// Modules render in a fixed order: no two share a rank, except the two that
/// share a plugin and a merge key.
pub proof fn law_ranks_are_unique(a: Module, b: Module, c: Config)
    ensures
        plugin_of(a, c).rank == rank_of(a),
        rank_of(a) == rank_of(b) ==> a == b || (merge_key_of(a) is Some && merge_key_of(a)
            == merge_key_of(b) && plugin_name(a) == plugin_name(b)),
        merge_key_of(a) is Some && merge_key_of(a) == merge_key_of(b) ==> rank_of(a) == rank_of(b),
{
}

} // verus!
