//! Monitoring modules and outputs. Each turns a part of the resolved
//! configuration into Telegraf plugin instances.
//!
//! Two mappings are not one to one. `load` and `system` render into a single
//! plugin, because Telegraf has no `inputs.load`. And exclusions are not plugin
//! options: every one renders into a `tagdrop` sub-table.

pub mod agent;
pub mod image_updates;
pub mod inputs;
pub mod outputs;
pub mod updates;

use vstd::prelude::*;
use vstd::string::*;
use crate::config::normalised::{Config, Influxdb, Prometheus};
use crate::duration::ConfigDuration;
use crate::modules::inputs::{belongs_to, Module};
use crate::secret::{Secret, MASK};
use crate::telegraf::model::{
    law_mergeable_instances_stay_single, lemma_merge_target, merge_target, plugins, singular,
    with_plugin, Plugin, PluginInstance, Section, Telegraf, TelegrafConfig,
};
use crate::telegraf::renderer::file_text;
use crate::text;

verus! {

/// How a service is reached.
#[derive(Debug, Clone, PartialEq, Eq)]
pub enum EndpointKind {
    UnixSocket(String),
    Tcp(String),
}

/// A service that has to answer, and how long it is given.
#[derive(Debug, Clone, PartialEq, Eq)]
pub struct Endpoint {
    pub kind: EndpointKind,
    pub timeout: ConfigDuration,
}

/// How a service is reached, as mathematical text.
pub enum Reach {
    UnixSocket(Seq<char>),
    Tcp(Seq<char>),
}

impl View for Endpoint {
    type V = (Reach, ConfigDuration);

    open spec fn view(&self) -> (Reach, ConfigDuration) {
        (
            match self.kind {
                EndpointKind::UnixSocket(p) => Reach::UnixSocket(p@),
                EndpointKind::Tcp(a) => Reach::Tcp(a@),
            },
            self.timeout,
        )
    }
}

/// What a module needs from the host in order to report the truth.
#[derive(Debug, Clone, PartialEq, Eq)]
pub struct Requirements {
    /// Paths below the host mount prefix, e.g. `proc`, `sys`.
    pub host_paths: Vec<&'static str>,
    /// Absolute paths that are not under the prefix: the Docker socket.
    pub absolute_paths: Vec<String>,
    /// Services that have to answer.
    pub endpoints: Vec<Endpoint>,
    /// Linux capabilities.
    pub capabilities: Vec<&'static str>,
    /// True when the module only works on a Debian-family host.
    pub debian_family_only: bool,
}

/// What a module needs, as mathematical text.
pub struct Needs {
    pub host_paths: Seq<Seq<char>>,
    pub absolute_paths: Seq<Seq<char>>,
    pub endpoints: Seq<(Reach, ConfigDuration)>,
    pub capabilities: Seq<Seq<char>>,
    pub debian_family_only: bool,
}

impl View for Requirements {
    type V = Needs;

    open spec fn view(&self) -> Needs {
        Needs {
            host_paths: text::slices(self.host_paths@),
            absolute_paths: text::texts(self.absolute_paths@),
            endpoints: self.endpoints@.map_values(|e: Endpoint| e@),
            capabilities: text::slices(self.capabilities@),
            debian_family_only: self.debian_family_only,
        }
    }
}

/// Needing nothing but some paths of the host.
pub open spec fn host_needs(paths: Seq<Seq<char>>) -> Needs {
    Needs {
        host_paths: paths,
        absolute_paths: Seq::empty(),
        endpoints: Seq::empty(),
        capabilities: Seq::empty(),
        debian_family_only: false,
    }
}

/// Needing a Docker endpoint: the service behind it, and for a socket the socket
/// file too.
pub open spec fn endpoint_needs(endpoint: Option<(Reach, ConfigDuration)>) -> Needs {
    match endpoint {
        Some((reach, timeout)) => Needs {
            absolute_paths: match reach {
                Reach::UnixSocket(p) => seq![p],
                Reach::Tcp(_) => Seq::empty(),
            },
            endpoints: seq![(reach, timeout)],
            ..host_needs(Seq::empty())
        },
        None => host_needs(Seq::empty()),
    }
}

impl Default for Requirements {
    fn default() -> (r: Self)
        ensures
            r@ == host_needs(Seq::empty()),
    {
        let r = Requirements::host(Vec::new());
        proof {
            assert(r@.host_paths =~= Seq::<Seq<char>>::empty());
        }
        r
    }
}

impl Requirements {
    /// Needing nothing but some paths of the host.
    pub fn host(paths: Vec<&'static str>) -> (r: Self)
        ensures
            r@ == host_needs(text::slices(paths@)),
    {
        let r = Requirements {
            host_paths: paths,
            absolute_paths: Vec::new(),
            endpoints: Vec::new(),
            capabilities: Vec::new(),
            debian_family_only: false,
        };
        proof {
            assert(r@.absolute_paths =~= Seq::<Seq<char>>::empty());
            assert(r@.endpoints =~= Seq::<(Reach, ConfigDuration)>::empty());
            assert(r@.capabilities =~= Seq::<Seq<char>>::empty());
        }
        r
    }

    /// Needing a Docker endpoint.
    pub fn endpoint(endpoint: Option<Endpoint>) -> (r: Self)
        ensures
            r@ == endpoint_needs(
                match endpoint {
                    Some(e) => Some(e@),
                    None => None,
                },
            ),
    {
        let mut req = Requirements::host(Vec::new());
        proof {
            assert(text::slices(req.host_paths@) =~= Seq::<Seq<char>>::empty());
        }
        match endpoint {
            Some(e) => {
                let ghost wanted = e@;
                match &e.kind {
                    EndpointKind::UnixSocket(path) => {
                        text::note(&mut req.absolute_paths, path.clone());
                    }
                    EndpointKind::Tcp(_) => {}
                }
                req.endpoints.push(e);
                proof {
                    assert(req@.endpoints =~= seq![wanted]);
                }
            }
            None => {}
        }
        req
    }
}

/// Everything a module needs in order to render.
pub struct RenderContext<'a> {
    pub config: &'a Config,
    /// When true, secret values render as the mask.
    pub redact_secrets: bool,
}

/// A secret as it appears in the output.
pub open spec fn shown_secret(redact: bool, value: Seq<char>) -> Seq<char> {
    if redact {
        MASK@
    } else {
        value
    }
}

impl<'a> RenderContext<'a> {
    /// Rendering for Telegraf: the only one in which a credential appears.
    pub fn new(config: &'a Config) -> (r: Self)
        ensures
            *r.config == *config,
            !r.redact_secrets,
    {
        RenderContext { config, redact_secrets: false }
    }

    /// Rendering for a reader: safe to paste into an issue.
    pub fn redacted(config: &'a Config) -> (r: Self)
        ensures
            *r.config == *config,
            r.redact_secrets,
    {
        RenderContext { config, redact_secrets: true }
    }

    /// A secret as it should appear in the output.
    pub fn secret(&self, value: &Secret) -> (r: String)
        ensures
            r@ == shown_secret(self.redact_secrets, value@),
    {
        if self.redact_secrets {
            MASK.to_owned()
        } else {
            value.expose().to_owned()
        }
    }
}

/// A monitoring module.
///
/// Rendering and requirements are separate: checking the runtime has to be able
/// to ask what a module needs without generating anything.
pub trait MonitoringModule {
    /// The module's name.
    spec fn name(&self) -> Seq<char>;

    /// Whether a configuration switches it on.
    spec fn switched_on(&self, c: Config) -> bool;

    /// What it needs under a configuration.
    spec fn needs(&self, c: Config) -> Needs;

    /// What it contributes under a configuration.
    spec fn contributes(&self, c: Config) -> Seq<Plugin>;

    /// The name used in the YAML and in log messages.
    fn id(&self) -> (r: &'static str)
        ensures
            r@ == self.name(),
    ;

    /// Whether this module is switched on.
    fn enabled(&self, config: &Config) -> (r: bool)
        ensures
            r == self.switched_on(*config),
    ;

    /// What the module needs from the host.
    fn requirements(&self, config: &Config) -> (r: Requirements)
        ensures
            r@ == self.needs(*config),
    ;

    /// The plugin instances this module contributes.
    fn render(&self, ctx: &RenderContext<'_>) -> (r: Vec<PluginInstance>)
        ensures
            plugins(r@) == self.contributes(*ctx.config),
    ;
}

/// Every input module, in a fixed order.
pub open spec fn module_list() -> Seq<Module> {
    seq![
        Module::Cpu,
        Module::Memory,
        Module::Load,
        Module::System,
        Module::Swap,
        Module::Processes,
        Module::Disks,
        Module::DiskIo,
        Module::Network,
        Module::Docker,
        Module::Updates,
        Module::ImageUpdates,
    ]
}

/// Every input module, in a fixed order: that of status listings and diagnostics.
pub fn all_modules() -> (r: Vec<Module>)
    ensures
        r@ == module_list(),
{
    let mut out: Vec<Module> = Vec::new();
    out.push(Module::Cpu);
    out.push(Module::Memory);
    out.push(Module::Load);
    out.push(Module::System);
    out.push(Module::Swap);
    out.push(Module::Processes);
    out.push(Module::Disks);
    out.push(Module::DiskIo);
    out.push(Module::Network);
    out.push(Module::Docker);
    out.push(Module::Updates);
    out.push(Module::ImageUpdates);
    out
}

/// A configuration with what the first `n` of `list` contribute, where they are
/// switched on.
pub open spec fn with_modules(base: Telegraf, list: Seq<Module>, c: Config, n: int) -> Telegraf
    decreases n,
{
    if n <= 0 {
        base
    } else {
        let before = with_modules(base, list, c, n - 1);
        if list[n - 1].switched_on(c) {
            before.with_all(list[n - 1].contributes(c))
        } else {
            before
        }
    }
}

/// The complete Telegraf configuration of a configuration.
pub open spec fn built(c: Config, redact: bool) -> Telegraf {
    with_modules(agent::section(c), module_list(), c, module_list().len() as int).with_all(
        outputs::contributed(c, redact),
    )
}

/// Builds a complete Telegraf configuration from a resolved configuration.
///
/// It cannot fail: everything that could was resolved or rejected before.
pub fn build(ctx: &RenderContext<'_>) -> (r: TelegrafConfig)
    ensures
        r@ == built(*ctx.config, ctx.redact_secrets),
{
    let mut config = agent::render(ctx);
    let modules = all_modules();
    let ghost base = config@;
    let mut i: usize = 0;
    while i < modules.len()
        invariant
            i <= modules.len(),
            modules@ == module_list(),
            config@ == with_modules(base, module_list(), *ctx.config, i as int),
        decreases modules.len() - i,
    {
        if modules[i].enabled(ctx.config) {
            config.add_all(modules[i].render(ctx));
        }
        i += 1;
    }
    config.add_all(outputs::render(ctx));
    config
}

/// The names and needs of the first `n` of `list` that are switched on.
pub open spec fn needs_of(list: Seq<Module>, c: Config, n: int) -> Seq<(Seq<char>, Needs)>
    decreases n,
{
    if n <= 0 {
        Seq::empty()
    } else if list[n - 1].switched_on(c) {
        needs_of(list, c, n - 1).push((list[n - 1].name(), list[n - 1].needs(c)))
    } else {
        needs_of(list, c, n - 1)
    }
}

/// The contents of a list of named requirements.
pub open spec fn named_needs(list: Seq<(&'static str, Requirements)>) -> Seq<(Seq<char>, Needs)> {
    list.map_values(|r: (&'static str, Requirements)| (r.0@, r.1@))
}

/// The requirements of every enabled module.
pub fn requirements_of_enabled(config: &Config) -> (r: Vec<(&'static str, Requirements)>)
    ensures
        named_needs(r@) == needs_of(module_list(), *config, module_list().len() as int),
{
    let modules = all_modules();
    let mut out: Vec<(&'static str, Requirements)> = Vec::new();
    let mut i: usize = 0;
    proof {
        assert(named_needs(out@) =~= Seq::<(Seq<char>, Needs)>::empty());
    }
    while i < modules.len()
        invariant
            i <= modules.len(),
            modules@ == module_list(),
            named_needs(out@) == needs_of(module_list(), *config, i as int),
        decreases modules.len() - i,
    {
        if modules[i].enabled(config) {
            let ghost before = named_needs(out@);
            let name = modules[i].id();
            let needs = modules[i].requirements(config);
            let ghost item = (name@, needs@);
            out.push((name, needs));
            proof {
                assert(named_needs(out@) =~= before.push(item));
            }
        }
        i += 1;
    }
    out
}

// ---------------------------------------------------------------------------
// What building guarantees
// ---------------------------------------------------------------------------

proof fn lemma_with_all_stays_single(t: Telegraf, list: Seq<Plugin>)
    requires
        singular(t.inputs),
        singular(t.outputs),
    ensures
        singular(t.with_all(list).inputs),
        singular(t.with_all(list).outputs),
    decreases list.len(),
{
    if list.len() > 0 {
        lemma_with_all_stays_single(t, list.drop_last());
        let before = t.with_all(list.drop_last());
        law_mergeable_instances_stay_single(before.inputs, list.last());
        law_mergeable_instances_stay_single(before.outputs, list.last());
    }
}

proof fn lemma_with_modules_stays_single(t: Telegraf, list: Seq<Module>, c: Config, n: int)
    requires
        0 <= n <= list.len(),
        singular(t.inputs),
        singular(t.outputs),
    ensures
        singular(with_modules(t, list, c, n).inputs),
        singular(with_modules(t, list, c, n).outputs),
    decreases n,
{
    if n > 0 {
        lemma_with_modules_stays_single(t, list, c, n - 1);
        lemma_with_all_stays_single(with_modules(t, list, c, n - 1), list[n - 1].contributes(c));
    }
}

/// Whatever is switched on, no two instances of the generated configuration share
/// a plugin and a merge key: `load` and `system` never become two blocks.
pub proof fn law_no_metric_is_collected_twice(c: Config, redact: bool)
    ensures
        singular(built(c, redact).inputs),
        singular(built(c, redact).outputs),
{
    let base = agent::section(c);
    let n = module_list().len() as int;
    lemma_with_modules_stays_single(base, module_list(), c, n);
    lemma_with_all_stays_single(
        with_modules(base, module_list(), c, n),
        outputs::contributed(c, redact),
    );
}

/// Whether a list of inputs has an instance of a module.
pub open spec fn collects(list: Seq<Plugin>, m: Module) -> bool {
    exists|i: int| 0 <= i < list.len() && #[trigger] belongs_to(list[i], m)
}

/// Whether an input instance is that of one of the first `n` modules of a list, and
/// that module is switched on.
pub open spec fn asked_for(p: Plugin, modules: Seq<Module>, c: Config, n: int) -> bool {
    exists|k: int| 0 <= k < n && wants(modules[k], c) && #[trigger] belongs_to(p, modules[k])
}

/// Whether a configuration switches a module on.
pub open spec fn wants(m: Module, c: Config) -> bool {
    m.switched_on(c)
}

/// Whether the inputs are those of the first `n` modules as far as they are
/// switched on: none of them missing, and none besides.
spec fn faithful(list: Seq<Plugin>, modules: Seq<Module>, c: Config, n: int) -> bool {
    &&& forall|i: int| 0 <= i < list.len() ==> #[trigger] asked_for(list[i], modules, c, n)
    &&& forall|k: int|
        0 <= k < n && wants(modules[k], c) ==> #[trigger] collects(list, modules[k])
}

proof fn lemma_adding_is_faithful(
    list: Seq<Plugin>,
    modules: Seq<Module>,
    c: Config,
    n: int,
    p: Plugin,
)
    requires
        0 <= n < modules.len(),
        faithful(list, modules, c, n),
        wants(modules[n], c),
        belongs_to(p, modules[n]),
    ensures
        faithful(with_plugin(list, p), modules, c, n + 1),
{
    let m = modules[n];
    let r = with_plugin(list, p);
    lemma_merge_target(list, p, 0);
    if let Some(t) = merge_target(list, p, 0) {
        // Only the two modules of one plugin share a merge key, and they share
        // their rank.
        assert(asked_for(list[t], modules, c, n));
        assert(belongs_to(r[t], m));
    } else {
        assert(belongs_to(r[list.len() as int], m));
    }
    assert(collects(r, m));
    assert forall|i: int| 0 <= i < r.len() implies #[trigger] asked_for(r[i], modules, c, n
        + 1) by {
        if i < list.len() {
            assert(asked_for(list[i], modules, c, n));
            let k = choose|k: int|
                0 <= k < n && wants(modules[k], c) && #[trigger] belongs_to(list[i], modules[k]);
            assert(belongs_to(r[i], modules[k]));
        } else {
            assert(belongs_to(r[i], modules[n]));
        }
    }
    assert forall|k: int| 0 <= k < n + 1 && wants(modules[k], c) implies #[trigger] collects(
        r,
        modules[k],
    ) by {
        if k < n {
            assert(collects(list, modules[k]));
            let i = choose|i: int| 0 <= i < list.len() && #[trigger] belongs_to(list[i], modules[k]);
            assert(belongs_to(r[i], modules[k]));
        }
    }
}

proof fn lemma_skipping_is_faithful(list: Seq<Plugin>, modules: Seq<Module>, c: Config, n: int)
    requires
        0 <= n < modules.len(),
        faithful(list, modules, c, n),
        !wants(modules[n], c),
    ensures
        faithful(list, modules, c, n + 1),
{
    assert forall|i: int| 0 <= i < list.len() implies #[trigger] asked_for(list[i], modules, c, n
        + 1) by {
        assert(asked_for(list[i], modules, c, n));
        let k = choose|k: int|
            0 <= k < n && wants(modules[k], c) && #[trigger] belongs_to(list[i], modules[k]);
        assert(belongs_to(list[i], modules[k]));
    }
}

proof fn lemma_built_inputs_are_faithful(base: Telegraf, modules: Seq<Module>, c: Config, n: int)
    requires
        0 <= n <= modules.len(),
        base.inputs.len() == 0,
    ensures
        faithful(with_modules(base, modules, c, n).inputs, modules, c, n),
        with_modules(base, modules, c, n).outputs == base.outputs,
    decreases n,
{
    if n > 0 {
        lemma_built_inputs_are_faithful(base, modules, c, n - 1);
        let before = with_modules(base, modules, c, n - 1);
        let m = modules[n - 1];
        if wants(m, c) {
            let p = inputs::plugin_of(m, c);
            inputs::lemma_belongs_to(m, c);
            lemma_adding_is_faithful(before.inputs, modules, c, n - 1, p);
            let list = m.contributes(c);
            assert(list == seq![p]);
            assert(list.drop_last() =~= Seq::<Plugin>::empty());
            assert(before.with_all(list.drop_last()) == before);
            assert(before.with_all(list) == before.with(p));
        } else {
            lemma_skipping_is_faithful(before.inputs, modules, c, n - 1);
        }
    }
}

proof fn lemma_outputs_are_appended(t: Telegraf, list: Seq<Plugin>)
    requires
        forall|i: int|
            0 <= i < list.len() ==> (#[trigger] list[i]).merge_key is None && list[i].section
                == Section::Output,
    ensures
        t.with_all(list).inputs == t.inputs,
        t.with_all(list).outputs == t.outputs + list,
    decreases list.len(),
{
    if list.len() == 0 {
        assert(t.outputs + list =~= t.outputs);
    } else {
        let rest = list.drop_last();
        assert forall|i: int| 0 <= i < rest.len() implies (#[trigger] rest[i]).merge_key is None
            && rest[i].section == Section::Output by {
            assert(rest[i] == list[i]);
        }
        lemma_outputs_are_appended(t, rest);
        assert(list[list.len() - 1] == list.last());
        assert(t.outputs + list =~= (t.outputs + rest).push(list.last()));
    }
}

/// What the configuration switches on is what is collected, and where it is sent:
/// every enabled module has its instance, every instance is that of an enabled
/// module, and the outputs are exactly those configured.
pub proof fn law_what_is_enabled_is_what_is_collected(c: Config, redact: bool)
    ensures
        forall|m: Module| #[trigger] wants(m, c) ==> collects(built(c, redact).inputs, m),
        forall|i: int|
            0 <= i < built(c, redact).inputs.len() ==> #[trigger] asked_for(
                built(c, redact).inputs[i],
                module_list(),
                c,
                module_list().len() as int,
            ),
        built(c, redact).outputs == outputs::contributed(c, redact),
{
    let n = module_list().len() as int;
    let base = agent::section(c);
    lemma_built_inputs_are_faithful(base, module_list(), c, n);
    let before = with_modules(base, module_list(), c, n);
    let added = outputs::contributed(c, redact);
    lemma_outputs_are_appended(before, added);
    assert(base.outputs + added =~= added);
    let list = built(c, redact).inputs;
    assert forall|m: Module| #[trigger] wants(m, c) implies collects(list, m) by {
        assert(module_list()[module_position(m)] == m);
        assert(collects(before.inputs, module_list()[module_position(m)]));
    }
}

/// Where a module stands in the list of all.
spec fn module_position(m: Module) -> int {
    match m {
        Module::Cpu => 0,
        Module::Memory => 1,
        Module::Load => 2,
        Module::System => 3,
        Module::Swap => 4,
        Module::Processes => 5,
        Module::Disks => 6,
        Module::DiskIo => 7,
        Module::Network => 8,
        Module::Docker => 9,
        Module::Updates => 10,
        Module::ImageUpdates => 11,
    }
}

/// Two InfluxDB outputs that differ in nothing but the token.
pub open spec fn alike_influxdb(a: Option<Influxdb>, b: Option<Influxdb>) -> bool {
    match (a, b) {
        (Some(x), Some(y)) => x == (Influxdb { token: x.token, ..y }),
        (None, None) => true,
        _ => false,
    }
}

/// Two Prometheus outputs that differ in nothing but the password.
pub open spec fn alike_prometheus(a: Option<Prometheus>, b: Option<Prometheus>) -> bool {
    match (a, b) {
        (Some(x), Some(y)) => {
            &&& x == (Prometheus { basic_auth: x.basic_auth, ..y })
            &&& match (x.basic_auth, y.basic_auth) {
                (Some(p), Some(q)) => p.username == q.username,
                (None, None) => true,
                _ => false,
            }
        },
        (None, None) => true,
        _ => false,
    }
}

/// Two configurations that differ in nothing but their secrets.
pub open spec fn alike(a: Config, b: Config) -> bool {
    &&& a == (Config { outputs: a.outputs, ..b })
    &&& alike_influxdb(a.outputs.influxdb, b.outputs.influxdb)
    &&& alike_prometheus(a.outputs.prometheus, b.outputs.prometheus)
}

proof fn lemma_modules_ignore_outputs(a: Config, b: Config, base: Telegraf, n: int)
    requires
        a == (Config { outputs: a.outputs, ..b }),
        0 <= n <= module_list().len(),
    ensures
        with_modules(base, module_list(), a, n) == with_modules(base, module_list(), b, n),
    decreases n,
{
    if n > 0 {
        lemma_modules_ignore_outputs(a, b, base, n - 1);
        let m = module_list()[n - 1];
        assert(m.switched_on(a) == m.switched_on(b));
        assert(m.contributes(a) == m.contributes(b));
    }
}

/// A redacted rendering does not depend on the secrets: two configurations that
/// differ in nothing else render to the same text.
pub proof fn law_a_redacted_rendering_is_free_of_secrets(a: Config, b: Config, version: Seq<char>)
    requires
        alike(a, b),
    ensures
        built(a, true) == built(b, true),
        file_text(built(a, true), version) == file_text(built(b, true), version),
{
    lemma_modules_ignore_outputs(a, b, agent::section(a), module_list().len() as int);
    assert(agent::section(a) == agent::section(b));
    assert(outputs::contributed(a, true) == outputs::contributed(b, true));
}

/// No module needs a Linux capability.
pub proof fn law_no_module_requires_a_capability(m: Module, c: Config)
    ensures
        m.needs(c).capabilities.len() == 0,
{
}

} // verus!
