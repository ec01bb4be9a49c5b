//! Reading the configuration: version, shape, overrides, rules.
//!
//! The schema version is checked before anything else. A file for another
//! version has keys that moved and keys that changed meaning; complaining about
//! those would bury the one fact worth reporting.
//!
//! Precedence is command line, environment, file, default.

use vstd::prelude::*;
use vstd::string::*;
use crate::config::host::Host;
use crate::config::model::{
    format_named, level_named, logging_at, ConfigV1, LogFormat, LogLevel, LoggingConfig,
    OutputsConfig, SCHEMA_VERSION,
};
use crate::config::schema::{
    check, count, count_of, has_unknown_key, holds_section,
    law_an_unknown_key_at_any_depth_is_an_error, mistyped, part, problem, wrong_type, Section,
};
use crate::config::validation::{
    agent_fault, agent_warnings, basic_auth_fault, docker_fault, fault_of, image_updates_fault,
    image_updates_warnings, influxdb_fault, listeners_fault, modules_fault, modules_warnings,
    outputs_fault, outputs_warnings, patterns_fault, prometheus_fault, runtime_fault, tls_fault,
    validate, warnings_of,
};
use crate::error::{Fault, MuninnError};
use crate::secret::{read_problem, FileRead};
use crate::text;
use crate::yaml::{document_node, lookup, read_yaml, yaml_document, Node, Yaml};

verus! {

/// Settings that may come from the command line or the environment, overriding
/// the file. A small, closed set: the file stays the one readable description of
/// what the agent does.
#[derive(Debug, Clone)]
pub struct Overrides {
    pub log_level: Option<String>,
    pub log_format: Option<String>,
}

impl Default for Overrides {
    fn default() -> (r: Self)
        ensures
            r.log_level is None,
            r.log_format is None,
    {
        Overrides { log_level: None, log_format: None }
    }
}

impl Overrides {
    /// Command-line values win over environment ones; an absent one changes
    /// nothing.
    pub fn merge_cli(self, log_level: Option<String>, log_format: Option<String>) -> (r: Self)
        ensures
            r.log_level == (if log_level is Some {
                log_level
            } else {
                self.log_level
            }),
            r.log_format == (if log_format is Some {
                log_format
            } else {
                self.log_format
            }),
    {
        let mut merged = self;
        if log_level.is_some() {
            merged.log_level = log_level;
        }
        if log_format.is_some() {
            merged.log_format = log_format;
        }
        merged
    }
}

// ---------------------------------------------------------------------------
// Overrides
// ---------------------------------------------------------------------------

/// The level an override asks for, in any case; `None` where it names none.
pub open spec fn wanted_level(raw: Option<String>) -> Option<LogLevel> {
    match raw {
        Some(s) => level_named(text::lowered(s@)),
        None => None,
    }
}

pub open spec fn wanted_format(raw: Option<String>) -> Option<LogFormat> {
    match raw {
        Some(s) => format_named(text::lowered(s@)),
        None => None,
    }
}

/// The logging settings after the overrides. An unusable value keeps what the
/// file says.
pub open spec fn overridden(file: LoggingConfig, o: Overrides) -> LoggingConfig {
    LoggingConfig {
        level: match wanted_level(o.log_level) {
            Some(l) => l,
            None => file.level,
        },
        format: match wanted_format(o.log_format) {
            Some(f) => f,
            None => file.format,
        },
    }
}

/// One warning for every override that was set but unusable.
pub open spec fn override_warnings(file: LoggingConfig, o: Overrides) -> Seq<Seq<char>> {
    let w = match o.log_level {
        Some(raw) => text::also(
            Seq::empty(),
            wanted_level(o.log_level) is None,
            "log level '"@ + raw@
                + "' is not one of trace/debug/info/warn/error — keeping logging.level="@
                + file.level.name(),
        ),
        None => Seq::empty(),
    };
    match o.log_format {
        Some(raw) => text::also(
            w,
            wanted_format(o.log_format) is None,
            "log format '"@ + raw@ + "' is not one of human/json — keeping logging.format="@
                + file.format.name(),
        ),
        None => w,
    }
}

/// Applies the environment and command-line layers, returning a warning for
/// every value that was set but unusable.
pub fn apply_overrides(cfg: &mut ConfigV1, overrides: &Overrides) -> (r: Vec<String>)
    ensures
        *final(cfg) == (ConfigV1 {
            logging: overridden(old(cfg).logging, *overrides),
            ..*old(cfg)
        }),
        text::texts(r@) == override_warnings(old(cfg).logging, *overrides),
{
    let mut warnings: Vec<String> = Vec::new();
    proof {
        assert(text::texts(warnings@) =~= Seq::<Seq<char>>::empty());
    }
    match &overrides.log_level {
        Some(raw) => match LogLevel::parse(&text::to_lower(raw)) {
            Some(level) => {
                cfg.logging.level = level;
            }
            None => {
                text::note(
                    &mut warnings,
                    text::cat4(
                        "log level '",
                        raw,
                        "' is not one of trace/debug/info/warn/error — keeping logging.level=",
                        cfg.logging.level.as_str(),
                    ),
                );
            }
        },
        None => {}
    }
    match &overrides.log_format {
        Some(raw) => match LogFormat::parse(&text::to_lower(raw)) {
            Some(format) => {
                cfg.logging.format = format;
            }
            None => {
                text::note(
                    &mut warnings,
                    text::cat4(
                        "log format '",
                        raw,
                        "' is not one of human/json — keeping logging.format=",
                        cfg.logging.format.as_str(),
                    ),
                );
            }
        },
        None => {}
    }
    warnings
}

// ---------------------------------------------------------------------------
// The document
// ---------------------------------------------------------------------------

/// The root of a document; an empty document has a blank one.
pub open spec fn root_of(doc: Option<Node>) -> Node {
    match doc {
        Some(n) => n,
        None => Node::Null,
    }
}

pub open spec fn missing_version() -> Fault {
    Fault::Config(
        "missing required key `version`. Add `version: 1` at the top of the file"@,
    )
}

pub open spec fn unsupported_version(v: nat) -> Fault {
    Fault::Config(
        "unsupported schema version "@ + text::decimal(v)
            + "; this build of muninn understands version 1. Either use a muninn that supports version "@
            + text::decimal(v) + ", or migrate the file — see docs/configuration.md"@,
    )
}

/// Why the version of a document rules it out, if it does. Nothing but the
/// version is looked at.
pub open spec fn version_fault(root: Node) -> Option<Fault> {
    match root {
        Node::Null => Some(missing_version()),
        Node::Table(_) => match lookup(root, "version"@) {
            None => Some(missing_version()),
            Some(Node::Null) => Some(missing_version()),
            Some(v) => match count_of(v) {
                Some(k) => if k == SCHEMA_VERSION {
                    None
                } else {
                    Some(unsupported_version(k))
                },
                None => Some(Fault::Config("invalid YAML: "@ + wrong_type(v, "version"@, "u32"@))),
            },
        },
        _ => Some(Fault::Config("invalid YAML: "@ + wrong_type(root, ""@, "a mapping"@))),
    }
}

/// Probes for `version` without looking at the rest.
pub fn check_version(root: &Yaml) -> (r: Result<(), MuninnError>)
    ensures
        match r {
            Ok(_) => version_fault(root@) is None,
            Err(e) => version_fault(root@) == Some(e@),
        },
{
    match root {
        Yaml::Null => {}
        Yaml::Table(_) => match root.get("version") {
            None => {}
            Some(Yaml::Null) => {}
            Some(v) => match count(v) {
                Some(k) => {
                    if k == SCHEMA_VERSION {
                        return Ok(());
                    }
                    let shown = text::decimal_of(k as u128);
                    return Err(
                        MuninnError::Config(
                            text::cat5(
                                "unsupported schema version ",
                                &shown,
                                "; this build of muninn understands version 1. Either use a muninn that supports version ",
                                &shown,
                                ", or migrate the file — see docs/configuration.md",
                            ),
                        ),
                    );
                }
                None => {
                    return Err(
                        MuninnError::Config(
                            text::cat2(
                                "invalid YAML: ",
                                &mistyped(v, "version", "u32"),
                            ),
                        ),
                    );
                }
            },
        },
        _ => {
            return Err(
                MuninnError::Config(
                    text::cat2(
                        "invalid YAML: ",
                        &mistyped(root, "", "a mapping"),
                    ),
                ),
            );
        }
    }
    Err(
        MuninnError::Config(
            "missing required key `version`. Add `version: 1` at the top of the file".to_owned(),
        ),
    )
}

/// Why a document is refused before its values are looked at: it is no YAML, it
/// is of another version, or it departs from the schema.
pub open spec fn document_fault(doc: Result<Option<Node>, Seq<char>>) -> Option<Fault> {
    match doc {
        Err(m) => Some(Fault::Config("invalid YAML: "@ + m)),
        Ok(d) => match version_fault(root_of(d)) {
            Some(f) => Some(f),
            None => match problem(root_of(d), Section::Root, ""@) {
                Some(p) => Some(Fault::Config("invalid configuration: "@ + p)),
                None => None,
            },
        },
    }
}

/// The configuration a parsed document holds, before overrides and rules.
pub fn parse(doc: &Result<Option<Yaml>, String>) -> (r: Result<ConfigV1, MuninnError>)
    ensures
        match r {
            Ok(cfg) => {
                &&& document_fault(parsed(*doc)) is None
                &&& parsed(*doc) matches Ok(d) && {
                    let root = root_of(d);
                    cfg.reads_with(root, logging_at(part(root, "logging"@)))
                }
            },
            Err(e) => document_fault(parsed(*doc)) == Some(e@),
        },
{
    let blank = Yaml::Null;
    let root = match doc {
        Err(m) => {
            return Err(MuninnError::Config(text::cat2("invalid YAML: ", m)));
        }
        Ok(d) => match d {
            Some(y) => y,
            None => &blank,
        },
    };
    if let Err(e) = check_version(root) {
        return Err(e);
    }
    match check(root, Section::Root, "") {
        Some(p) => {
            return Err(MuninnError::Config(text::cat2("invalid configuration: ", &p)));
        }
        None => {}
    }
    Ok(ConfigV1::decode(root))
}

/// What a parse gave, as mathematical data.
pub open spec fn parsed(doc: Result<Option<Yaml>, String>) -> Result<Option<Node>, Seq<char>> {
    match doc {
        Ok(d) => Ok(document_node(d)),
        Err(m) => Err(m@),
    }
}

/// Whether `r` is what loading a document gives: the first fault of the document,
/// or the configuration it reads as, with the overrides applied, judged by the
/// rules.
pub open spec fn loads(
    doc: Result<Option<Node>, Seq<char>>,
    o: Overrides,
    host: Host,
    r: Result<(ConfigV1, Vec<String>), MuninnError>,
) -> bool {
    match document_fault(doc) {
        Some(f) => r matches Err(e) && e@ == f,
        None => doc matches Ok(d) && {
            let root = root_of(d);
            let file = logging_at(part(root, "logging"@));
            match r {
                Ok((cfg, w)) => {
                    &&& cfg.reads_with(root, overridden(file, o))
                    &&& fault_of(cfg, host) is None
                    &&& text::texts(w@) == override_warnings(file, o) + warnings_of(cfg)
                },
                Err(e) => exists|cfg: ConfigV1| #[trigger]
                    cfg.reads_with(root, overridden(file, o)) && fault_of(cfg, host) == Some(e@),
            }
        },
    }
}

/// Loads a parsed document: version, shape, overrides, rules.
pub fn from_document(
    doc: &Result<Option<Yaml>, String>,
    overrides: &Overrides,
    host: &Host,
) -> (r: Result<(ConfigV1, Vec<String>), MuninnError>)
    ensures
        loads(parsed(*doc), *overrides, *host, r),
{
    let mut cfg = match parse(doc) {
        Ok(cfg) => cfg,
        Err(e) => return Err(e),
    };
    let mut warnings = apply_overrides(&mut cfg, overrides);
    proof {
        let root = root_of(parsed(*doc)->Ok_0);
        let file = logging_at(part(root, "logging"@));
        assert(cfg.reads_with(root, overridden(file, *overrides)));
    }
    match validate(&cfg, host) {
        Ok(more) => {
            text::note_all(&mut warnings, more);
            Ok((cfg, warnings))
        }
        Err(e) => Err(e),
    }
}

/// The configuration a text holds, before overrides and rules.
pub fn parse_str(text: &str) -> (r: Result<ConfigV1, MuninnError>)
    ensures
        match r {
            Ok(cfg) => {
                &&& document_fault(yaml_document(text@)) is None
                &&& yaml_document(text@) matches Ok(d) && cfg.reads_with(
                    root_of(d),
                    logging_at(part(root_of(d), "logging"@)),
                )
            },
            Err(e) => document_fault(yaml_document(text@)) == Some(e@),
        },
{
    parse(&read_yaml(text))
}

/// Loads a configuration from its text. Returns the configuration and any
/// warnings, which the caller emits once logging is up.
///
/// A plain scalar that YAML takes for a number, a flag or nothing is read as the
/// value it is, in its canonical spelling, also behind a key that takes text. A
/// caller that reads each value in the type its key calls for hands the document to
/// [`from_document`].
pub fn from_str(text: &str, overrides: &Overrides, host: &Host) -> (r: Result<
    (ConfigV1, Vec<String>),
    MuninnError,
>)
    ensures
        loads(yaml_document(text@), *overrides, *host, r),
{
    from_document(&read_yaml(text), overrides, host)
}

/// Loads a configuration from the file at `path`, given what reading it gave.
pub fn load(path: &str, read: &FileRead, overrides: &Overrides, host: &Host) -> (r: Result<
    (ConfigV1, Vec<String>),
    MuninnError,
>)
    ensures
        match *read {
            FileRead::Text(t) => loads(yaml_document(t@), *overrides, *host, r),
            _ => r matches Err(e) && e@ == Fault::Config(
                "cannot read '"@ + path@ + "': "@ + read_problem(*read),
            ),
        },
{
    match read {
        FileRead::Text(t) => from_str(t, overrides, host),
        _ => Err(
            MuninnError::Config(text::cat4("cannot read '", path, "': ", &read.problem())),
        ),
    }
}

/// The files and addresses a configuration refers to: what a caller gathers
/// before validating it.
pub struct References {
    pub files: Vec<String>,
    pub addresses: Vec<String>,
}

/// `list` with `item` appended where there is one.
pub open spec fn also_optional(list: Seq<Seq<char>>, item: Option<String>) -> Seq<Seq<char>> {
    match item {
        Some(s) => list.push(s@),
        None => list,
    }
}

fn note_optional(list: &mut Vec<String>, item: &Option<String>)
    ensures
        text::texts(final(list)@) == also_optional(text::texts(old(list)@), *item),
{
    match item {
        Some(s) => text::note(list, s.clone()),
        None => {}
    }
}

/// The files the enabled outputs refer to. Those of a disabled output are not
/// looked at.
pub open spec fn referenced_files(outputs: OutputsConfig) -> Seq<Seq<char>> {
    let none = Seq::<Seq<char>>::empty();
    let f = if outputs.influxdb.enabled {
        let f = none.push(outputs.influxdb.token_file@);
        let f = also_optional(f, outputs.influxdb.tls.ca_file);
        let f = also_optional(f, outputs.influxdb.tls.cert_file);
        also_optional(f, outputs.influxdb.tls.key_file)
    } else {
        none
    };
    if outputs.prometheus.enabled {
        also_optional(f, outputs.prometheus.basic_auth.password_file)
    } else {
        f
    }
}

/// The files and addresses validation asks about.
pub fn references(cfg: &ConfigV1) -> (r: References)
    ensures
        text::texts(r.files@) == referenced_files(cfg.outputs),
        text::texts(r.addresses@) == seq![cfg.health.listen@, cfg.outputs.prometheus.listen@],
{
    let mut files: Vec<String> = Vec::new();
    let mut addresses: Vec<String> = Vec::new();
    proof {
        assert(text::texts(files@) =~= Seq::<Seq<char>>::empty());
        assert(text::texts(addresses@) =~= Seq::<Seq<char>>::empty());
    }
    if cfg.outputs.influxdb.enabled {
        text::note(&mut files, cfg.outputs.influxdb.token_file.clone());
        note_optional(&mut files, &cfg.outputs.influxdb.tls.ca_file);
        note_optional(&mut files, &cfg.outputs.influxdb.tls.cert_file);
        note_optional(&mut files, &cfg.outputs.influxdb.tls.key_file);
    }
    if cfg.outputs.prometheus.enabled {
        note_optional(&mut files, &cfg.outputs.prometheus.basic_auth.password_file);
    }
    text::note(&mut addresses, cfg.health.listen.clone());
    text::note(&mut addresses, cfg.outputs.prometheus.listen.clone());
    References { files, addresses }
}

// ---------------------------------------------------------------------------
// What loading guarantees
// ---------------------------------------------------------------------------

/// Validation asks about nothing but what a configuration refers to: two hosts that
/// agree on those files and addresses get it the same verdict.
pub proof fn law_only_what_is_referenced_matters(cfg: ConfigV1, a: Host, b: Host)
    requires
        forall|f: Seq<char>| #[trigger]
            referenced_files(cfg.outputs).contains(f) ==> a.read(f) == b.read(f) && a.holds(f)
                == b.holds(f),
        a.address(cfg.health.listen@) == b.address(cfg.health.listen@),
        a.address(cfg.outputs.prometheus.listen@) == b.address(cfg.outputs.prometheus.listen@),
    ensures
        fault_of(cfg, a) == fault_of(cfg, b),
{
    let (influx, prom) = (cfg.outputs.influxdb, cfg.outputs.prometheus);
    let none = Seq::<Seq<char>>::empty();
    let f0 = none.push(influx.token_file@);
    let f1 = also_optional(f0, influx.tls.ca_file);
    let f2 = also_optional(f1, influx.tls.cert_file);
    let f3 = also_optional(f2, influx.tls.key_file);
    let all = referenced_files(cfg.outputs);
    if influx.enabled {
        assert(f3.is_prefix_of(all));
        assert(f2.is_prefix_of(f3));
        assert(f1.is_prefix_of(f2));
        assert(f0.is_prefix_of(f1));
        assert(all[0] == influx.token_file@);
        assert(all.contains(influx.token_file@));
        if let Some(f) = influx.tls.ca_file {
            assert(all[f0.len() as int] == f@);
            assert(all.contains(f@));
        }
        if let Some(f) = influx.tls.cert_file {
            assert(all[f1.len() as int] == f@);
            assert(all.contains(f@));
        }
        if let Some(f) = influx.tls.key_file {
            assert(all[f2.len() as int] == f@);
            assert(all.contains(f@));
        }
        assert(tls_fault(influx.tls, "outputs.influxdb.tls"@, a) == tls_fault(
            influx.tls,
            "outputs.influxdb.tls"@,
            b,
        ));
        assert(influxdb_fault(influx, a) == influxdb_fault(influx, b));
    }
    if prom.enabled {
        if let Some(f) = prom.basic_auth.password_file {
            assert(all.last() == f@);
            assert(all.contains(f@));
        }
        assert(basic_auth_fault(prom, a) == basic_auth_fault(prom, b));
        assert(prometheus_fault(prom, a) == prometheus_fault(prom, b));
    }
    assert(outputs_fault(cfg, a) == outputs_fault(cfg, b));
    assert(listeners_fault(cfg, a) == listeners_fault(cfg, b));
}

/// A document of another version is refused for its version and nothing else,
/// whatever other keys it holds.
pub proof fn law_an_unknown_version_is_reported_alone(entries: Seq<(Node, Node)>, v: nat)
    requires
        lookup(Node::Table(entries), "version"@) matches Some(n) && count_of(n) == Some(v),
        v != SCHEMA_VERSION,
    ensures
        document_fault(Ok(Some(Node::Table(entries)))) == Some(unsupported_version(v)),
{
}

/// A document with a key the schema does not know is refused, at whatever depth the
/// key stands.
pub proof fn law_an_unknown_key_fails_the_load(root: Node, m: Node, t: Section)
    requires
        holds_section(root, Section::Root, m, t),
        has_unknown_key(m, t),
    ensures
        document_fault(Ok(Some(root))) is Some,
{
    law_an_unknown_key_at_any_depth_is_an_error(root, Section::Root, ""@, m, t);
}

/// A usable value on the command line wins over the environment and the file; where
/// there is none on the command line, a usable one in the environment wins over the
/// file; and with neither, the file stands.
pub proof fn law_the_command_line_beats_the_environment_beats_the_file(
    file: LoggingConfig,
    env: Overrides,
    merged: Overrides,
    cli: Option<String>,
)
    requires
        merged.log_level == (if cli is Some {
            cli
        } else {
            env.log_level
        }),
    ensures
        wanted_level(cli) matches Some(l) ==> overridden(file, merged).level == l,
        cli is None && wanted_level(env.log_level) is Some ==> Some(
            overridden(file, merged).level,
        ) == wanted_level(env.log_level),
        cli is None && env.log_level is None ==> overridden(file, merged).level == file.level,
{
}

/// An override that names no setting changes nothing but adds its warning.
pub proof fn law_an_invalid_override_keeps_the_file_value(file: LoggingConfig, o: Overrides)
    requires
        o.log_level is Some,
        o.log_format is Some,
        wanted_level(o.log_level) is None,
        wanted_format(o.log_format) is None,
    ensures
        overridden(file, o) == file,
        override_warnings(file, o).len() == 2,
{
}

proof fn lemma_same_texts_same_length(a: Vec<String>, b: Vec<String>)
    requires
        text::texts(a@) == text::texts(b@),
    ensures
        a@.len() == b@.len(),
{
    assert(text::texts(a@).len() == a@.len());
    assert(text::texts(b@).len() == b@.len());
}

proof fn lemma_modules_decide(a: ConfigV1, b: ConfigV1, n: Node)
    requires
        a.modules.reads(n),
        b.modules.reads(n),
        a.runtime.host_mount_prefix@ == b.runtime.host_mount_prefix@,
    ensures
        modules_fault(a) == modules_fault(b),
        forall|w: Seq<Seq<char>>| #[trigger] modules_warnings(a, w) == modules_warnings(b, w),
{
    let (m, k) = (a.modules, b.modules);
    lemma_same_texts_same_length(m.disks.include_mountpoints, k.disks.include_mountpoints);
    lemma_same_texts_same_length(m.disks.exclude_mountpoints, k.disks.exclude_mountpoints);
    lemma_same_texts_same_length(m.disk_io.include_devices, k.disk_io.include_devices);
    lemma_same_texts_same_length(m.disk_io.exclude_devices, k.disk_io.exclude_devices);
    lemma_same_texts_same_length(m.network.include_interfaces, k.network.include_interfaces);
    lemma_same_texts_same_length(m.network.exclude_interfaces, k.network.exclude_interfaces);
    lemma_same_texts_same_length(m.docker.container_states, k.docker.container_states);
    assert(patterns_fault(a) == patterns_fault(b));
    assert(docker_fault(m.docker) == docker_fault(k.docker));
    assert(image_updates_fault(m.image_updates) == image_updates_fault(k.image_updates));
    assert(m.collects() == k.collects() && m.reads_host() == k.reads_host());
    assert(m.updates.enabled == k.updates.enabled && m.updates.interval == k.updates.interval);
    assert forall|w: Seq<Seq<char>>| #[trigger]
        modules_warnings(a, w) == modules_warnings(b, w) by {
        assert forall|v: Seq<Seq<char>>|
            image_updates_warnings(m.image_updates, v) == image_updates_warnings(
                k.image_updates,
                v,
            ) by {}
    }
}

proof fn lemma_outputs_decide(a: ConfigV1, b: ConfigV1, n: Node, host: Host)
    requires
        a.outputs.reads(n),
        b.outputs.reads(n),
        a.agent.interval == b.agent.interval,
    ensures
        outputs_fault(a, host) == outputs_fault(b, host),
        forall|w: Seq<Seq<char>>| #[trigger] outputs_warnings(a, w) == outputs_warnings(b, w),
{
    let (x, y) = (a.outputs, b.outputs);
    assert(tls_fault(x.influxdb.tls, "outputs.influxdb.tls"@, host) == tls_fault(
        y.influxdb.tls,
        "outputs.influxdb.tls"@,
        host,
    ));
    assert(influxdb_fault(x.influxdb, host) == influxdb_fault(y.influxdb, host));
    assert(basic_auth_fault(x.prometheus, host) == basic_auth_fault(y.prometheus, host));
    assert(prometheus_fault(x.prometheus, host) == prometheus_fault(y.prometheus, host));
}

/// What a document says decides the verdict and the warnings: two configurations
/// that read it fare alike.
pub proof fn law_the_document_decides(
    a: ConfigV1,
    b: ConfigV1,
    root: Node,
    logging: LoggingConfig,
    host: Host,
)
    requires
        a.reads_with(root, logging),
        b.reads_with(root, logging),
    ensures
        fault_of(a, host) == fault_of(b, host),
        warnings_of(a) == warnings_of(b),
{
    lemma_modules_decide(a, b, part(root, "modules"@));
    lemma_outputs_decide(a, b, part(root, "outputs"@), host);
    assert(agent_fault(a) == agent_fault(b));
    assert(runtime_fault(a) == runtime_fault(b));
    assert(listeners_fault(a, host) == listeners_fault(b, host));
    assert(agent_warnings(a, Seq::empty()) == agent_warnings(b, Seq::empty()));
}

} // verus!
