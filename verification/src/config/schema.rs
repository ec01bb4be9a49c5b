//! The documented shape of the configuration file, and what is wrong with a
//! document that departs from it.
//!
//! A key the schema does not know is a problem, never ignored: a misspelled
//! exclusion that is silently dropped leaves an operator believing it is in
//! effect.

use vstd::prelude::*;
use vstd::string::*;
use crate::duration::{span_of, ConfigDuration};
use crate::text;
use crate::yaml::{lookup, scalar_text, Node, Yaml};

verus! {

/// A mapping of the configuration file.
#[derive(Debug, Clone, Copy, PartialEq, Eq, Structural)]
pub enum Section {
    Root,
    Agent,
    Runtime,
    Logging,
    Health,
    Modules,
    Simple,
    Disks,
    DiskIo,
    Network,
    Docker,
    Updates,
    ImageUpdates,
    RegistryAuth,
    Outputs,
    Influxdb,
    Tls,
    Prometheus,
    PrometheusTls,
    BasicAuth,
}

/// What stands behind a key.
#[derive(Debug, Clone, Copy, PartialEq, Eq, Structural)]
pub enum Shape {
    Flag,
    Count,
    Word,
    MaybeWord,
    Words,
    Span,
    Level,
    Format,
    Part(Section),
    Parts(Section),
}

/// One key of a section.
pub struct Field {
    pub name: &'static str,
    pub shape: Shape,
    pub required: bool,
}

/// One key of a section, as mathematical text.
pub struct Key {
    pub name: Seq<char>,
    pub shape: Shape,
    pub required: bool,
}

impl View for Field {
    type V = Key;

    open spec fn view(&self) -> Key {
        Key { name: self.name@, shape: self.shape, required: self.required }
    }
}

/// How deep sections nest below this one.
pub open spec fn depth(s: Section) -> nat {
    match s {
        Section::Root => 4,
        Section::Modules | Section::Outputs => 3,
        Section::ImageUpdates | Section::Influxdb | Section::Prometheus => 2,
        _ => 1,
    }
}

fn depth_of(s: Section) -> (r: u8)
    ensures
        r == depth(s),
{
    match s {
        Section::Root => 4,
        Section::Modules | Section::Outputs => 3,
        Section::ImageUpdates | Section::Influxdb | Section::Prometheus => 2,
        _ => 1,
    }
}

pub open spec fn key(name: Seq<char>, shape: Shape) -> Key {
    Key { name, shape, required: false }
}

pub open spec fn required_key(name: Seq<char>, shape: Shape) -> Key {
    Key { name, shape, required: true }
}

/// The keys a section knows.
pub open spec fn keys(s: Section) -> Seq<Key> {
    match s {
        Section::Root => seq![
            required_key("version"@, Shape::Count),
            key("agent"@, Shape::Part(Section::Agent)),
            key("runtime"@, Shape::Part(Section::Runtime)),
            key("logging"@, Shape::Part(Section::Logging)),
            key("health"@, Shape::Part(Section::Health)),
            key("modules"@, Shape::Part(Section::Modules)),
            key("outputs"@, Shape::Part(Section::Outputs)),
        ],
        Section::Agent => seq![
            key("interval"@, Shape::Span),
            key("flush_interval"@, Shape::Span),
            key("hostname"@, Shape::Word),
            key("omit_hostname"@, Shape::Flag),
        ],
        Section::Runtime => seq![
            key("shutdown_grace_period"@, Shape::Span),
            key("telegraf_start_timeout"@, Shape::Span),
            key("generated_config_path"@, Shape::Word),
            key("host_mount_prefix"@, Shape::Word),
        ],
        Section::Logging => seq![key("format"@, Shape::Format), key("level"@, Shape::Level)],
        Section::Health => seq![key("listen"@, Shape::Word)],
        Section::Modules => seq![
            key("cpu"@, Shape::Part(Section::Simple)),
            key("memory"@, Shape::Part(Section::Simple)),
            key("load"@, Shape::Part(Section::Simple)),
            key("system"@, Shape::Part(Section::Simple)),
            key("swap"@, Shape::Part(Section::Simple)),
            key("processes"@, Shape::Part(Section::Simple)),
            key("disks"@, Shape::Part(Section::Disks)),
            key("disk_io"@, Shape::Part(Section::DiskIo)),
            key("network"@, Shape::Part(Section::Network)),
            key("docker"@, Shape::Part(Section::Docker)),
            key("updates"@, Shape::Part(Section::Updates)),
            key("image_updates"@, Shape::Part(Section::ImageUpdates)),
        ],
        Section::Simple => seq![key("enabled"@, Shape::Flag)],
        Section::Disks => seq![
            key("enabled"@, Shape::Flag),
            key("exclude_filesystems"@, Shape::Words),
            key("exclude_mountpoints"@, Shape::Words),
            key("include_mountpoints"@, Shape::Words),
        ],
        Section::DiskIo => seq![
            key("enabled"@, Shape::Flag),
            key("include_devices"@, Shape::Words),
            key("exclude_devices"@, Shape::Words),
        ],
        Section::Network => seq![
            key("enabled"@, Shape::Flag),
            key("include_interfaces"@, Shape::Words),
            key("exclude_interfaces"@, Shape::Words),
        ],
        Section::Docker => seq![
            key("enabled"@, Shape::Flag),
            key("endpoint"@, Shape::Word),
            key("container_include"@, Shape::Words),
            key("container_exclude"@, Shape::Words),
            key("timeout"@, Shape::Span),
            key("container_states"@, Shape::Words),
        ],
        Section::Updates => seq![
            key("enabled"@, Shape::Flag),
            key("interval"@, Shape::Span),
            key("security_only_metric"@, Shape::Flag),
        ],
        Section::ImageUpdates => seq![
            key("enabled"@, Shape::Flag),
            key("endpoint"@, Shape::Word),
            key("timeout"@, Shape::Span),
            key("registry_timeout"@, Shape::Span),
            key("interval"@, Shape::Span),
            key("container_include"@, Shape::Words),
            key("container_exclude"@, Shape::Words),
            key("registry_auth"@, Shape::Parts(Section::RegistryAuth)),
        ],
        Section::RegistryAuth => seq![
            required_key("registry"@, Shape::Word),
            required_key("username"@, Shape::Word),
            required_key("password_file"@, Shape::Word),
        ],
        Section::Outputs => seq![
            key("influxdb"@, Shape::Part(Section::Influxdb)),
            key("prometheus"@, Shape::Part(Section::Prometheus)),
        ],
        Section::Influxdb => seq![
            key("enabled"@, Shape::Flag),
            key("url"@, Shape::Word),
            key("organization"@, Shape::Word),
            key("bucket"@, Shape::Word),
            key("token_file"@, Shape::Word),
            key("timeout"@, Shape::Span),
            key("tls"@, Shape::Part(Section::Tls)),
        ],
        Section::Tls => seq![
            key("ca_file"@, Shape::MaybeWord),
            key("cert_file"@, Shape::MaybeWord),
            key("key_file"@, Shape::MaybeWord),
            key("insecure_skip_verify"@, Shape::Flag),
        ],
        Section::Prometheus => seq![
            key("enabled"@, Shape::Flag),
            key("listen"@, Shape::Word),
            key("path"@, Shape::Word),
            key("expiration_interval"@, Shape::Span),
            key("basic_auth"@, Shape::Part(Section::BasicAuth)),
            key("tls"@, Shape::Part(Section::PrometheusTls)),
        ],
        Section::PrometheusTls => seq![
            key("cert_file"@, Shape::MaybeWord),
            key("key_file"@, Shape::MaybeWord),
            key("client_ca_file"@, Shape::MaybeWord),
        ],
        Section::BasicAuth => seq![
            key("username"@, Shape::MaybeWord),
            key("password_file"@, Shape::MaybeWord),
        ],
    }
}

/// The keys in a list of fields.
pub open spec fn keys_in(fields: Seq<Field>) -> Seq<Key> {
    fields.map_values(|f: Field| f@)
}

fn opt(fields: &mut Vec<Field>, name: &'static str, shape: Shape)
    ensures
        keys_in(final(fields)@) == keys_in(old(fields)@).push(key(name@, shape)),
{
    fields.push(Field { name, shape, required: false });
    proof {
        assert(keys_in(fields@) =~= keys_in(old(fields)@).push(key(name@, shape)));
    }
}

fn req(fields: &mut Vec<Field>, name: &'static str, shape: Shape)
    ensures
        keys_in(final(fields)@) == keys_in(old(fields)@).push(required_key(name@, shape)),
{
    fields.push(Field { name, shape, required: true });
    proof {
        assert(keys_in(fields@) =~= keys_in(old(fields)@).push(required_key(name@, shape)));
    }
}

/// The keys a section knows.
pub fn fields(s: Section) -> (r: Vec<Field>)
    ensures
        keys_in(r@) == keys(s),
{
    let mut f: Vec<Field> = Vec::new();
    proof {
        assert(keys_in(f@) =~= Seq::<Key>::empty());
    }
    match s {
        Section::Root => {
            req(&mut f, "version", Shape::Count);
            opt(&mut f, "agent", Shape::Part(Section::Agent));
            opt(&mut f, "runtime", Shape::Part(Section::Runtime));
            opt(&mut f, "logging", Shape::Part(Section::Logging));
            opt(&mut f, "health", Shape::Part(Section::Health));
            opt(&mut f, "modules", Shape::Part(Section::Modules));
            opt(&mut f, "outputs", Shape::Part(Section::Outputs));
        }
        Section::Agent => {
            opt(&mut f, "interval", Shape::Span);
            opt(&mut f, "flush_interval", Shape::Span);
            opt(&mut f, "hostname", Shape::Word);
            opt(&mut f, "omit_hostname", Shape::Flag);
        }
        Section::Runtime => {
            opt(&mut f, "shutdown_grace_period", Shape::Span);
            opt(&mut f, "telegraf_start_timeout", Shape::Span);
            opt(&mut f, "generated_config_path", Shape::Word);
            opt(&mut f, "host_mount_prefix", Shape::Word);
        }
        Section::Logging => {
            opt(&mut f, "format", Shape::Format);
            opt(&mut f, "level", Shape::Level);
        }
        Section::Health => {
            opt(&mut f, "listen", Shape::Word);
        }
        Section::Modules => {
            opt(&mut f, "cpu", Shape::Part(Section::Simple));
            opt(&mut f, "memory", Shape::Part(Section::Simple));
            opt(&mut f, "load", Shape::Part(Section::Simple));
            opt(&mut f, "system", Shape::Part(Section::Simple));
            opt(&mut f, "swap", Shape::Part(Section::Simple));
            opt(&mut f, "processes", Shape::Part(Section::Simple));
            opt(&mut f, "disks", Shape::Part(Section::Disks));
            opt(&mut f, "disk_io", Shape::Part(Section::DiskIo));
            opt(&mut f, "network", Shape::Part(Section::Network));
            opt(&mut f, "docker", Shape::Part(Section::Docker));
            opt(&mut f, "updates", Shape::Part(Section::Updates));
            opt(&mut f, "image_updates", Shape::Part(Section::ImageUpdates));
        }
        Section::Simple => {
            opt(&mut f, "enabled", Shape::Flag);
        }
        Section::Disks => {
            opt(&mut f, "enabled", Shape::Flag);
            opt(&mut f, "exclude_filesystems", Shape::Words);
            opt(&mut f, "exclude_mountpoints", Shape::Words);
            opt(&mut f, "include_mountpoints", Shape::Words);
        }
        Section::DiskIo => {
            opt(&mut f, "enabled", Shape::Flag);
            opt(&mut f, "include_devices", Shape::Words);
            opt(&mut f, "exclude_devices", Shape::Words);
        }
        Section::Network => {
            opt(&mut f, "enabled", Shape::Flag);
            opt(&mut f, "include_interfaces", Shape::Words);
            opt(&mut f, "exclude_interfaces", Shape::Words);
        }
        Section::Docker => {
            opt(&mut f, "enabled", Shape::Flag);
            opt(&mut f, "endpoint", Shape::Word);
            opt(&mut f, "container_include", Shape::Words);
            opt(&mut f, "container_exclude", Shape::Words);
            opt(&mut f, "timeout", Shape::Span);
            opt(&mut f, "container_states", Shape::Words);
        }
        Section::Updates => {
            opt(&mut f, "enabled", Shape::Flag);
            opt(&mut f, "interval", Shape::Span);
            opt(&mut f, "security_only_metric", Shape::Flag);
        }
        Section::ImageUpdates => {
            opt(&mut f, "enabled", Shape::Flag);
            opt(&mut f, "endpoint", Shape::Word);
            opt(&mut f, "timeout", Shape::Span);
            opt(&mut f, "registry_timeout", Shape::Span);
            opt(&mut f, "interval", Shape::Span);
            opt(&mut f, "container_include", Shape::Words);
            opt(&mut f, "container_exclude", Shape::Words);
            opt(&mut f, "registry_auth", Shape::Parts(Section::RegistryAuth));
        }
        Section::RegistryAuth => {
            req(&mut f, "registry", Shape::Word);
            req(&mut f, "username", Shape::Word);
            req(&mut f, "password_file", Shape::Word);
        }
        Section::Outputs => {
            opt(&mut f, "influxdb", Shape::Part(Section::Influxdb));
            opt(&mut f, "prometheus", Shape::Part(Section::Prometheus));
        }
        Section::Influxdb => {
            opt(&mut f, "enabled", Shape::Flag);
            opt(&mut f, "url", Shape::Word);
            opt(&mut f, "organization", Shape::Word);
            opt(&mut f, "bucket", Shape::Word);
            opt(&mut f, "token_file", Shape::Word);
            opt(&mut f, "timeout", Shape::Span);
            opt(&mut f, "tls", Shape::Part(Section::Tls));
        }
        Section::Tls => {
            opt(&mut f, "ca_file", Shape::MaybeWord);
            opt(&mut f, "cert_file", Shape::MaybeWord);
            opt(&mut f, "key_file", Shape::MaybeWord);
            opt(&mut f, "insecure_skip_verify", Shape::Flag);
        }
        Section::Prometheus => {
            opt(&mut f, "enabled", Shape::Flag);
            opt(&mut f, "listen", Shape::Word);
            opt(&mut f, "path", Shape::Word);
            opt(&mut f, "expiration_interval", Shape::Span);
            opt(&mut f, "basic_auth", Shape::Part(Section::BasicAuth));
            opt(&mut f, "tls", Shape::Part(Section::PrometheusTls));
        }
        Section::PrometheusTls => {
            opt(&mut f, "cert_file", Shape::MaybeWord);
            opt(&mut f, "key_file", Shape::MaybeWord);
            opt(&mut f, "client_ca_file", Shape::MaybeWord);
        }
        Section::BasicAuth => {
            opt(&mut f, "username", Shape::MaybeWord);
            opt(&mut f, "password_file", Shape::MaybeWord);
        }
    }
    f
}

// ---------------------------------------------------------------------------
// Looking a key up
// ---------------------------------------------------------------------------

/// The first of `known` from `i` on that is called `name`.
pub open spec fn find_field(known: Seq<Key>, name: Seq<char>, i: int) -> Option<Key>
    decreases known.len() - i,
{
    if i < 0 || i >= known.len() {
        None
    } else if known[i].name == name {
        Some(known[i])
    } else {
        find_field(known, name, i + 1)
    }
}

fn field_named(known: &Vec<Field>, name: &str) -> (r: Option<Shape>)
    ensures
        match r {
            Some(shape) => find_field(keys_in(known@), name@, 0) matches Some(k) && k.shape
                == shape,
            None => find_field(keys_in(known@), name@, 0) is None,
        },
{
    let ghost all = keys_in(known@);
    let mut i: usize = 0;
    while i < known.len()
        invariant
            i <= known.len(),
            all == keys_in(known@),
            find_field(all, name@, 0) == find_field(all, name@, i as int),
        decreases known.len() - i,
    {
        proof {
            assert(all[i as int] == known@[i as int]@);
        }
        if text::same(known[i].name, name) {
            return Some(known[i].shape);
        }
        i += 1;
    }
    None
}

/// Whether one of the first `n` entries has the key `name`.
pub open spec fn has_key(entries: Seq<(Node, Node)>, name: Seq<char>, n: int) -> bool {
    exists|j: int|
        0 <= j < n && j < entries.len() && scalar_text(#[trigger] entries[j].0) == Some(name)
}

fn key_before(entries: &Vec<(Yaml, Yaml)>, name: &str, n: usize) -> (r: bool)
    requires
        n <= entries.len(),
    ensures
        r == has_key(Yaml::Table(*entries)@->Table_0, name@, n as int),
{
    let ghost nodes = Yaml::Table(*entries)@->Table_0;
    let mut j: usize = 0;
    while j < n
        invariant
            j <= n <= entries.len(),
            nodes == Yaml::Table(*entries)@->Table_0,
            nodes.len() == entries.len(),
            forall|k: int|
                0 <= k < entries.len() ==> #[trigger] nodes[k] == (entries@[k].0@, entries@[k].1@),
            forall|k: int| 0 <= k < j ==> scalar_text(#[trigger] nodes[k].0) != Some(name@),
        decreases n - j,
    {
        proof {
            assert(nodes[j as int] == (entries@[j as int].0@, entries@[j as int].1@));
        }
        match entries[j].0.scalar() {
            Some(k) => {
                if text::same(&k, name) {
                    proof {
                        assert(scalar_text(nodes[j as int].0) == Some(name@));
                    }
                    return true;
                }
            }
            None => {}
        }
        j += 1;
    }
    false
}

// ---------------------------------------------------------------------------
// What is wrong with a document
// ---------------------------------------------------------------------------

/// A message, behind the path it is about.
pub open spec fn located(path: Seq<char>, message: Seq<char>) -> Seq<char> {
    if path.len() == 0 {
        message
    } else {
        path + ": "@ + message
    }
}

/// The path of `name` below `path`.
pub open spec fn below(path: Seq<char>, name: Seq<char>) -> Seq<char> {
    if path.len() == 0 {
        name
    } else {
        path + "."@ + name
    }
}

/// The path of the item at `i` below `path`.
pub open spec fn item_path(path: Seq<char>, i: int) -> Seq<char> {
    path + "["@ + text::decimal(i as nat) + "]"@
}

/// What a node is, in words.
pub open spec fn described(n: Node) -> Seq<char> {
    match n {
        Node::Null => "unit value"@,
        Node::Bool(b) => if b {
            "boolean `true`"@
        } else {
            "boolean `false`"@
        },
        Node::Number(s) => "number `"@ + s + "`"@,
        Node::Text(s) => "string \""@ + s + "\""@,
        Node::List(_) => "sequence"@,
        Node::Table(_) => "map"@,
    }
}

/// The message for a value of the wrong kind.
pub open spec fn wrong_type(n: Node, path: Seq<char>, expected: Seq<char>) -> Seq<char> {
    located(path, "invalid type: "@ + described(n) + ", expected "@ + expected)
}

/// The names of the first `n` keys, each in backquotes, with commas between.
pub open spec fn quoted_names(known: Seq<Key>, n: int) -> Seq<char>
    decreases n,
{
    if n <= 0 {
        Seq::empty()
    } else if n == 1 {
        "`"@ + known[0].name + "`"@
    } else {
        quoted_names(known, n - 1) + ", `"@ + known[n - 1].name + "`"@
    }
}

/// The message for a key the section does not know.
pub open spec fn unknown_key(s: Section, path: Seq<char>, name: Seq<char>) -> Seq<char> {
    located(
        path,
        "unknown field `"@ + name + "`, expected one of "@ + quoted_names(
            keys(s),
            keys(s).len() as int,
        ),
    )
}

pub open spec fn log_levels() -> Seq<Seq<char>> {
    seq!["trace"@, "debug"@, "info"@, "warn"@, "error"@]
}

pub open spec fn log_formats() -> Seq<Seq<char>> {
    seq!["human"@, "json"@]
}

/// What is wrong with the item of a list of words at `i` or behind it.
pub open spec fn words_problem(items: Seq<Node>, path: Seq<char>, i: int) -> Option<Seq<char>>
    decreases items.len() - i,
{
    if i < 0 || i >= items.len() {
        None
    } else if scalar_text(items[i]) is None {
        Some(wrong_type(items[i], item_path(path, i), "a string"@))
    } else {
        words_problem(items, path, i + 1)
    }
}

/// What is wrong with a value that holds no section.
pub open spec fn leaf_problem(n: Node, shape: Shape, path: Seq<char>) -> Option<Seq<char>> {
    match shape {
        Shape::Flag => if n is Bool {
            None
        } else {
            Some(wrong_type(n, path, "a boolean"@))
        },
        Shape::Count => if count_of(n) is Some {
            None
        } else {
            Some(wrong_type(n, path, "u32"@))
        },
        Shape::Word | Shape::MaybeWord => if scalar_text(n) is Some {
            None
        } else {
            Some(wrong_type(n, path, "a string"@))
        },
        Shape::Words => match n {
            Node::Null => None,
            Node::List(items) => words_problem(items, path, 0),
            _ => Some(wrong_type(n, path, "a sequence"@)),
        },
        Shape::Span => match scalar_text(n) {
            Some(t) => if span_of(t) is Some {
                None
            } else {
                Some(located(path, "invalid value: string \""@ + t + "\", expected a duration"@))
            },
            None => Some(wrong_type(n, path, "a duration"@)),
        },
        Shape::Level => match scalar_text(n) {
            Some(t) => if log_levels().contains(t) {
                None
            } else {
                Some(
                    located(
                        path,
                        "unknown variant `"@ + t
                            + "`, expected one of `trace`, `debug`, `info`, `warn`, `error`"@,
                    ),
                )
            },
            None => Some(wrong_type(n, path, "a log level"@)),
        },
        Shape::Format => match scalar_text(n) {
            Some(t) => if log_formats().contains(t) {
                None
            } else {
                Some(
                    located(
                        path,
                        "unknown variant `"@ + t + "`, expected `human` or `json`"@,
                    ),
                )
            },
            None => Some(wrong_type(n, path, "a log format"@)),
        },
        _ => None,
    }
}

/// The whole number a node holds, where it fits 32 bits.
pub open spec fn count_of(n: Node) -> Option<nat> {
    match n {
        Node::Number(s) => text::numeral(s, u32::MAX as nat),
        _ => None,
    }
}

/// The first problem of a section: in the order of the document, a key that is
/// no scalar, is not known or occurs twice, or a value that does not fit; and
/// after that a required key that is missing.
pub open spec fn problem(n: Node, s: Section, path: Seq<char>) -> Option<Seq<char>>
    decreases depth(s), 3int, 0int,
{
    match n {
        Node::Null => missing_problem(Seq::empty(), s, path, 0),
        Node::Table(entries) => match entries_problem(entries, s, path, 0) {
            Some(p) => Some(p),
            None => missing_problem(entries, s, path, 0),
        },
        _ => Some(wrong_type(n, path, "a mapping"@)),
    }
}

/// The first problem of the entries from `i` on.
pub open spec fn entries_problem(
    entries: Seq<(Node, Node)>,
    s: Section,
    path: Seq<char>,
    i: int,
) -> Option<Seq<char>>
    decreases depth(s), 2int, entries.len() - i,
{
    if i < 0 || i >= entries.len() {
        None
    } else {
        match entry_problem(entries, s, path, i) {
            Some(p) => Some(p),
            None => entries_problem(entries, s, path, i + 1),
        }
    }
}

/// What is wrong with the entry at `i`.
pub open spec fn entry_problem(
    entries: Seq<(Node, Node)>,
    s: Section,
    path: Seq<char>,
    i: int,
) -> Option<Seq<char>>
    decreases depth(s), 1int, 0int,
{
    match scalar_text(entries[i].0) {
        None => Some(wrong_type(entries[i].0, path, "a field name"@)),
        Some(name) => match find_field(keys(s), name, 0) {
            None => Some(unknown_key(s, path, name)),
            Some(k) => if has_key(entries, name, i) {
                Some(located(path, "duplicate field `"@ + name + "`"@))
            } else {
                match k.shape {
                    Shape::Part(sub) => if depth(sub) < depth(s) {
                        problem(entries[i].1, sub, below(path, name))
                    } else {
                        None
                    },
                    Shape::Parts(sub) => if depth(sub) < depth(s) {
                        match entries[i].1 {
                            Node::Null => None,
                            Node::List(items) => parts_problem(items, sub, below(path, name), 0),
                            _ => Some(
                                wrong_type(entries[i].1, below(path, name), "a sequence"@),
                            ),
                        }
                    } else {
                        None
                    },
                    _ => leaf_problem(entries[i].1, k.shape, below(path, name)),
                }
            },
        },
    }
}

/// The first problem of a list of sections, from `i` on.
pub open spec fn parts_problem(items: Seq<Node>, s: Section, path: Seq<char>, i: int) -> Option<
    Seq<char>,
>
    decreases depth(s), 4int, items.len() - i,
{
    if i < 0 || i >= items.len() {
        None
    } else {
        match problem(items[i], s, item_path(path, i)) {
            Some(p) => Some(p),
            None => parts_problem(items, s, path, i + 1),
        }
    }
}

/// The first required key from `i` on that no entry has.
pub open spec fn missing_problem(
    entries: Seq<(Node, Node)>,
    s: Section,
    path: Seq<char>,
    i: int,
) -> Option<Seq<char>>
    decreases depth(s), 0int, keys(s).len() - i,
{
    if i < 0 || i >= keys(s).len() {
        None
    } else if keys(s)[i].required && !has_key(entries, keys(s)[i].name, entries.len() as int) {
        Some(located(path, "missing field `"@ + keys(s)[i].name + "`"@))
    } else {
        missing_problem(entries, s, path, i + 1)
    }
}

fn locate(path: &str, message: &str) -> (r: String)
    ensures
        r@ == located(path@, message@),
{
    if path.is_empty() {
        message.to_owned()
    } else {
        text::cat3(path, ": ", message)
    }
}

fn path_below(path: &str, name: &str) -> (r: String)
    ensures
        r@ == below(path@, name@),
{
    if path.is_empty() {
        name.to_owned()
    } else {
        text::cat3(path, ".", name)
    }
}

fn path_of_item(path: &str, i: usize) -> (r: String)
    ensures
        r@ == item_path(path@, i as int),
{
    text::cat4(path, "[", &text::decimal_of(i as u128), "]")
}

pub fn describe(y: &Yaml) -> (r: String)
    ensures
        r@ == described(y@),
{
    match y {
        Yaml::Null => "unit value".to_owned(),
        Yaml::Bool(b) => if *b {
            "boolean `true`".to_owned()
        } else {
            "boolean `false`".to_owned()
        },
        Yaml::Number(s) => text::cat3("number `", s, "`"),
        Yaml::Text(s) => text::cat3("string \"", s, "\""),
        Yaml::List(_) => "sequence".to_owned(),
        Yaml::Table(_) => "map".to_owned(),
    }
}

pub fn mistyped(y: &Yaml, path: &str, expected: &str) -> (r: String)
    ensures
        r@ == wrong_type(y@, path@, expected@),
{
    locate(path, &text::cat4("invalid type: ", &describe(y), ", expected ", expected))
}

fn quote_names(known: &Vec<Field>) -> (r: String)
    ensures
        r@ == quoted_names(keys_in(known@), known.len() as int),
{
    let ghost all = keys_in(known@);
    let mut out = String::new();
    let mut i: usize = 0;
    while i < known.len()
        invariant
            i <= known.len(),
            all == keys_in(known@),
            out@ == quoted_names(all, i as int),
        decreases known.len() - i,
    {
        proof {
            assert(all[i as int] == known@[i as int]@);
        }
        if i == 0 {
            out = text::cat3("`", known[i].name, "`");
        } else {
            out.append(", `");
            out.append(known[i].name);
            out.append("`");
        }
        i += 1;
    }
    out
}

fn unknown(s: Section, path: &str, name: &str) -> (r: String)
    ensures
        r@ == unknown_key(s, path@, name@),
{
    let known = fields(s);
    let names = quote_names(&known);
    proof {
        assert(keys(s).len() == known@.len());
    }
    locate(path, &text::cat4("unknown field `", name, "`, expected one of ", &names))
}

/// The whole number a value holds, where it fits 32 bits.
pub fn count(y: &Yaml) -> (r: Option<u32>)
    ensures
        match r {
            Some(n) => count_of(y@) == Some(n as nat),
            None => count_of(y@) is None,
        },
{
    match y {
        Yaml::Number(s) => match text::parse_number(s, u32::MAX as u64) {
            Some(n) => Some(n as u32),
            None => None,
        },
        _ => None,
    }
}

fn check_words(items: &Vec<Yaml>, path: &str) -> (r: Option<String>)
    ensures
        text::optional(r) == words_problem(Yaml::List(*items)@->List_0, path@, 0),
{
    let ghost nodes = Yaml::List(*items)@->List_0;
    let mut i: usize = 0;
    while i < items.len()
        invariant
            i <= items.len(),
            nodes == Yaml::List(*items)@->List_0,
            nodes.len() == items.len(),
            forall|j: int| 0 <= j < items.len() ==> #[trigger] nodes[j] == items@[j]@,
            words_problem(nodes, path@, 0) == words_problem(nodes, path@, i as int),
        decreases items.len() - i,
    {
        proof {
            assert(nodes[i as int] == items@[i as int]@);
        }
        if items[i].scalar().is_none() {
            return Some(mistyped(&items[i], &path_of_item(path, i), "a string"));
        }
        i += 1;
    }
    None
}

fn is_level(t: &str) -> (r: bool)
    ensures
        r == log_levels().contains(t@),
{
    proof {
        let l = log_levels();
        assert(l[0] == "trace"@ && l[1] == "debug"@ && l[2] == "info"@ && l[3] == "warn"@ && l[4]
            == "error"@);
    }
    text::same(t, "trace") || text::same(t, "debug") || text::same(t, "info") || text::same(
        t,
        "warn",
    ) || text::same(t, "error")
}

fn is_format(t: &str) -> (r: bool)
    ensures
        r == log_formats().contains(t@),
{
    proof {
        let l = log_formats();
        assert(l[0] == "human"@ && l[1] == "json"@);
    }
    text::same(t, "human") || text::same(t, "json")
}

fn check_leaf(y: &Yaml, shape: Shape, path: &str) -> (r: Option<String>)
    ensures
        text::optional(r) == leaf_problem(y@, shape, path@),
{
    match shape {
        Shape::Flag => match y {
            Yaml::Bool(_) => None,
            _ => Some(mistyped(y, path, "a boolean")),
        },
        Shape::Count => match count(y) {
            Some(_) => None,
            None => Some(mistyped(y, path, "u32")),
        },
        Shape::Word | Shape::MaybeWord => match y.scalar() {
            Some(_) => None,
            None => Some(mistyped(y, path, "a string")),
        },
        Shape::Words => match y {
            Yaml::Null => None,
            Yaml::List(items) => check_words(items, path),
            _ => Some(mistyped(y, path, "a sequence")),
        },
        Shape::Span => match y.scalar() {
            Some(t) => match ConfigDuration::parse(&t) {
                Some(_) => None,
                None => Some(
                    locate(
                        path,
                        &text::cat3("invalid value: string \"", &t, "\", expected a duration"),
                    ),
                ),
            },
            None => Some(mistyped(y, path, "a duration")),
        },
        Shape::Level => match y.scalar() {
            Some(t) => if is_level(&t) {
                None
            } else {
                Some(
                    locate(
                        path,
                        &text::cat3(
                            "unknown variant `",
                            &t,
                            "`, expected one of `trace`, `debug`, `info`, `warn`, `error`",
                        ),
                    ),
                )
            },
            None => Some(mistyped(y, path, "a log level")),
        },
        Shape::Format => match y.scalar() {
            Some(t) => if is_format(&t) {
                None
            } else {
                Some(
                    locate(
                        path,
                        &text::cat3("unknown variant `", &t, "`, expected `human` or `json`"),
                    ),
                )
            },
            None => Some(mistyped(y, path, "a log format")),
        },
        _ => None,
    }
}

fn check_missing(entries: &Vec<(Yaml, Yaml)>, s: Section, path: &str) -> (r: Option<String>)
    ensures
        text::optional(r) == missing_problem(Yaml::Table(*entries)@->Table_0, s, path@, 0),
{
    let ghost nodes = Yaml::Table(*entries)@->Table_0;
    let known = fields(s);
    let mut i: usize = 0;
    while i < known.len()
        invariant
            i <= known.len(),
            keys_in(known@) == keys(s),
            nodes == Yaml::Table(*entries)@->Table_0,
            nodes.len() == entries.len(),
            missing_problem(nodes, s, path@, 0) == missing_problem(nodes, s, path@, i as int),
        decreases known.len() - i,
    {
        proof {
            assert(keys(s)[i as int] == known@[i as int]@);
            assert(keys(s).len() == known@.len());
        }
        if known[i].required && !key_before(entries, known[i].name, entries.len()) {
            return Some(locate(path, &text::cat3("missing field `", known[i].name, "`")));
        }
        i += 1;
    }
    proof {
        assert(keys(s).len() == known@.len());
    }
    None
}

/// The first problem of a section, if it has one.
pub fn check(y: &Yaml, s: Section, path: &str) -> (r: Option<String>)
    ensures
        text::optional(r) == problem(y@, s, path@),
    decreases depth(s), 3int, 0int,
{
    match y {
        Yaml::Null => {
            let none: Vec<(Yaml, Yaml)> = Vec::new();
            proof {
                assert(Yaml::Table(none)@->Table_0 =~= Seq::<(Node, Node)>::empty());
            }
            check_missing(&none, s, path)
        }
        Yaml::Table(entries) => match check_entries(entries, s, path) {
            Some(p) => Some(p),
            None => check_missing(entries, s, path),
        },
        _ => Some(mistyped(y, path, "a mapping")),
    }
}

fn check_entries(entries: &Vec<(Yaml, Yaml)>, s: Section, path: &str) -> (r: Option<String>)
    ensures
        text::optional(r) == entries_problem(Yaml::Table(*entries)@->Table_0, s, path@, 0),
    decreases depth(s), 2int, 0int,
{
    let ghost nodes = Yaml::Table(*entries)@->Table_0;
    let mut i: usize = 0;
    while i < entries.len()
        invariant
            i <= entries.len(),
            nodes == Yaml::Table(*entries)@->Table_0,
            nodes.len() == entries.len(),
            entries_problem(nodes, s, path@, 0) == entries_problem(nodes, s, path@, i as int),
        decreases entries.len() - i,
    {
        match check_entry(entries, s, path, i) {
            Some(p) => return Some(p),
            None => {}
        }
        i += 1;
    }
    None
}

fn check_entry(entries: &Vec<(Yaml, Yaml)>, s: Section, path: &str, i: usize) -> (r: Option<String>)
    requires
        i < entries.len(),
    ensures
        text::optional(r) == entry_problem(
            Yaml::Table(*entries)@->Table_0,
            s,
            path@,
            i as int,
        ),
    decreases depth(s), 1int, 0int,
{
    let ghost nodes = Yaml::Table(*entries)@->Table_0;
    proof {
        assert(nodes[i as int] == (entries@[i as int].0@, entries@[i as int].1@));
    }
    let value = &entries[i].1;
    let name = match entries[i].0.scalar() {
        Some(name) => name,
        None => return Some(mistyped(&entries[i].0, path, "a field name")),
    };
    let known = fields(s);
    let shape = match field_named(&known, &name) {
        Some(shape) => shape,
        None => return Some(unknown(s, path, &name)),
    };
    if key_before(entries, &name, i) {
        return Some(locate(path, &text::cat3("duplicate field `", &name, "`")));
    }
    let here = path_below(path, &name);
    match shape {
        Shape::Part(sub) => if depth_of(sub) < depth_of(s) {
            check(value, sub, &here)
        } else {
            None
        },
        Shape::Parts(sub) => if depth_of(sub) < depth_of(s) {
            match value {
                Yaml::Null => None,
                Yaml::List(items) => check_parts(items, sub, &here),
                _ => Some(mistyped(value, &here, "a sequence")),
            }
        } else {
            None
        },
        _ => check_leaf(value, shape, &here),
    }
}

fn check_parts(items: &Vec<Yaml>, s: Section, path: &str) -> (r: Option<String>)
    ensures
        text::optional(r) == parts_problem(Yaml::List(*items)@->List_0, s, path@, 0),
    decreases depth(s), 4int, 0int,
{
    let ghost nodes = Yaml::List(*items)@->List_0;
    let mut i: usize = 0;
    while i < items.len()
        invariant
            i <= items.len(),
            nodes == Yaml::List(*items)@->List_0,
            nodes.len() == items.len(),
            forall|j: int| 0 <= j < items.len() ==> #[trigger] nodes[j] == items@[j]@,
            parts_problem(nodes, s, path@, 0) == parts_problem(nodes, s, path@, i as int),
        decreases items.len() - i,
    {
        proof {
            assert(nodes[i as int] == items@[i as int]@);
        }
        match check(&items[i], s, &path_of_item(path, i)) {
            Some(p) => return Some(p),
            None => {}
        }
        i += 1;
    }
    None
}

// ---------------------------------------------------------------------------
// What the schema guarantees
// ---------------------------------------------------------------------------

proof fn lemma_entry_problem_shows(
    entries: Seq<(Node, Node)>,
    s: Section,
    path: Seq<char>,
    from: int,
    i: int,
)
    requires
        0 <= from <= i < entries.len(),
        entry_problem(entries, s, path, i) is Some,
    ensures
        entries_problem(entries, s, path, from) is Some,
    decreases i - from,
{
    if from < i {
        lemma_entry_problem_shows(entries, s, path, from + 1, i);
    }
}

/// A key the section does not know fails it, wherever it stands and whatever
/// else the section holds.
pub proof fn law_unknown_keys_are_errors(
    entries: Seq<(Node, Node)>,
    s: Section,
    path: Seq<char>,
    i: int,
)
    requires
        0 <= i < entries.len(),
        scalar_text(entries[i].0) matches Some(name) && find_field(keys(s), name, 0) is None,
    ensures
        problem(Node::Table(entries), s, path) is Some,
{
    lemma_entry_problem_shows(entries, s, path, 0, i);
}

/// Whether the section `m`, read as `t`, stands in the section `n`, read as `s`: as
/// that section itself, as a part of it at any depth, or in a list of parts.
pub open spec fn holds_section(n: Node, s: Section, m: Node, t: Section) -> bool
    decreases depth(s),
{
    (n == m && s == t) || (n matches Node::Table(entries) && exists|i: int|
        0 <= i < entries.len() && match shape_at(entries, s, i) {
            Some(Shape::Part(sub)) => depth(sub) < depth(s) && holds_section(
                (#[trigger] entries[i]).1,
                sub,
                m,
                t,
            ),
            Some(Shape::Parts(sub)) => depth(sub) < depth(s) && (entries[i].1 matches Node::List(
                items,
            ) && exists|j: int|
                0 <= j < items.len() && holds_section(#[trigger] items[j], sub, m, t)),
            _ => false,
        })
}

/// What the schema expects behind the key of an entry.
pub open spec fn shape_at(entries: Seq<(Node, Node)>, s: Section, i: int) -> Option<Shape> {
    match scalar_text(entries[i].0) {
        Some(name) => match find_field(keys(s), name, 0) {
            Some(k) => Some(k.shape),
            None => None,
        },
        None => None,
    }
}

/// Whether a section is a mapping with a key it does not know.
pub open spec fn has_unknown_key(n: Node, s: Section) -> bool {
    n matches Node::Table(entries) && exists|i: int|
        0 <= i < entries.len() && (scalar_text((#[trigger] entries[i]).0) matches Some(name)
            && find_field(keys(s), name, 0) is None)
}

proof fn lemma_part_problem_shows(items: Seq<Node>, s: Section, path: Seq<char>, from: int, j: int)
    requires
        0 <= from <= j < items.len(),
        problem(items[j], s, item_path(path, j)) is Some,
    ensures
        parts_problem(items, s, path, from) is Some,
    decreases j - from,
{
    if from < j {
        lemma_part_problem_shows(items, s, path, from + 1, j);
    }
}

/// A key that is not known fails the section it stands in, and every section that
/// one stands in, whatever else they hold: at the top, in a part of a part, or in
/// a list.
pub proof fn law_an_unknown_key_at_any_depth_is_an_error(
    n: Node,
    s: Section,
    path: Seq<char>,
    m: Node,
    t: Section,
)
    requires
        holds_section(n, s, m, t),
        has_unknown_key(m, t),
    ensures
        problem(n, s, path) is Some,
    decreases depth(s),
{
    if n == m && s == t {
        if let Node::Table(entries) = n {
            let i = choose|i: int|
                0 <= i < entries.len() && (scalar_text((#[trigger] entries[i]).0) matches Some(
                    name,
                ) && find_field(keys(s), name, 0) is None);
            law_unknown_keys_are_errors(entries, s, path, i);
        }
    } else if let Node::Table(entries) = n {
        let i = choose|i: int|
            0 <= i < entries.len() && match shape_at(entries, s, i) {
                Some(Shape::Part(sub)) => depth(sub) < depth(s) && holds_section(
                    (#[trigger] entries[i]).1,
                    sub,
                    m,
                    t,
                ),
                Some(Shape::Parts(sub)) => depth(sub) < depth(s) && (
                entries[i].1 matches Node::List(items) && exists|j: int|
                    0 <= j < items.len() && holds_section(#[trigger] items[j], sub, m, t)),
                _ => false,
            };
        let name = scalar_text(entries[i].0)->0;
        let here = below(path, name);
        match shape_at(entries, s, i) {
            Some(Shape::Part(sub)) => {
                law_an_unknown_key_at_any_depth_is_an_error(entries[i].1, sub, here, m, t);
            },
            Some(Shape::Parts(sub)) => {
                if let Node::List(items) = entries[i].1 {
                    let j = choose|j: int|
                        0 <= j < items.len() && holds_section(#[trigger] items[j], sub, m, t);
                    law_an_unknown_key_at_any_depth_is_an_error(
                        items[j],
                        sub,
                        item_path(here, j),
                        m,
                        t,
                    );
                    lemma_part_problem_shows(items, sub, here, 0, j);
                }
            },
            _ => {},
        }
        lemma_entry_problem_shows(entries, s, path, 0, i);
    }
}

/// Every part a section can hold nests below it.
pub proof fn law_parts_nest(s: Section, i: int)
    requires
        0 <= i < keys(s).len(),
    ensures
        keys(s)[i].shape matches Shape::Part(sub) ==> depth(sub) < depth(s),
        keys(s)[i].shape matches Shape::Parts(sub) ==> depth(sub) < depth(s),
{
}

/// An empty section has the problems an omitted one has: none, unless a key is
/// required.
pub proof fn law_an_empty_section_matches_a_blank_one(s: Section, path: Seq<char>)
    ensures
        problem(Node::Table(Seq::empty()), s, path) == problem(Node::Null, s, path),
{
}

// ---------------------------------------------------------------------------
// Reading values
// ---------------------------------------------------------------------------

/// The part a section holds under `name`; an omitted one is blank.
pub open spec fn part(n: Node, name: Seq<char>) -> Node {
    match lookup(n, name) {
        Some(v) => v,
        None => Node::Null,
    }
}

pub open spec fn flag_at(n: Node, name: Seq<char>, default: bool) -> bool {
    match lookup(n, name) {
        Some(Node::Bool(b)) => b,
        _ => default,
    }
}

pub open spec fn word_at(n: Node, name: Seq<char>, default: Seq<char>) -> Seq<char> {
    match lookup(n, name) {
        Some(v) => match scalar_text(v) {
            Some(t) => t,
            None => default,
        },
        None => default,
    }
}

/// An optional word: omitted and blank both mean there is none.
pub open spec fn maybe_word_at(n: Node, name: Seq<char>) -> Option<Seq<char>> {
    match lookup(n, name) {
        Some(Node::Null) => None,
        Some(v) => scalar_text(v),
        None => None,
    }
}

pub open spec fn word_of(n: Node) -> Seq<char> {
    match scalar_text(n) {
        Some(t) => t,
        None => Seq::empty(),
    }
}

pub open spec fn words_at(n: Node, name: Seq<char>, default: Seq<Seq<char>>) -> Seq<Seq<char>> {
    match lookup(n, name) {
        Some(Node::List(items)) => items.map_values(|v: Node| word_of(v)),
        Some(_) => Seq::empty(),
        None => default,
    }
}

pub open spec fn span_at(n: Node, name: Seq<char>, default: ConfigDuration) -> ConfigDuration {
    match lookup(n, name) {
        Some(v) => match span_of(word_of(v)) {
            Some(d) => d,
            None => default,
        },
        None => default,
    }
}

pub open spec fn items_at(n: Node, name: Seq<char>) -> Seq<Node> {
    match lookup(n, name) {
        Some(Node::List(items)) => items,
        _ => Seq::empty(),
    }
}

/// The part a section holds under `name`, or `blank` where it is omitted.
pub fn section<'a>(y: &'a Yaml, name: &str, blank: &'a Yaml) -> (r: &'a Yaml)
    requires
        blank@ == Node::Null,
    ensures
        r@ == part(y@, name@),
{
    match y.get(name) {
        Some(v) => v,
        None => blank,
    }
}

pub fn read_flag(y: &Yaml, name: &str, default: bool) -> (r: bool)
    ensures
        r == flag_at(y@, name@, default),
{
    match y.get(name) {
        Some(Yaml::Bool(b)) => *b,
        _ => default,
    }
}

pub fn read_word(y: &Yaml, name: &str, default: &str) -> (r: String)
    ensures
        r@ == word_at(y@, name@, default@),
{
    match y.get(name) {
        Some(v) => match v.scalar() {
            Some(t) => t,
            None => default.to_owned(),
        },
        None => default.to_owned(),
    }
}

pub fn read_maybe_word(y: &Yaml, name: &str) -> (r: Option<String>)
    ensures
        text::optional(r) == maybe_word_at(y@, name@),
{
    match y.get(name) {
        Some(Yaml::Null) => None,
        Some(v) => v.scalar(),
        None => None,
    }
}

/// The words of a list; `default` where the key is omitted.
pub fn read_words(y: &Yaml, name: &str, default: Vec<String>) -> (r: Vec<String>)
    ensures
        text::texts(r@) == words_at(y@, name@, text::texts(default@)),
{
    match y.get(name) {
        Some(v) => {
            let mut out: Vec<String> = Vec::new();
            proof {
                assert(text::texts(out@) =~= Seq::<Seq<char>>::empty());
            }
            match v {
                Yaml::List(items) => {
                    let ghost nodes = v@->List_0;
                    let ghost all = nodes.map_values(|w: Node| word_of(w));
                    let mut i: usize = 0;
                    while i < items.len()
                        invariant
                            i <= items.len(),
                            nodes.len() == items.len(),
                            forall|j: int| 0 <= j < items.len() ==> #[trigger] nodes[j] == items@[j]@,
                            all == nodes.map_values(|w: Node| word_of(w)),
                            text::texts(out@) =~= all.subrange(0, i as int),
                        decreases items.len() - i,
                    {
                        let word = match items[i].scalar() {
                            Some(t) => t,
                            None => String::new(),
                        };
                        proof {
                            assert(nodes[i as int] == items@[i as int]@);
                            assert(all[i as int] == word@);
                        }
                        text::note(&mut out, word);
                        i += 1;
                    }
                    proof {
                        assert(all.subrange(0, i as int) =~= all);
                    }
                }
                _ => {}
            }
            out
        }
        None => default,
    }
}

pub fn read_span(y: &Yaml, name: &str, default: ConfigDuration) -> (r: ConfigDuration)
    ensures
        r == span_at(y@, name@, default),
{
    match y.get(name) {
        Some(v) => {
            let word = match v.scalar() {
                Some(t) => t,
                None => String::new(),
            };
            match ConfigDuration::parse(&word) {
                Some(d) => d,
                None => default,
            }
        }
        None => default,
    }
}

} // verus!
