//! Which keys the configuration file knows, and what may stand under them.

use vstd::prelude::*;
use vstd::string::*;
use crate::config::loader::check_version;
use crate::config::schema::{
    entries_problem, entry_problem, find_field, has_key, keys, leaf_problem, problem, words_problem,
    Key, Section, Shape,
};
use crate::duration::span_of;
use crate::error::MuninnError;
use crate::laws::text::law_a_number_reads_back;
use crate::text;
use crate::yaml::{lookup, scalar_text, Node, Yaml};

verus! {

/// Whether a section knows a key, and that this is what stands under it.
pub open spec fn knows(s: Section, name: Seq<char>, shape: Shape) -> bool {
    exists|i: int| #[trigger] knows_at(s, i, name, shape)
}

/// Whether it is the key at this place.
pub open spec fn knows_at(s: Section, i: int, name: Seq<char>, shape: Shape) -> bool {
    0 <= i < keys(s).len() && keys(s)[i].name == name && keys(s)[i].shape == shape
}

/// The documented keys of the file and its general sections are known, with the kind of value
/// that is documented for them, and no others.
pub proof fn law_the_documented_keys_of_general()
    ensures
        knows(Section::Root, "version"@, Shape::Count),
        knows(Section::Root, "agent"@, Shape::Part(Section::Agent)),
        knows(Section::Root, "runtime"@, Shape::Part(Section::Runtime)),
        knows(Section::Root, "logging"@, Shape::Part(Section::Logging)),
        knows(Section::Root, "health"@, Shape::Part(Section::Health)),
        knows(Section::Root, "modules"@, Shape::Part(Section::Modules)),
        knows(Section::Root, "outputs"@, Shape::Part(Section::Outputs)),
        keys(Section::Root).len() == 7,
        knows(Section::Agent, "interval"@, Shape::Span),
        knows(Section::Agent, "flush_interval"@, Shape::Span),
        knows(Section::Agent, "hostname"@, Shape::Word),
        knows(Section::Agent, "omit_hostname"@, Shape::Flag),
        keys(Section::Agent).len() == 4,
        knows(Section::Runtime, "shutdown_grace_period"@, Shape::Span),
        knows(Section::Runtime, "telegraf_start_timeout"@, Shape::Span),
        knows(Section::Runtime, "generated_config_path"@, Shape::Word),
        knows(Section::Runtime, "host_mount_prefix"@, Shape::Word),
        keys(Section::Runtime).len() == 4,
        knows(Section::Logging, "format"@, Shape::Format),
        knows(Section::Logging, "level"@, Shape::Level),
        keys(Section::Logging).len() == 2,
        knows(Section::Health, "listen"@, Shape::Word),
        keys(Section::Health).len() == 1,
        knows(Section::Modules, "cpu"@, Shape::Part(Section::Simple)),
        knows(Section::Modules, "memory"@, Shape::Part(Section::Simple)),
        knows(Section::Modules, "load"@, Shape::Part(Section::Simple)),
        knows(Section::Modules, "system"@, Shape::Part(Section::Simple)),
        knows(Section::Modules, "swap"@, Shape::Part(Section::Simple)),
        knows(Section::Modules, "processes"@, Shape::Part(Section::Simple)),
        knows(Section::Modules, "disks"@, Shape::Part(Section::Disks)),
        knows(Section::Modules, "disk_io"@, Shape::Part(Section::DiskIo)),
        knows(Section::Modules, "network"@, Shape::Part(Section::Network)),
        knows(Section::Modules, "docker"@, Shape::Part(Section::Docker)),
        knows(Section::Modules, "updates"@, Shape::Part(Section::Updates)),
        knows(Section::Modules, "image_updates"@, Shape::Part(Section::ImageUpdates)),
        keys(Section::Modules).len() == 12,
        knows(Section::Simple, "enabled"@, Shape::Flag),
        keys(Section::Simple).len() == 1,
{
    assert(knows_at(Section::Root, 0, "version"@, Shape::Count));
    assert(knows_at(Section::Root, 1, "agent"@, Shape::Part(Section::Agent)));
    assert(knows_at(Section::Root, 2, "runtime"@, Shape::Part(Section::Runtime)));
    assert(knows_at(Section::Root, 3, "logging"@, Shape::Part(Section::Logging)));
    assert(knows_at(Section::Root, 4, "health"@, Shape::Part(Section::Health)));
    assert(knows_at(Section::Root, 5, "modules"@, Shape::Part(Section::Modules)));
    assert(knows_at(Section::Root, 6, "outputs"@, Shape::Part(Section::Outputs)));
    assert(knows_at(Section::Agent, 0, "interval"@, Shape::Span));
    assert(knows_at(Section::Agent, 1, "flush_interval"@, Shape::Span));
    assert(knows_at(Section::Agent, 2, "hostname"@, Shape::Word));
    assert(knows_at(Section::Agent, 3, "omit_hostname"@, Shape::Flag));
    assert(knows_at(Section::Runtime, 0, "shutdown_grace_period"@, Shape::Span));
    assert(knows_at(Section::Runtime, 1, "telegraf_start_timeout"@, Shape::Span));
    assert(knows_at(Section::Runtime, 2, "generated_config_path"@, Shape::Word));
    assert(knows_at(Section::Runtime, 3, "host_mount_prefix"@, Shape::Word));
    assert(knows_at(Section::Logging, 0, "format"@, Shape::Format));
    assert(knows_at(Section::Logging, 1, "level"@, Shape::Level));
    assert(knows_at(Section::Health, 0, "listen"@, Shape::Word));
    assert(knows_at(Section::Modules, 0, "cpu"@, Shape::Part(Section::Simple)));
    assert(knows_at(Section::Modules, 1, "memory"@, Shape::Part(Section::Simple)));
    assert(knows_at(Section::Modules, 2, "load"@, Shape::Part(Section::Simple)));
    assert(knows_at(Section::Modules, 3, "system"@, Shape::Part(Section::Simple)));
    assert(knows_at(Section::Modules, 4, "swap"@, Shape::Part(Section::Simple)));
    assert(knows_at(Section::Modules, 5, "processes"@, Shape::Part(Section::Simple)));
    assert(knows_at(Section::Modules, 6, "disks"@, Shape::Part(Section::Disks)));
    assert(knows_at(Section::Modules, 7, "disk_io"@, Shape::Part(Section::DiskIo)));
    assert(knows_at(Section::Modules, 8, "network"@, Shape::Part(Section::Network)));
    assert(knows_at(Section::Modules, 9, "docker"@, Shape::Part(Section::Docker)));
    assert(knows_at(Section::Modules, 10, "updates"@, Shape::Part(Section::Updates)));
    assert(knows_at(Section::Modules, 11, "image_updates"@, Shape::Part(Section::ImageUpdates)));
    assert(knows_at(Section::Simple, 0, "enabled"@, Shape::Flag));
}

/// The documented keys of the modules are known, with the kind of value
/// that is documented for them, and no others.
pub proof fn law_the_documented_keys_of_modules()
    ensures
        knows(Section::Disks, "enabled"@, Shape::Flag),
        knows(Section::Disks, "exclude_filesystems"@, Shape::Words),
        knows(Section::Disks, "exclude_mountpoints"@, Shape::Words),
        knows(Section::Disks, "include_mountpoints"@, Shape::Words),
        keys(Section::Disks).len() == 4,
        knows(Section::DiskIo, "enabled"@, Shape::Flag),
        knows(Section::DiskIo, "include_devices"@, Shape::Words),
        knows(Section::DiskIo, "exclude_devices"@, Shape::Words),
        keys(Section::DiskIo).len() == 3,
        knows(Section::Network, "enabled"@, Shape::Flag),
        knows(Section::Network, "include_interfaces"@, Shape::Words),
        knows(Section::Network, "exclude_interfaces"@, Shape::Words),
        keys(Section::Network).len() == 3,
        knows(Section::Docker, "enabled"@, Shape::Flag),
        knows(Section::Docker, "endpoint"@, Shape::Word),
        knows(Section::Docker, "container_include"@, Shape::Words),
        knows(Section::Docker, "container_exclude"@, Shape::Words),
        knows(Section::Docker, "timeout"@, Shape::Span),
        knows(Section::Docker, "container_states"@, Shape::Words),
        keys(Section::Docker).len() == 6,
        knows(Section::Updates, "enabled"@, Shape::Flag),
        knows(Section::Updates, "interval"@, Shape::Span),
        knows(Section::Updates, "security_only_metric"@, Shape::Flag),
        keys(Section::Updates).len() == 3,
        knows(Section::ImageUpdates, "enabled"@, Shape::Flag),
        knows(Section::ImageUpdates, "endpoint"@, Shape::Word),
        knows(Section::ImageUpdates, "timeout"@, Shape::Span),
        knows(Section::ImageUpdates, "registry_timeout"@, Shape::Span),
        knows(Section::ImageUpdates, "interval"@, Shape::Span),
        knows(Section::ImageUpdates, "container_include"@, Shape::Words),
        knows(Section::ImageUpdates, "container_exclude"@, Shape::Words),
        knows(Section::ImageUpdates, "registry_auth"@, Shape::Parts(Section::RegistryAuth)),
        keys(Section::ImageUpdates).len() == 8,
{
    assert(knows_at(Section::Disks, 0, "enabled"@, Shape::Flag));
    assert(knows_at(Section::Disks, 1, "exclude_filesystems"@, Shape::Words));
    assert(knows_at(Section::Disks, 2, "exclude_mountpoints"@, Shape::Words));
    assert(knows_at(Section::Disks, 3, "include_mountpoints"@, Shape::Words));
    assert(knows_at(Section::DiskIo, 0, "enabled"@, Shape::Flag));
    assert(knows_at(Section::DiskIo, 1, "include_devices"@, Shape::Words));
    assert(knows_at(Section::DiskIo, 2, "exclude_devices"@, Shape::Words));
    assert(knows_at(Section::Network, 0, "enabled"@, Shape::Flag));
    assert(knows_at(Section::Network, 1, "include_interfaces"@, Shape::Words));
    assert(knows_at(Section::Network, 2, "exclude_interfaces"@, Shape::Words));
    assert(knows_at(Section::Docker, 0, "enabled"@, Shape::Flag));
    assert(knows_at(Section::Docker, 1, "endpoint"@, Shape::Word));
    assert(knows_at(Section::Docker, 2, "container_include"@, Shape::Words));
    assert(knows_at(Section::Docker, 3, "container_exclude"@, Shape::Words));
    assert(knows_at(Section::Docker, 4, "timeout"@, Shape::Span));
    assert(knows_at(Section::Docker, 5, "container_states"@, Shape::Words));
    assert(knows_at(Section::Updates, 0, "enabled"@, Shape::Flag));
    assert(knows_at(Section::Updates, 1, "interval"@, Shape::Span));
    assert(knows_at(Section::Updates, 2, "security_only_metric"@, Shape::Flag));
    assert(knows_at(Section::ImageUpdates, 0, "enabled"@, Shape::Flag));
    assert(knows_at(Section::ImageUpdates, 1, "endpoint"@, Shape::Word));
    assert(knows_at(Section::ImageUpdates, 2, "timeout"@, Shape::Span));
    assert(knows_at(Section::ImageUpdates, 3, "registry_timeout"@, Shape::Span));
    assert(knows_at(Section::ImageUpdates, 4, "interval"@, Shape::Span));
    assert(knows_at(Section::ImageUpdates, 5, "container_include"@, Shape::Words));
    assert(knows_at(Section::ImageUpdates, 6, "container_exclude"@, Shape::Words));
    assert(knows_at(Section::ImageUpdates, 7, "registry_auth"@, Shape::Parts(Section::RegistryAuth)));
}

/// The documented keys of the outputs and what belongs to them are known, with the kind of value
/// that is documented for them, and no others.
pub proof fn law_the_documented_keys_of_outputs()
    ensures
        knows(Section::RegistryAuth, "registry"@, Shape::Word),
        knows(Section::RegistryAuth, "username"@, Shape::Word),
        knows(Section::RegistryAuth, "password_file"@, Shape::Word),
        keys(Section::RegistryAuth).len() == 3,
        knows(Section::Outputs, "influxdb"@, Shape::Part(Section::Influxdb)),
        knows(Section::Outputs, "prometheus"@, Shape::Part(Section::Prometheus)),
        keys(Section::Outputs).len() == 2,
        knows(Section::Influxdb, "enabled"@, Shape::Flag),
        knows(Section::Influxdb, "url"@, Shape::Word),
        knows(Section::Influxdb, "organization"@, Shape::Word),
        knows(Section::Influxdb, "bucket"@, Shape::Word),
        knows(Section::Influxdb, "token_file"@, Shape::Word),
        knows(Section::Influxdb, "timeout"@, Shape::Span),
        knows(Section::Influxdb, "tls"@, Shape::Part(Section::Tls)),
        keys(Section::Influxdb).len() == 7,
        knows(Section::Tls, "ca_file"@, Shape::MaybeWord),
        knows(Section::Tls, "cert_file"@, Shape::MaybeWord),
        knows(Section::Tls, "key_file"@, Shape::MaybeWord),
        knows(Section::Tls, "insecure_skip_verify"@, Shape::Flag),
        keys(Section::Tls).len() == 4,
        knows(Section::Prometheus, "enabled"@, Shape::Flag),
        knows(Section::Prometheus, "listen"@, Shape::Word),
        knows(Section::Prometheus, "path"@, Shape::Word),
        knows(Section::Prometheus, "expiration_interval"@, Shape::Span),
        knows(Section::Prometheus, "basic_auth"@, Shape::Part(Section::BasicAuth)),
        knows(Section::Prometheus, "tls"@, Shape::Part(Section::PrometheusTls)),
        keys(Section::Prometheus).len() == 6,
        knows(Section::PrometheusTls, "cert_file"@, Shape::MaybeWord),
        knows(Section::PrometheusTls, "key_file"@, Shape::MaybeWord),
        knows(Section::PrometheusTls, "client_ca_file"@, Shape::MaybeWord),
        keys(Section::PrometheusTls).len() == 3,
        knows(Section::BasicAuth, "username"@, Shape::MaybeWord),
        knows(Section::BasicAuth, "password_file"@, Shape::MaybeWord),
        keys(Section::BasicAuth).len() == 2,
{
    assert(knows_at(Section::RegistryAuth, 0, "registry"@, Shape::Word));
    assert(knows_at(Section::RegistryAuth, 1, "username"@, Shape::Word));
    assert(knows_at(Section::RegistryAuth, 2, "password_file"@, Shape::Word));
    assert(knows_at(Section::Outputs, 0, "influxdb"@, Shape::Part(Section::Influxdb)));
    assert(knows_at(Section::Outputs, 1, "prometheus"@, Shape::Part(Section::Prometheus)));
    assert(knows_at(Section::Influxdb, 0, "enabled"@, Shape::Flag));
    assert(knows_at(Section::Influxdb, 1, "url"@, Shape::Word));
    assert(knows_at(Section::Influxdb, 2, "organization"@, Shape::Word));
    assert(knows_at(Section::Influxdb, 3, "bucket"@, Shape::Word));
    assert(knows_at(Section::Influxdb, 4, "token_file"@, Shape::Word));
    assert(knows_at(Section::Influxdb, 5, "timeout"@, Shape::Span));
    assert(knows_at(Section::Influxdb, 6, "tls"@, Shape::Part(Section::Tls)));
    assert(knows_at(Section::Tls, 0, "ca_file"@, Shape::MaybeWord));
    assert(knows_at(Section::Tls, 1, "cert_file"@, Shape::MaybeWord));
    assert(knows_at(Section::Tls, 2, "key_file"@, Shape::MaybeWord));
    assert(knows_at(Section::Tls, 3, "insecure_skip_verify"@, Shape::Flag));
    assert(knows_at(Section::Prometheus, 0, "enabled"@, Shape::Flag));
    assert(knows_at(Section::Prometheus, 1, "listen"@, Shape::Word));
    assert(knows_at(Section::Prometheus, 2, "path"@, Shape::Word));
    assert(knows_at(Section::Prometheus, 3, "expiration_interval"@, Shape::Span));
    assert(knows_at(Section::Prometheus, 4, "basic_auth"@, Shape::Part(Section::BasicAuth)));
    assert(knows_at(Section::Prometheus, 5, "tls"@, Shape::Part(Section::PrometheusTls)));
    assert(knows_at(Section::PrometheusTls, 0, "cert_file"@, Shape::MaybeWord));
    assert(knows_at(Section::PrometheusTls, 1, "key_file"@, Shape::MaybeWord));
    assert(knows_at(Section::PrometheusTls, 2, "client_ca_file"@, Shape::MaybeWord));
    assert(knows_at(Section::BasicAuth, 0, "username"@, Shape::MaybeWord));
    assert(knows_at(Section::BasicAuth, 1, "password_file"@, Shape::MaybeWord));
}

/// What may stand under a key: a switch under a switch, a whole number under a count, any
/// scalar under a text, a list of scalars under a list, a duration under a period, and one
/// of the names under a level or a format.
pub proof fn law_what_may_stand_under_a_key(n: Node, path: Seq<char>)
    ensures
        leaf_problem(n, Shape::Flag, path) is None <==> n is Bool,
        leaf_problem(n, Shape::Word, path) is None <==> !(n is List) && !(n is Table),
        leaf_problem(n, Shape::MaybeWord, path) is None <==> !(n is List) && !(n is Table),
        leaf_problem(n, Shape::Words, path) is None <==> match n {
            Node::Null => true,
            Node::List(items) => forall|i: int|
                0 <= i < items.len() ==> !((#[trigger] items[i]) is List) && !(items[i] is Table),
            _ => false,
        },
        n matches Node::Text(t) ==> (leaf_problem(n, Shape::Span, path) is None <==> span_of(t) is Some),
        n matches Node::Text(t) ==> (leaf_problem(n, Shape::Level, path) is None <==> t == "trace"@
            || t == "debug"@ || t == "info"@ || t == "warn"@ || t == "error"@),
        n matches Node::Text(t) ==> (leaf_problem(n, Shape::Format, path) is None <==> t == "human"@
            || t == "json"@),
        n is List || n is Table ==> leaf_problem(n, Shape::Span, path) is Some,
{
    if let Node::List(items) = n {
        lemma_words(items, path, 0);
    }
    if let Node::Text(t) = n {
        let l = crate::config::schema::log_levels();
        assert(l[0] == "trace"@ && l[1] == "debug"@ && l[2] == "info"@ && l[3] == "warn"@ && l[4]
            == "error"@);
        assert(l.len() == 5);
        let f = crate::config::schema::log_formats();
        assert(f[0] == "human"@ && f[1] == "json"@);
        assert(f.len() == 2);
    }
}

proof fn lemma_words(items: Seq<Node>, path: Seq<char>, i: int)
    requires
        0 <= i <= items.len(),
    ensures
        words_problem(items, path, i) is None <==> forall|j: int|
            i <= j < items.len() ==> !((#[trigger] items[j]) is List) && !(items[j] is Table),
    decreases items.len() - i,
{
    if i < items.len() {
        lemma_words(items, path, i + 1);
        if words_problem(items, path, i) is None {
            assert forall|j: int| i <= j < items.len() implies !((#[trigger] items[j]) is List)
                && !(items[j] is Table) by {}
        }
    }
}

/// A count is any whole number that fits, written in digits.
pub proof fn law_a_count_is_a_whole_number(n: nat, path: Seq<char>)
    requires
        n <= u32::MAX,
    ensures
        leaf_problem(Node::Number(text::decimal(n)), Shape::Count, path) is None,
        forall|s: Seq<char>| leaf_problem(Node::Text(s), Shape::Count, path) is Some,
{
    law_a_number_reads_back(n);
}

proof fn lemma_entries(entries: Seq<(Node, Node)>, s: Section, path: Seq<char>, i: int, k: int)
    requires
        0 <= i <= k < entries.len(),
        entries_problem(entries, s, path, i) is None,
    ensures
        entry_problem(entries, s, path, k) is None,
    decreases k - i,
{
    if i < k {
        lemma_entries(entries, s, path, i + 1, k);
    }
}

/// A section without a problem holds nothing but keys that it knows, each once.
pub proof fn law_a_sound_section_holds_known_keys_once(
    entries: Seq<(Node, Node)>,
    s: Section,
    path: Seq<char>,
    k: int,
)
    requires
        problem(Node::Table(entries), s, path) is None,
        0 <= k < entries.len(),
    ensures
        scalar_text(entries[k].0) matches Some(name) && (exists|i: int|
            0 <= i < keys(s).len() && (#[trigger] keys(s)[i]).name == name) && !has_key(
            entries,
            name,
            k,
        ),
{
    lemma_entries(entries, s, path, 0, k);
    let name = scalar_text(entries[k].0)->0;
    lemma_found(keys(s), name, 0);
}

proof fn lemma_found(known: Seq<Key>, name: Seq<char>, i: int)
    requires
        0 <= i <= known.len(),
        find_field(known, name, i) is Some,
    ensures
        exists|j: int| 0 <= j < known.len() && (#[trigger] known[j]).name == name,
    decreases known.len() - i,
{
    if i < known.len() && known[i].name != name {
        lemma_found(known, name, i + 1);
    }
}

/// A file is of this version exactly if it says `version: 1`.
pub proof fn law_the_version_is_one(root: &Yaml, r: Result<(), MuninnError>)
    requires
        call_ensures(check_version, (root,), r),
    ensures
        r is Ok ==> root@ is Table,
        root@ is Table && lookup(root@, "version"@) is None ==> r is Err,
        forall|n: nat|
            root@ is Table && n <= u32::MAX && lookup(root@, "version"@) == Some(
                Node::Number(#[trigger] text::decimal(n)),
            ) ==> (r is Ok <==> n == 1),
{
    assert forall|n: nat|
        root@ is Table && n <= u32::MAX && lookup(root@, "version"@) == Some(
            Node::Number(#[trigger] text::decimal(n)),
        ) implies (r is Ok <==> n == 1) by {
        law_a_number_reads_back(n);
    }
}

} // verus!
