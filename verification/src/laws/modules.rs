//! What the modules need, what the image check asks, and how replies are read.

use vstd::prelude::*;
use vstd::string::*;
use crate::clock;
use crate::config::loader::{references, References};
use crate::config::model::ConfigV1;
use crate::config::normalised::Config;
use crate::duration::ConfigDuration;
use crate::health::serve::{next, Action, Event, Waiting};
use crate::json::{json_items, json_members, json_text, json_tree, json_value, read_json};
use crate::laws::image_updates::nanos;
use crate::modules::image_updates::check::{
    admitted, check_one, comparable, covers, digest_for, inspects, listed, lists, resolvable,
    resolves, run, said, settled, split, timely, ContainerCheck, ContainerReason, Report,
};
use crate::modules::image_updates::docker_api::{Container, DockerApi};
use crate::modules::inputs::{parse_docker_endpoint, Module};
use crate::modules::{Endpoint, EndpointKind, Needs, Reach, MonitoringModule};
use crate::text;
use crate::yaml::{Node, Yaml};

verus! {

// ---------------------------------------------------------------------------
// Needs
// ---------------------------------------------------------------------------

/// An endpoint is a socket or an address, by its scheme, and nothing without one.
pub proof fn law_an_endpoint_is_told_by_its_scheme(
    rest: Seq<char>,
    endpoint: &str,
    timeout: ConfigDuration,
    r: Option<Endpoint>,
)
    requires
        call_ensures(parse_docker_endpoint, (endpoint, timeout), r),
    ensures
        endpoint@ == "unix://"@ + rest && rest.len() > 0 ==> (r matches Some(e) && e.timeout
            == timeout && (e.kind matches EndpointKind::UnixSocket(p) && p@ == rest)),
        endpoint@ == "tcp://"@ + rest && rest.len() > 0 ==> (r matches Some(e) && e.timeout
            == timeout && (e.kind matches EndpointKind::Tcp(a) && a@ == rest)),
        !"unix://"@.is_prefix_of(endpoint@) && !"tcp://"@.is_prefix_of(endpoint@) ==> r is None,
        endpoint@ == "unix://"@ || endpoint@ == "tcp://"@ ==> r is None,
{
    reveal_strlit("unix://");
    reveal_strlit("tcp://");
    let (u, t) = ("unix://"@, "tcp://"@);
    assert(u[0] != t[0]);
    if endpoint@ == u + rest && rest.len() > 0 {
        assert(endpoint@.subrange(0, 7) =~= u);
        assert(endpoint@.skip(7) =~= rest);
        assert(endpoint@.len() > u.len());
    }
    if endpoint@ == t + rest && rest.len() > 0 {
        assert(endpoint@.subrange(0, 6) =~= t);
        assert(endpoint@.skip(6) =~= rest);
        assert(endpoint@.len() > t.len());
        if u.is_prefix_of(endpoint@) {
            assert(endpoint@.subrange(0, 7)[0] == endpoint@[0]);
        }
    }
    if endpoint@ == t {
        if u.is_prefix_of(endpoint@) {
            assert(endpoint@.subrange(0, 7)[0] == endpoint@[0]);
        }
    }
}

/// A module needs what it reads: the trees of the host that its plugin looks at, and the
/// daemon where it asks one.
pub proof fn law_a_module_needs_what_it_reads(m: Module, c: Config)
    ensures
        m == Module::System ==> m.needs(c).host_paths == seq!["proc"@, "var"@],
        m == Module::DiskIo ==> m.needs(c).host_paths == seq!["proc"@, "sys"@],
        m == Module::Updates ==> m.needs(c).host_paths == seq!["var"@, "etc"@, "usr"@],
        m == Module::Cpu || m == Module::Memory || m == Module::Load || m == Module::Swap || m
            == Module::Processes || m == Module::Disks || m == Module::Network ==> m.needs(
            c,
        ).host_paths == seq!["proc"@],
        m.needs(c).debian_family_only <==> m == Module::Updates,
        m != Module::Docker && m != Module::ImageUpdates ==> m.needs(c).endpoints.len() == 0
            && m.needs(c).absolute_paths.len() == 0,
{
}

/// The modules that ask a daemon need the endpoint that is configured for them, with its
/// own timeout, and the socket file where it is a socket.
pub proof fn law_a_daemon_is_needed_where_it_is_asked(c: Config, path: Seq<char>)
    requires
        path.len() > 0,
    ensures
        c.modules.docker.endpoint@ == "unix://"@ + path ==> {
            &&& Module::Docker.needs(c).absolute_paths == seq![path]
            &&& Module::Docker.needs(c).endpoints == seq![
                (Reach::UnixSocket(path), c.modules.docker.timeout),
            ]
        },
        c.modules.image_updates.endpoint@ == "unix://"@ + path ==> {
            &&& Module::ImageUpdates.needs(c).absolute_paths == seq![path]
            &&& Module::ImageUpdates.needs(c).endpoints == seq![
                (Reach::UnixSocket(path), c.modules.image_updates.timeout),
            ]
        },
        c.modules.docker.endpoint@ == "tcp://"@ + path ==> {
            &&& Module::Docker.needs(c).absolute_paths.len() == 0
            &&& Module::Docker.needs(c).endpoints == seq![
                (Reach::Tcp(path), c.modules.docker.timeout),
            ]
        },
{
    lemma_endpoint(c.modules.docker.endpoint@, path);
    lemma_endpoint(c.modules.image_updates.endpoint@, path);
}

proof fn lemma_endpoint(endpoint: Seq<char>, path: Seq<char>)
    requires
        path.len() > 0,
    ensures
        endpoint == "unix://"@ + path ==> crate::modules::inputs::endpoint_of(endpoint) == Some(
            Reach::UnixSocket(path),
        ),
        endpoint == "tcp://"@ + path ==> crate::modules::inputs::endpoint_of(endpoint) == Some(
            Reach::Tcp(path),
        ),
{
    reveal_strlit("unix://");
    reveal_strlit("tcp://");
    let (u, t) = ("unix://"@, "tcp://"@);
    if endpoint == u + path {
        assert(endpoint.subrange(0, 7) =~= u);
        assert(endpoint.skip(7) =~= path);
    }
    if endpoint == t + path {
        assert(endpoint.subrange(0, 6) =~= t);
        assert(endpoint.skip(6) =~= path);
        if u.is_prefix_of(endpoint) {
            assert(endpoint.subrange(0, 7)[0] == endpoint[0]);
        }
    }
}

/// The files that are looked at are those of the outputs that are on.
pub proof fn law_only_enabled_outputs_are_looked_at(cfg: &ConfigV1, r: References)
    requires
        call_ensures(references, (cfg,), r),
    ensures
        cfg.outputs.influxdb.enabled ==> text::texts(r.files@).contains(
            cfg.outputs.influxdb.token_file@,
        ),
        !cfg.outputs.influxdb.enabled && !cfg.outputs.prometheus.enabled ==> r.files@.len() == 0,
        text::texts(r.addresses@) == seq![cfg.health.listen@, cfg.outputs.prometheus.listen@],
{
    let all = text::texts(r.files@);
    assert(all.len() == r.files@.len());
    if cfg.outputs.influxdb.enabled {
        assert(all[0] == cfg.outputs.influxdb.token_file@);
    }
}

// ---------------------------------------------------------------------------
// The image check
// ---------------------------------------------------------------------------

/// A container whose reference has a tag is judged by two answers: what the daemon says of
/// the image the container runs, asked by its ID, and what its repository and tag resolve
/// to. It is up to date exactly if the two digests are the same.
pub proof fn law_a_container_is_judged_by_what_it_runs<A: DockerApi>(
    api: &A,
    c: Container,
    repo: Seq<char>,
    tag: Seq<char>,
    r: ContainerCheck,
)
    requires
        call_ensures(check_one::<A>, (api, c), r),
        split(c.image_reference@) == Some((repo, tag)),
        c.image_reference@ != c.image_id@,
        !"sha256:"@.is_prefix_of(c.image_reference@),
    ensures
        r.name@ == c.name@,
        r.image@ == c.image_reference@,
        exists|id: &str, d: Result<Vec<String>, String>|
            {
                &&& id@ == c.image_id@
                &&& #[trigger] call_ensures(A::repo_digests, (api, id), d)
                &&& match d {
                    Err(_) => r.outcome == Err::<bool, ContainerReason>(
                        ContainerReason::ImageInspectFailed,
                    ),
                    Ok(list) => match digest_for(text::texts(list@), repo, 0) {
                        None => r.outcome is Err,
                        Some(local) => exists|reference: &str, m: Result<String, String>|
                            {
                                &&& reference@ == repo + ":"@ + tag
                                &&& #[trigger] call_ensures(A::remote_digest, (api, reference), m)
                                &&& match m {
                                    Err(_) => r.outcome == Err::<bool, ContainerReason>(
                                        ContainerReason::DistributionQueryFailed,
                                    ),
                                    Ok(now) => r.outcome == Ok::<bool, ContainerReason>(
                                        local != now@,
                                    ),
                                }
                            },
                    },
                }
            },
{
    let image = c.image_reference@;
    assert(!settled(image, c.image_id@));
    let d = choose|d: Result<Vec<String>, String>|
        #[trigger] inspects(api, c.image_id@, d) && if comparable(image, listed(d)) {
            exists|m: Result<String, String>| #[trigger]
                resolves(api, resolvable(image), m) && r.judges(c, listed(d), said(m))
        } else {
            forall|m| #[trigger] r.judges(c, listed(d), m)
        };
    let id = choose|id: &str|
        id@ == c.image_id@ && #[trigger] call_ensures(A::repo_digests, (api, id), d);
    if comparable(image, listed(d)) {
        let m = choose|m: Result<String, String>| #[trigger]
            resolves(api, resolvable(image), m) && r.judges(c, listed(d), said(m));
        let reference = choose|reference: &str|
            reference@ == resolvable(image) && #[trigger] call_ensures(
                A::remote_digest,
                (api, reference),
                m,
            );
        assert(reference@ == repo + ":"@ + tag);
        assert(r.judges(c, listed(d), said(m)));
        assert(call_ensures(A::remote_digest, (api, reference), m));
    } else {
        let any: Result<Seq<char>, Seq<char>> = Err(Seq::empty());
        assert(r.judges(c, listed(d), any));
    }
    assert(call_ensures(A::repo_digests, (api, id), d));
}

/// A container is left out for want of time exactly if the run had taken its budget when
/// its turn came.
pub proof fn law_only_a_spent_budget_leaves_a_container_out<A: DockerApi>(
    api: &A,
    budget: ConfigDuration,
    included: &Vec<String>,
    excluded: &Vec<String>,
    r: Report,
    i: int,
)
    requires
        call_ensures(run::<A>, (api, budget, included, excluded), r),
        r.daemon_outcome is Ok,
        0 <= i < r.containers@.len(),
        budget.wf(),
    ensures
        exists|started: std::time::Instant, t: ConfigDuration|
            {
                &&& #[trigger] clock::present(started)
                &&& #[trigger] clock::reading(started, t)
                &&& r.containers@[i].outcome == Err::<bool, ContainerReason>(
                    ContainerReason::BudgetExceeded,
                ) <==> !(t.secs < budget.secs || (t.secs == budget.secs && t.nanos < budget.nanos))
            },
{
    let (list, started) = choose|list: Vec<Container>, started: std::time::Instant|
        {
            &&& #[trigger] lists(api, Ok(list))
            &&& #[trigger] clock::present(started)
            &&& covers(
                api,
                r.containers@,
                admitted(
                    list@,
                    text::texts(included@),
                    text::texts(excluded@),
                    list@.len() as int,
                ),
                started,
                budget,
            )
        };
    let kept = admitted(
        list@,
        text::texts(included@),
        text::texts(excluded@),
        list@.len() as int,
    );
    let c = kept[i];
    let check = r.containers@[i];
    assert(timely(api, check, c, started, budget));
    let t = choose|t: ConfigDuration| #[trigger]
        clock::reading(started, t) && check.befits(api, c, t, budget);
    if t.below(budget) {
        lemma_answers(api, check, c);
    }
    assert(clock::present(started) && clock::reading(started, t));
}

proof fn lemma_answers<A: DockerApi>(api: &A, check: ContainerCheck, c: Container)
    requires
        check.answers(api, c),
    ensures
        check.outcome != Err::<bool, ContainerReason>(ContainerReason::BudgetExceeded),
{
    let none: Result<Seq<Seq<char>>, Seq<char>> = Err(Seq::empty());
    let any: Result<Seq<char>, Seq<char>> = Err(Seq::empty());
    if settled(c.image_reference@, c.image_id@) {
        assert(check.judges(c, none, any));
    } else {
        let d = choose|d: Result<Vec<String>, String>|
            #[trigger] inspects(api, c.image_id@, d) && if comparable(
                c.image_reference@,
                listed(d),
            ) {
                exists|m: Result<String, String>| #[trigger]
                    resolves(api, resolvable(c.image_reference@), m) && check.judges(
                        c,
                        listed(d),
                        said(m),
                    )
            } else {
                forall|m| #[trigger] check.judges(c, listed(d), m)
            };
        if comparable(c.image_reference@, listed(d)) {
            let m = choose|m: Result<String, String>| #[trigger]
                resolves(api, resolvable(c.image_reference@), m) && check.judges(
                    c,
                    listed(d),
                    said(m),
                );
            assert(check.judges(c, listed(d), said(m)));
        } else {
            assert(check.judges(c, listed(d), any));
        }
    }
}

/// Every reason is told by the token that says what it is.
pub proof fn law_a_container_reason_is_told_by_its_token(reason: ContainerReason, r: &'static str)
    requires
        call_ensures(ContainerReason::as_str, (reason,), r),
    ensures
        reason == ContainerReason::DigestPinnedReference ==> r@ == "digest_pinned_reference"@,
        reason == ContainerReason::ImageIdReference ==> r@ == "image_id_reference"@,
        reason == ContainerReason::NoRepoDigest ==> r@ == "no_repo_digest"@,
        reason == ContainerReason::NoMatchingRepoDigest ==> r@ == "no_matching_repo_digest"@,
        reason == ContainerReason::ImageInspectFailed ==> r@ == "image_inspect_failed"@,
        reason == ContainerReason::DistributionQueryFailed ==> r@ == "distribution_query_failed"@,
        reason == ContainerReason::BudgetExceeded ==> r@ == "budget_exceeded"@,
{
}

// ---------------------------------------------------------------------------
// Replies
// ---------------------------------------------------------------------------

/// A reply is read as it is written: an object with the value of every key, an array with
/// its items in their order, a string as its text.
pub proof fn law_a_reply_is_read_as_it_is_written(raw: Seq<u8>, depth: nat, i: int)
    requires
        depth > 0,
    ensures
        json_members(raw) matches Ok(list) ==> (json_tree(raw, depth) matches Node::Table(entries)
            && entries.len() == list.len() && (0 <= i < list.len() ==> entries[i] == (
            Node::Text(list[i].0),
            json_tree(list[i].1, (depth - 1) as nat),
        ))),
        json_members(raw) is Err ==> (json_items(raw) matches Ok(list) ==> (json_tree(raw, depth)
            matches Node::List(items) && items.len() == list.len() && (0 <= i < list.len()
            ==> items[i] == json_tree(list[i], (depth - 1) as nat)))),
        json_members(raw) is Err && json_items(raw) is Err ==> (json_text(raw) matches Ok(s)
            ==> json_tree(raw, depth) == Node::Text(s)),
{
}

/// A reply that is no JSON is refused with what is wrong with it.
pub proof fn law_only_json_is_read(bytes: &Vec<u8>, r: Result<Yaml, String>)
    requires
        call_ensures(read_json, (bytes,), r),
    ensures
        r is Ok <==> json_value(bytes@) is Ok,
        r matches Err(m) ==> json_value(bytes@) == Err::<Seq<u8>, Seq<char>>(m@),
        r matches Ok(y) ==> (json_value(bytes@) matches Ok(raw) && y@ == json_tree(raw, 4)),
{
}

// ---------------------------------------------------------------------------
// The accept loop
// ---------------------------------------------------------------------------

/// Nothing but shutdown, or the end of the slots, stops the loop: a failed accept does not,
/// and a connection is served only once a peer was accepted with a slot in hand.
pub proof fn law_only_shutdown_stops_the_loop(waiting: Waiting, event: Event, r: Action)
    requires
        call_ensures(next, (waiting, event), r),
    ensures
        r == Action::Stop <==> event == Event::Shutdown || (waiting == Waiting::Slot && event
            == Event::SlotsClosed),
        r == Action::Serve <==> waiting == Waiting::Peer && event == Event::Accepted,
        r == Action::Accept <==> waiting == Waiting::Slot && event == Event::SlotTaken,
{
}

/// The listener's limits are those that are documented.
pub proof fn law_the_limits_of_the_listener()
    ensures
        crate::health::serve::MAX_CONNECTIONS == 256,
        crate::health::serve::HEADER_READ_TIMEOUT_SECS == 10,
        crate::health::serve::DRAIN_TIMEOUT_SECS == 2,
{
}

} // verus!
