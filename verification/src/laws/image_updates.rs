//! What the check for newer images reports, and for which containers.

use vstd::prelude::*;
use vstd::string::*;
use crate::clock;
use crate::duration::ConfigDuration;
use crate::laws::text::{
    law_the_first_of_a_character, law_the_last_of_a_character, lemma_assoc, lemma_occurs_within,
    lemma_part_occurs, lemma_tail,
};
use crate::modules::image_updates::check::{
    admitted, any_matches, digest_for, escape_tag, glob, glob_match, judge, normalized,
    passes_filters, run, split, split_reference, tag_char, tag_text, ContainerCheck,
    ContainerReason, DaemonReason, Report,
};
use crate::modules::image_updates::docker_api::{Container, DockerApi};
use crate::modules::image_updates::{budget, exec_timeout, half};
use crate::text;

verus! {

// ---------------------------------------------------------------------------
// Patterns
// ---------------------------------------------------------------------------

/// A pattern matches what its parts match, one behind the other.
pub proof fn law_a_pattern_matches_by_its_parts(p: Seq<char>, q: Seq<char>, t: Seq<char>)
    ensures
        glob(p + q, t) <==> exists|k: int|
            0 <= k <= t.len() && glob(p, #[trigger] t.take(k)) && glob(q, t.skip(k)),
    decreases p.len() + t.len(),
{
    let pq = p + q;
    if p.len() == 0 {
        assert(pq =~= q);
        assert(t.skip(0) =~= t);
        assert(t.take(0).len() == 0);
        if glob(q, t) {
            assert(glob(p, t.take(0)) && glob(q, t.skip(0)));
        }
        assert forall|k: int|
            0 <= k <= t.len() && glob(p, #[trigger] t.take(k)) && glob(q, t.skip(k)) implies glob(
            pq,
            t,
        ) by {
            assert(t.take(k).len() == k);
        }
    } else {
        assert(pq[0] == p[0]);
        assert(pq.skip(1) =~= p.skip(1) + q);
        if p[0] == '*' {
            law_a_pattern_matches_by_its_parts(p.skip(1), q, t);
            if t.len() > 0 {
                law_a_pattern_matches_by_its_parts(p, q, t.skip(1));
            }
            if glob(pq, t) {
                if glob(pq.skip(1), t) {
                    let k = choose|k: int|
                        0 <= k <= t.len() && glob(p.skip(1), #[trigger] t.take(k)) && glob(
                            q,
                            t.skip(k),
                        );
                    assert(glob(p, t.take(k)) && glob(q, t.skip(k)));
                } else {
                    let u = t.skip(1);
                    let k = choose|k: int|
                        0 <= k <= u.len() && glob(p, #[trigger] u.take(k)) && glob(q, u.skip(k));
                    assert(t.take(k + 1).skip(1) =~= u.take(k));
                    assert(t.skip(k + 1) =~= u.skip(k));
                    assert(glob(p, t.take(k + 1)) && glob(q, t.skip(k + 1)));
                }
            }
            assert forall|k: int|
                0 <= k <= t.len() && glob(p, #[trigger] t.take(k)) && glob(
                    q,
                    t.skip(k),
                ) implies glob(pq, t) by {
                if glob(p.skip(1), t.take(k)) {
                    assert(glob(p.skip(1), t.take(k)) && glob(q, t.skip(k)));
                } else {
                    let u = t.skip(1);
                    assert(k > 0);
                    assert(t.take(k).skip(1) =~= u.take(k - 1));
                    assert(t.skip(k) =~= u.skip(k - 1));
                    assert(glob(p, u.take(k - 1)) && glob(q, u.skip(k - 1)));
                }
            }
        } else {
            if t.len() > 0 {
                law_a_pattern_matches_by_its_parts(p.skip(1), q, t.skip(1));
            }
            if glob(pq, t) {
                let u = t.skip(1);
                let k = choose|k: int|
                    0 <= k <= u.len() && glob(p.skip(1), #[trigger] u.take(k)) && glob(
                        q,
                        u.skip(k),
                    );
                assert(t.take(k + 1).skip(1) =~= u.take(k));
                assert(t.take(k + 1)[0] == t[0]);
                assert(t.skip(k + 1) =~= u.skip(k));
                assert(glob(p, t.take(k + 1)) && glob(q, t.skip(k + 1)));
            }
            assert forall|k: int|
                0 <= k <= t.len() && glob(p, #[trigger] t.take(k)) && glob(
                    q,
                    t.skip(k),
                ) implies glob(pq, t) by {
                let u = t.skip(1);
                assert(k > 0);
                assert(t.take(k).skip(1) =~= u.take(k - 1));
                assert(t.take(k)[0] == t[0]);
                assert(t.skip(k) =~= u.skip(k - 1));
                assert(glob(p.skip(1), u.take(k - 1)) && glob(q, u.skip(k - 1)));
            }
        }
    }
}

/// A star matches any text, a question mark any one character, anything else itself, and
/// an empty pattern nothing but the empty text.
pub proof fn law_one_character_of_a_pattern(c: char, t: Seq<char>)
    ensures
        glob(seq!['*'], t),
        glob(seq!['?'], t) <==> t.len() == 1,
        c != '*' && c != '?' ==> (glob(seq![c], t) <==> t == seq![c]),
        glob(Seq::<char>::empty(), t) <==> t.len() == 0,
{
    crate::modules::image_updates::check::law_a_lone_star_matches_everything(t);
    reveal_strlit("*");
    assert(seq!['*'] =~= "*"@);
    assert(seq!['?'].skip(1) =~= Seq::<char>::empty());
    assert(seq![c].skip(1) =~= Seq::<char>::empty());
    if t.len() > 0 {
        assert(t.skip(1).len() == t.len() - 1);
        assert(glob(Seq::<char>::empty(), t.skip(1)) <==> t.skip(1).len() == 0);
        assert(glob(seq!['?'].skip(1), t.skip(1)) <==> t.skip(1).len() == 0);
        assert(glob(seq![c].skip(1), t.skip(1)) <==> t.skip(1).len() == 0);
        if t.len() == 1 {
            assert(t =~= seq![t[0]]);
        }
    }
    if c != '*' && c != '?' {
        if glob(seq![c], t) {
            assert(t =~= seq![c]);
        }
    }
}

/// A pattern with one star in it matches exactly the texts that start and end so.
pub proof fn law_a_star_stands_for_what_is_between(
    a: Seq<char>,
    x: Seq<char>,
    b: Seq<char>,
    pattern: &str,
    name: &str,
    r: bool,
)
    requires
        call_ensures(glob_match, (pattern, name), r),
        pattern@ == a + seq!['*'] + b,
        name@ == a + x + b,
        forall|i: int| 0 <= i < a.len() ==> #[trigger] a[i] != '*',
        forall|i: int| 0 <= i < b.len() ==> #[trigger] b[i] != '*',
    ensures
        r,
{
    let t = name@;
    lemma_matches_itself(a);
    lemma_matches_itself(b);
    law_one_character_of_a_pattern('a', x);
    law_a_pattern_matches_by_its_parts(seq!['*'], b, x + b);
    assert((x + b).take(x.len() as int) =~= x);
    assert((x + b).skip(x.len() as int) =~= b);
    assert(glob(seq!['*'] + b, x + b));
    law_a_pattern_matches_by_its_parts(a, seq!['*'] + b, t);
    assert(t.take(a.len() as int) =~= a);
    assert(t.skip(a.len() as int) =~= x + b);
    assert(a + (seq!['*'] + b) =~= pattern@);
}

proof fn lemma_matches_itself(p: Seq<char>)
    requires
        forall|i: int| 0 <= i < p.len() ==> #[trigger] p[i] != '*',
    ensures
        glob(p, p),
    decreases p.len(),
{
    if p.len() > 0 {
        assert forall|i: int| 0 <= i < p.skip(1).len() implies #[trigger] p.skip(1)[i] != '*' by {
            assert(p.skip(1)[i] == p[i + 1]);
        }
        lemma_matches_itself(p.skip(1));
    }
}

// ---------------------------------------------------------------------------
// Filters
// ---------------------------------------------------------------------------

/// Whether a name matches one of the patterns.
pub open spec fn matches_one(patterns: Seq<String>, name: Seq<char>) -> bool {
    exists|i: int| 0 <= i < patterns.len() && glob((#[trigger] patterns[i])@, name)
}

proof fn lemma_matches_one(patterns: Seq<String>, name: Seq<char>)
    ensures
        matches_one(patterns, name) == any_matches(text::texts(patterns), name),
{
    let all = text::texts(patterns);
    assert(all.len() == patterns.len());
    if matches_one(patterns, name) {
        let i = choose|i: int| 0 <= i < patterns.len() && glob((#[trigger] patterns[i])@, name);
        assert(all[i] == patterns[i]@);
    }
    if any_matches(all, name) {
        let i = choose|i: int| 0 <= i < all.len() && glob(#[trigger] all[i], name);
        assert(all[i] == patterns[i]@);
    }
}

/// A name is admitted exactly if no exclusion matches it and, where there is a list of
/// inclusions, one of them does: what is excluded stays out whatever is included.
pub proof fn law_exclusions_always_apply(
    name: &str,
    included: &Vec<String>,
    excluded: &Vec<String>,
    r: bool,
)
    requires
        call_ensures(passes_filters, (name, included, excluded), r),
    ensures
        matches_one(excluded@, name@) ==> !r,
        included@.len() > 0 && !matches_one(included@, name@) ==> !r,
        !matches_one(excluded@, name@) && (included@.len() == 0 || matches_one(included@, name@))
            ==> r,
{
    lemma_matches_one(included@, name@);
    lemma_matches_one(excluded@, name@);
    assert(text::texts(included@).len() == included@.len());
}

/// Exactly the containers that are admitted are checked, each once and in their order;
/// none that is excluded is among them.
pub proof fn law_the_admitted_containers(
    list: Seq<Container>,
    included: Seq<Seq<char>>,
    excluded: Seq<Seq<char>>,
    n: int,
)
    requires
        0 <= n <= list.len(),
    ensures
        forall|i: int|
            0 <= i < admitted(list, included, excluded, n).len() ==> {
                &&& !any_matches(
                    excluded,
                    (#[trigger] admitted(list, included, excluded, n)[i]).name@,
                )
                &&& included.len() == 0 || any_matches(
                    included,
                    admitted(list, included, excluded, n)[i].name@,
                )
            },
        forall|k: int|
            0 <= k < n && !any_matches(excluded, list[k].name@) && (included.len() == 0
                || any_matches(included, list[k].name@)) ==> admitted(list, included, excluded, n).contains(
                #[trigger] list[k],
            ),
        n > 0 ==> admitted(list, included, excluded, n) == (if !any_matches(
            excluded,
            list[n - 1].name@,
        ) && (included.len() == 0 || any_matches(included, list[n - 1].name@)) {
            admitted(list, included, excluded, n - 1).push(list[n - 1])
        } else {
            admitted(list, included, excluded, n - 1)
        }),
    decreases n,
{
    if n > 0 {
        law_the_admitted_containers(list, included, excluded, n - 1);
        let rest = admitted(list, included, excluded, n - 1);
        let all = admitted(list, included, excluded, n);
        assert forall|k: int|
            0 <= k < n && !any_matches(excluded, list[k].name@) && (included.len() == 0
                || any_matches(included, list[k].name@)) implies all.contains(#[trigger] list[k]) by {
            if k < n - 1 {
                assert(rest.contains(list[k]));
                let j = choose|j: int| 0 <= j < rest.len() && rest[j] == list[k];
                assert(all[j] == list[k]);
            } else {
                assert(all[rest.len() as int] == list[k]);
            }
        }
    }
}

/// A run reports on exactly the admitted containers: one check for each, under its name
/// and image, in their order, and counts them.
pub proof fn law_a_run_reports_on_the_admitted<A: DockerApi>(
    api: &A,
    budget: ConfigDuration,
    included: &Vec<String>,
    excluded: &Vec<String>,
    r: Report,
)
    requires
        call_ensures(run::<A>, (api, budget, included, excluded), r),
    ensures
        r.daemon_outcome matches Ok(count) ==> {
            &&& count == r.containers@.len()
            &&& exists|list: Vec<Container>|
                {
                    &&& #[trigger] call_ensures(
                        A::list_running_containers,
                        (api,),
                        Ok::<Vec<Container>, String>(list),
                    )
                    &&& ({
                        let kept = admitted(
                            list@,
                            text::texts(included@),
                            text::texts(excluded@),
                            list@.len() as int,
                        );
                        &&& r.containers@.len() == kept.len()
                        &&& forall|i: int|
                            0 <= i < kept.len() ==> (#[trigger] r.containers@[i]).name@
                                == kept[i].name@ && r.containers@[i].image@
                                == kept[i].image_reference@
                    })
                }
        },
        r.daemon_outcome matches Err(reason) ==> {
            &&& reason == DaemonReason::DockerUnreachable
            &&& r.containers@.len() == 0
            &&& r.detail matches Some(e) && call_ensures(
                A::list_running_containers,
                (api,),
                Err::<Vec<Container>, String>(e),
            )
        },
{
    if let Ok(count) = r.daemon_outcome {
        let (list, started) = choose|list: Vec<Container>, started: std::time::Instant|
            {
                &&& #[trigger] crate::modules::image_updates::check::lists(api, Ok(list))
                &&& #[trigger] clock::present(started)
                &&& crate::modules::image_updates::check::covers(
                    api,
                    r.containers@,
                    admitted(
                        list@,
                        text::texts(included@),
                        text::texts(excluded@),
                        list@.len() as int,
                    ),
                    started,
                    budget,
                )
            };
        let kept = admitted(
            list@,
            text::texts(included@),
            text::texts(excluded@),
            list@.len() as int,
        );
        assert forall|i: int| 0 <= i < kept.len() implies (#[trigger] r.containers@[i]).name@
            == kept[i].name@ && r.containers@[i].image@ == kept[i].image_reference@ by {
            assert(crate::modules::image_updates::check::timely(
                api,
                r.containers@[i],
                kept[i],
                started,
                budget,
            ));
        }
        assert(call_ensures(
            A::list_running_containers,
            (api,),
            Ok::<Vec<Container>, String>(list),
        ));
    }
}

// ---------------------------------------------------------------------------
// References
// ---------------------------------------------------------------------------

/// A reference is its repository and its tag: what stands behind the last colon, unless
/// that is a port; `latest` where there is none. One with a digest has no tag.
pub proof fn law_a_reference_is_repository_and_tag(
    repo: Seq<char>,
    tag: Seq<char>,
    image: &str,
    r: Option<(String, String)>,
)
    requires
        call_ensures(split_reference, (image,), r),
    ensures
        image@ == repo + ":"@ + tag && !repo.contains('@') && !tag.contains('@') && !tag.contains(
            '/',
        ) && !tag.contains(':') ==> (r matches Some((a, b)) && a@ == repo && b@ == tag),
        image@ == repo && !repo.contains('@') && !repo.contains(':') ==> (r matches Some((a, b)) && a@
            == repo && b@ == "latest"@),
        image@.contains('@') ==> r is None,
{
    reveal_strlit(":");
    assert(":"@ =~= seq![':']);
    if image@ == repo + ":"@ + tag && !repo.contains('@') && !tag.contains('@') && !tag.contains(
        '/',
    ) && !tag.contains(':') {
        let s = image@;
        law_the_last_of_a_character(repo, ':', tag);
        text::lemma_last_position(s, '/');
        let k = text::last_position(s, '/');
        if k > repo.len() {
            assert(tag[k - repo.len() - 1] == '/');
        }
        if k == repo.len() {
            assert(s[k] == ':');
        }
        assert(!s.contains('@')) by {
            if s.contains('@') {
                let j = choose|j: int| 0 <= j < s.len() && s[j] == '@';
                if j < repo.len() {
                    assert(repo[j] == '@');
                } else if j > repo.len() {
                    assert(tag[j - repo.len() - 1] == '@');
                }
            }
        }
        assert(s.take(repo.len() as int) =~= repo);
        assert(s.skip(repo.len() as int + 1) =~= tag);
    }
    if image@ == repo && !repo.contains('@') && !repo.contains(':') {
        law_the_last_of_a_character(Seq::empty(), ':', repo);
        text::lemma_last_position(repo, '/');
    }
}

/// A repository on Docker Hub is the same however it is spelled: without a registry, with
/// the registry, and with `library` where it has no owner. Any other registry stays.
pub proof fn law_one_repository_has_one_spelling(name: Seq<char>, owner: Seq<char>, host: Seq<char>)
    requires
        name.len() > 0,
        !name.contains('/'),
        !name.contains('.'),
        !name.contains(':'),
        name != "localhost"@,
        !owner.contains('/'),
        !owner.contains('.'),
        !owner.contains(':'),
        owner != "localhost"@,
        !host.contains('/'),
        host.contains('.') || host.contains(':') || host == "localhost"@,
        host != "docker.io"@,
        host != "index.docker.io"@,
    ensures
        normalized(name) == "docker.io/library/"@ + name,
        normalized(owner + "/"@ + name) == "docker.io/"@ + (owner + "/"@ + name),
        normalized(host + "/"@ + name) == host + "/"@ + name,
        normalized("docker.io"@ + "/"@ + name) == "docker.io/library/"@ + name,
        normalized("docker.io"@ + "/"@ + (owner + "/"@ + name)) == "docker.io/"@ + (owner + "/"@
            + name),
        normalized("index.docker.io"@ + "/"@ + name) == "docker.io/library/"@ + name,
{
    let index = "index.docker.io"@;
    reveal_strlit("index.docker.io");
    assert(!index.contains('/'));
    assert(index[5] == '.');
    assert(index.contains('.'));
    law_the_first_of_a_character(index, '/', name);
    let f = index + seq!['/'] + name;
    assert(f.take(index.len() as int) =~= index);
    assert(f.skip(index.len() as int + 1) =~= name);

    reveal_strlit("/");
    assert("/"@ =~= seq!['/']);
    reveal_strlit("docker.io");
    law_the_first_of_a_character(name, '/', Seq::empty());
    law_the_first_of_a_character(owner, '/', name);
    law_the_first_of_a_character(host, '/', name);
    let hub = "docker.io"@;
    assert(!hub.contains('/'));
    assert(hub[6] == '.');
    assert(hub.contains('.'));
    let rest = owner + "/"@ + name;
    law_the_first_of_a_character(hub, '/', name);
    law_the_first_of_a_character(hub, '/', rest);
    let a = owner + "/"@ + name;
    assert(a =~= owner + seq!['/'] + name);
    assert(a.take(owner.len() as int) =~= owner);
    let b = host + "/"@ + name;
    assert(b =~= host + seq!['/'] + name);
    assert(b.take(host.len() as int) =~= host);
    assert(b.skip(host.len() as int + 1) =~= name);
    let c = hub + "/"@ + name;
    assert(c =~= hub + seq!['/'] + name);
    assert(c.take(hub.len() as int) =~= hub);
    assert(c.skip(hub.len() as int + 1) =~= name);
    let d = hub + "/"@ + rest;
    assert(d =~= hub + seq!['/'] + rest);
    assert(d.take(hub.len() as int) =~= hub);
    assert(d.skip(hub.len() as int + 1) =~= rest);
    assert(rest[owner.len() as int] == '/');
    assert(rest.contains('/'));
}

proof fn lemma_digest_skips(digests: Seq<Seq<char>>, repo: Seq<char>, i: int, k: int)
    requires
        0 <= i <= k <= digests.len(),
        forall|j: int|
            i <= j < k ==> {
                let at = text::before_char(#[trigger] digests[j], '@') as int;
                at >= digests[j].len() || normalized(digests[j].take(at)) != normalized(repo)
            },
    ensures
        digest_for(digests, repo, i) == digest_for(digests, repo, k),
    decreases k - i,
{
    if i < k {
        let at = text::before_char(digests[i], '@') as int;
        assert(at >= digests[i].len() || normalized(digests[i].take(at)) != normalized(repo));
        lemma_digest_skips(digests, repo, i + 1, k);
    }
}

/// The digest of an image is the one recorded for its own repository, wherever in the
/// list it stands.
pub proof fn law_the_digest_is_that_of_the_repository(
    digests: Seq<Seq<char>>,
    repo: Seq<char>,
    k: int,
    name: Seq<char>,
    digest: Seq<char>,
)
    requires
        0 <= k < digests.len(),
        digests[k] == name + "@"@ + digest,
        !name.contains('@'),
        normalized(name) == normalized(repo),
        forall|j: int|
            0 <= j < k ==> {
                let at = text::before_char(#[trigger] digests[j], '@') as int;
                at >= digests[j].len() || normalized(digests[j].take(at)) != normalized(repo)
            },
    ensures
        digest_for(digests, repo, 0) == Some(digest),
{
    lemma_digest_skips(digests, repo, 0, k);
    reveal_strlit("@");
    assert("@"@ =~= seq!['@']);
    law_the_first_of_a_character(name, '@', digest);
    let d = digests[k];
    assert(d.take(name.len() as int) =~= name);
    assert(d.skip(name.len() as int + 1) =~= digest);
}

/// An update is available exactly if the registry's digest for the tag differs from the
/// one the container runs; anything that keeps the two from being known is its reason.
pub proof fn law_the_verdict_compares_the_digests(
    container: &Container,
    digests: &Result<Vec<String>, String>,
    remote: &Result<String, String>,
    r: (Result<bool, ContainerReason>, Option<String>),
    local: Option<String>,
)
    requires
        call_ensures(judge, (container, digests, remote), r),
        match (split(container.image_reference@), *digests) {
            (Some((repo, _)), Ok(list)) => text::optional(local) == digest_for(
                text::texts(list@),
                repo,
                0,
            ),
            _ => true,
        },
    ensures
        ({
            let image = container.image_reference@;
            let id = image == container.image_id@ || "sha256:"@.is_prefix_of(image);
            &&& id ==> r.0 == Err::<bool, ContainerReason>(ContainerReason::ImageIdReference)
            &&& !id && image.contains('@') ==> r.0 == Err::<bool, ContainerReason>(
                ContainerReason::DigestPinnedReference,
            )
            &&& !id && !image.contains('@') ==> match *digests {
                Err(e) => r.0 == Err::<bool, ContainerReason>(ContainerReason::ImageInspectFailed)
                    && (r.1 matches Some(d) && d@ == e@),
                Ok(list) => match local {
                    None => r.0 == Err::<bool, ContainerReason>(
                        if list@.len() == 0 {
                            ContainerReason::NoRepoDigest
                        } else {
                            ContainerReason::NoMatchingRepoDigest
                        },
                    ),
                    Some(l) => match *remote {
                        Err(e) => r.0 == Err::<bool, ContainerReason>(
                            ContainerReason::DistributionQueryFailed,
                        ) && (r.1 matches Some(d) && d@ == e@),
                        Ok(m) => r.0 == Ok::<bool, ContainerReason>(l@ != m@) && r.1 is None,
                    },
                },
            }
        }),
{
    if let Ok(list) = *digests {
        assert(text::texts(list@).len() == list@.len());
    }
}

// ---------------------------------------------------------------------------
// The report
// ---------------------------------------------------------------------------

proof fn lemma_tag_parts(a: Seq<char>, b: Seq<char>)
    ensures
        tag_text(a + b) == tag_text(a) + tag_text(b),
    decreases b.len(),
{
    if b.len() == 0 {
        assert(a + b =~= a);
        assert(tag_text(a) + tag_text(b) =~= tag_text(a));
    } else {
        lemma_tag_parts(a, b.drop_last());
        assert((a + b).drop_last() =~= a + b.drop_last());
        assert((a + b).last() == b.last());
        assert(tag_text(a + b) =~= tag_text(a) + tag_text(b));
    }
}

/// A tag value is escaped character by character: the delimiters behind a backslash, a
/// control character as an underscore, anything else as it is.
pub proof fn law_tags_are_escaped_by_character(a: Seq<char>, c: char, b: Seq<char>, s: &str, r: String)
    requires
        call_ensures(escape_tag, (s,), r),
        s@ == a + seq![c] + b,
    ensures
        r@ == tag_text(a) + (if (c as u32) < 32 || 127 <= c as u32 <= 159 {
            seq!['_']
        } else if c == '\\' || c == ',' || c == '=' || c == ' ' {
            seq!['\\', c]
        } else {
            seq![c]
        }) + tag_text(b),
        tag_text(Seq::<char>::empty()) == Seq::<char>::empty(),
{
    lemma_tag_parts(a + seq![c], b);
    lemma_tag_parts(a, seq![c]);
    assert(seq![c].drop_last() =~= Seq::<char>::empty());
    assert(tag_text(seq![c].drop_last()) =~= Seq::<char>::empty());
    assert(seq![c].last() == c);
    assert(tag_text(seq![c]) =~= tag_char(c));
}

/// A container's lines name it and its image, and say whether an update is available, or
/// why that is not known.
pub proof fn law_a_container_line_says_what_was_found(c: &ContainerCheck, r: String)
    requires
        call_ensures(ContainerCheck::line_protocol, (c,), r),
    ensures
        ({
            let tags = "muninn_container_image_updates,container_name="@ + tag_text(c.name@)
                + ",image="@ + tag_text(c.image@);
            match c.outcome {
                Ok(available) => {
                    &&& available ==> text::occurs(r@, tags + " update_available=1i\n"@)
                    &&& !available ==> text::occurs(r@, tags + " update_available=0i\n"@)
                    &&& (tags
                        + ",status=ok,reason=none check_success=1i,check_timestamp_seconds="@
                        + text::decimal(c.at as nat) + "i\n"@).is_prefix_of(r@)
                },
                Err(reason) => text::occurs(
                    r@,
                    tags + ",status=error,reason="@ + reason.token()
                        + " check_success=0i,check_timestamp_seconds="@ + text::decimal(
                        c.at as nat,
                    ) + "i\n"@,
                ),
            }
        }),
{
    let none = Seq::<char>::empty();
    let tags = crate::modules::image_updates::check::container_tags(c.name@, c.image@);
    match c.outcome {
        Ok(available) => {
            let head = tags + ",status=ok,reason=none check_success=1i,check_timestamp_seconds="@
                + text::decimal(c.at as nat) + "i\n"@;
            let tail = if available {
                " update_available=1i\n"@
            } else {
                " update_available=0i\n"@
            };
            lemma_behind(head, tags, tail);
            lemma_assoc(head, tags, tail);
            lemma_prefix(head, tags + tail);
        },
        Err(reason) => {
            lemma_part_occurs(none, r@, none);
            assert(none + r@ + none =~= r@);
        },
    }
}

proof fn lemma_behind(head: Seq<char>, a: Seq<char>, b: Seq<char>)
    ensures
        text::occurs(head + a + b, a + b),
{
    lemma_assoc(head, a, b);
    lemma_tail(head, a + b);
}

proof fn lemma_all_lines(list: Seq<ContainerCheck>, n: int, i: int)
    requires
        0 <= i < n <= list.len(),
    ensures
        text::occurs(
            crate::modules::image_updates::check::all_lines(list, n),
            list[i].lines(),
        ),
    decreases n,
{
    let none = Seq::<char>::empty();
    let rest = crate::modules::image_updates::check::all_lines(list, n - 1);
    let last = list[n - 1].lines();
    if i == n - 1 {
        lemma_part_occurs(rest, last, none);
        assert(rest + last + none =~= rest + last);
    } else {
        lemma_all_lines(list, n - 1, i);
        lemma_occurs_within(none, rest, last, list[i].lines());
        assert(none + rest + last =~= rest + last);
    }
}

/// The report of a run that reached the daemon holds the lines of every container; that
/// of one that did not gives the reason and no container.
pub proof fn law_the_report_holds_every_container(report: &Report, r: String, i: int, line: String)
    requires
        call_ensures(Report::line_protocol, (report,), r),
    ensures
        report.daemon_outcome is Ok && 0 <= i < report.containers@.len() && call_ensures(
            ContainerCheck::line_protocol,
            (&report.containers@[i],),
            line,
        ) ==> text::occurs(r@, line@),
        report.daemon_outcome matches Ok(count) ==> ("muninn_image_updates,status=ok,reason=none check_success=1i,check_timestamp_seconds="@
            + text::decimal(report.at as nat) + "i,containers_checked="@ + text::decimal(
            count as nat,
        ) + "i\n"@).is_prefix_of(r@),
        report.daemon_outcome matches Err(reason) ==> r@
            == "muninn_image_updates,status=error,reason="@ + reason.token()
            + " check_success=0i,check_timestamp_seconds="@ + text::decimal(report.at as nat)
            + "i\n"@,
{
    if let Ok(count) = report.daemon_outcome {
        let head = "muninn_image_updates,status=ok,reason=none check_success=1i,check_timestamp_seconds="@
            + text::decimal(report.at as nat) + "i,containers_checked="@ + text::decimal(
            count as nat,
        ) + "i\n"@;
        let n = report.containers@.len() as int;
        let all = crate::modules::image_updates::check::all_lines(report.containers@, n);
        assert(r@ == head + all);
        lemma_prefix(head, all);
        if 0 <= i < n {
            lemma_all_lines(report.containers@, n, i);
            let none = Seq::<char>::empty();
            lemma_occurs_within(head, all, none, report.containers@[i].lines());
            assert(head + all + none =~= head + all);
        }
    }
}

proof fn lemma_prefix(a: Seq<char>, b: Seq<char>)
    ensures
        a.is_prefix_of(a + b),
{
    assert((a + b).subrange(0, a.len() as int) =~= a);
}

// ---------------------------------------------------------------------------
// Time
// ---------------------------------------------------------------------------

/// A duration in nanoseconds.
pub open spec fn nanos(d: ConfigDuration) -> int {
    d.secs as int * 1_000_000_000 + d.nanos as int
}

/// The budget is half the interval, but no more than five minutes, and Telegraf waits
/// fifteen seconds longer.
pub proof fn law_the_budget_is_half_the_interval(
    interval: ConfigDuration,
    b: ConfigDuration,
    t: ConfigDuration,
)
    requires
        call_ensures(budget, (interval,), b),
        call_ensures(exec_timeout, (interval,), t),
        interval.wf(),
    ensures
        nanos(b) == (if nanos(interval) / 2 < 300_000_000_000 {
            nanos(interval) / 2
        } else {
            300_000_000_000
        }),
        nanos(t) == nanos(b) + 15_000_000_000,
{
    let h = half(interval);
    let s = interval.secs as int;
    assert(s == 2 * (s / 2) + s % 2);
    assert(nanos(h) == nanos(interval) / 2);
}

/// One duration is below another exactly if it is shorter.
pub proof fn law_shorter_means_fewer_nanoseconds(a: &ConfigDuration, b: &ConfigDuration, r: bool)
    requires
        call_ensures(ConfigDuration::shorter_than, (a, b), r),
        a.wf(),
        b.wf(),
    ensures
        r <==> nanos(*a) < nanos(*b),
{
}

} // verus!
