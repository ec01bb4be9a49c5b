//! Whether a newer image is available, under the same tag, for each running
//! container.
//!
//! A container whose image was built locally, or whose registry cannot be
//! reached, does not report "up to date": it reports why it could not say.
//!
//! What is compared is content: the digest the tag resolves to on the registry
//! against the digest recorded when the container's image was pulled. The daemon
//! spells one repository in several ways, so both sides are normalised first.
//!
//! The check carries its own budget. Telegraf kills a helper that overruns, and a
//! killed helper reports nothing; here the containers not yet reached report
//! `budget_exceeded` and everything already determined is still emitted.

use vstd::prelude::*;
use vstd::string::*;
use crate::duration::ConfigDuration;
use crate::clock;
use crate::modules::image_updates::docker_api::{Client, Container, DockerApi};
use crate::modules::inputs::{endpoint_of, parse_docker_endpoint};
use crate::text;

verus! {

/// The measurement of the check that covers the whole daemon.
pub const MEASUREMENT_CHECK: &'static str = "muninn_image_updates";

/// The measurement of each container.
pub const MEASUREMENT_CONTAINER: &'static str = "muninn_container_image_updates";

/// Why the daemon-level part of the check could not produce an answer.
#[derive(Debug, Clone, Copy, PartialEq, Eq, Structural)]
pub enum DaemonReason {
    /// The endpoint was not `unix://...` or `tcp://...` with something behind the
    /// scheme.
    InvalidEndpoint,
    DockerUnreachable,
}

impl DaemonReason {
    pub open spec fn token(self) -> Seq<char> {
        match self {
            DaemonReason::InvalidEndpoint => "invalid_endpoint"@,
            DaemonReason::DockerUnreachable => "docker_unreachable"@,
        }
    }

    pub fn as_str(self) -> (r: &'static str)
        ensures
            r@ == self.token(),
    {
        match self {
            DaemonReason::InvalidEndpoint => "invalid_endpoint",
            DaemonReason::DockerUnreachable => "docker_unreachable",
        }
    }
}

/// Why one container's image could not be judged: a closed set of short tokens,
/// because this becomes a metric tag.
#[derive(Debug, Clone, Copy, PartialEq, Eq, Structural)]
pub enum ContainerReason {
    /// The reference is already pinned to a digest: there is no tag.
    DigestPinnedReference,
    /// The daemon reported an image ID where a reference belongs.
    ImageIdReference,
    /// The image was never pulled from, or pushed to, a registry.
    NoRepoDigest,
    /// The image has digests, but none for the repository of the tag.
    NoMatchingRepoDigest,
    /// The image could not be inspected.
    ImageInspectFailed,
    /// The daemon could not resolve the tag against the registry.
    DistributionQueryFailed,
    /// The check ran out of its budget before reaching this container.
    BudgetExceeded,
}

impl ContainerReason {
    pub open spec fn token(self) -> Seq<char> {
        match self {
            ContainerReason::DigestPinnedReference => "digest_pinned_reference"@,
            ContainerReason::ImageIdReference => "image_id_reference"@,
            ContainerReason::NoRepoDigest => "no_repo_digest"@,
            ContainerReason::NoMatchingRepoDigest => "no_matching_repo_digest"@,
            ContainerReason::ImageInspectFailed => "image_inspect_failed"@,
            ContainerReason::DistributionQueryFailed => "distribution_query_failed"@,
            ContainerReason::BudgetExceeded => "budget_exceeded"@,
        }
    }

    pub fn as_str(self) -> (r: &'static str)
        ensures
            r@ == self.token(),
    {
        match self {
            ContainerReason::DigestPinnedReference => "digest_pinned_reference",
            ContainerReason::ImageIdReference => "image_id_reference",
            ContainerReason::NoRepoDigest => "no_repo_digest",
            ContainerReason::NoMatchingRepoDigest => "no_matching_repo_digest",
            ContainerReason::ImageInspectFailed => "image_inspect_failed",
            ContainerReason::DistributionQueryFailed => "distribution_query_failed",
            ContainerReason::BudgetExceeded => "budget_exceeded",
        }
    }

    /// Every reason.
    pub fn all() -> (r: Vec<ContainerReason>)
        ensures
            r@ == container_reasons(),
    {
        let mut out: Vec<ContainerReason> = Vec::new();
        out.push(ContainerReason::DigestPinnedReference);
        out.push(ContainerReason::ImageIdReference);
        out.push(ContainerReason::NoRepoDigest);
        out.push(ContainerReason::NoMatchingRepoDigest);
        out.push(ContainerReason::ImageInspectFailed);
        out.push(ContainerReason::DistributionQueryFailed);
        out.push(ContainerReason::BudgetExceeded);
        out
    }
}

/// Every reason, in order.
pub open spec fn container_reasons() -> Seq<ContainerReason> {
    seq![
        ContainerReason::DigestPinnedReference,
        ContainerReason::ImageIdReference,
        ContainerReason::NoRepoDigest,
        ContainerReason::NoMatchingRepoDigest,
        ContainerReason::ImageInspectFailed,
        ContainerReason::DistributionQueryFailed,
        ContainerReason::BudgetExceeded,
    ]
}

/// No reason is missing from the list of all.
pub proof fn law_every_container_reason_is_listed(reason: ContainerReason)
    ensures
        container_reasons().contains(reason),
        container_reasons().no_duplicates(),
{
    let all = container_reasons();
    assert(all[0] == ContainerReason::DigestPinnedReference
        && all[1] == ContainerReason::ImageIdReference
        && all[2] == ContainerReason::NoRepoDigest
        && all[3] == ContainerReason::NoMatchingRepoDigest
        && all[4] == ContainerReason::ImageInspectFailed
        && all[5] == ContainerReason::DistributionQueryFailed
        && all[6] == ContainerReason::BudgetExceeded);
}

/// No two reasons share a token.
pub proof fn law_container_reasons_have_distinct_tokens(a: ContainerReason, b: ContainerReason)
    requires
        a.token() == b.token(),
    ensures
        a == b,
{
    reveal_strlit("digest_pinned_reference");
    reveal_strlit("image_id_reference");
    reveal_strlit("no_repo_digest");
    reveal_strlit("no_matching_repo_digest");
    reveal_strlit("image_inspect_failed");
    reveal_strlit("distribution_query_failed");
    reveal_strlit("budget_exceeded");
    let (x, y) = (a.token(), b.token());
    assert(x.len() == y.len());
    assert(x[0] == y[0]);
}

// ---------------------------------------------------------------------------
// Globs
// ---------------------------------------------------------------------------

/// Whether a pattern matches a text: `*` stands for any run of characters, `?`
/// for exactly one, everything else for itself.
pub open spec fn glob(p: Seq<char>, t: Seq<char>) -> bool
    decreases p.len() + t.len(),
{
    if p.len() == 0 {
        t.len() == 0
    } else if p[0] == '*' {
        glob(p.skip(1), t) || (t.len() > 0 && glob(p, t.skip(1)))
    } else {
        t.len() > 0 && (p[0] == '?' || p[0] == t[0]) && glob(p.skip(1), t.skip(1))
    }
}

/// Whether the pattern from `i` on matches the text from `j` on.
spec fn glob_from(p: Seq<char>, t: Seq<char>, i: int, j: int) -> bool {
    glob(p.skip(i), t.skip(j))
}

proof fn lemma_glob_step(p: Seq<char>, t: Seq<char>, i: int, j: int)
    requires
        0 <= i < p.len(),
        0 <= j <= t.len(),
    ensures
        p[i] == '*' ==> (glob_from(p, t, i, j) <==> glob_from(p, t, i + 1, j) || (j < t.len()
            && glob_from(p, t, i, j + 1))),
        p[i] != '*' ==> (glob_from(p, t, i, j) <==> j < t.len() && (p[i] == '?' || p[i] == t[j])
            && glob_from(p, t, i + 1, j + 1)),
{
    assert(p.skip(i).skip(1) =~= p.skip(i + 1));
    assert(p.skip(i)[0] == p[i]);
    if j < t.len() {
        assert(t.skip(j).skip(1) =~= t.skip(j + 1));
        assert(t.skip(j)[0] == t[j]);
    }
}

/// A star can take in what stands between two positions.
proof fn lemma_star_skips(p: Seq<char>, t: Seq<char>, i: int, j: int, k: int)
    requires
        0 <= i < p.len(),
        p[i] == '*',
        0 <= j <= k <= t.len(),
        glob_from(p, t, i, k),
    ensures
        glob_from(p, t, i, j),
    decreases k - j,
{
    if j < k {
        lemma_star_skips(p, t, i, j + 1, k);
        lemma_glob_step(p, t, i, j);
    }
}

/// Whether the pattern from `i` on matches the text behind some position later
/// than `j`.
spec fn later(p: Seq<char>, t: Seq<char>, i: int, j: int) -> bool {
    exists|k: int| j < k <= t.len() && #[trigger] glob_from(p, t, i, k)
}

/// A star matches where what follows it matches here or at some later position.
proof fn lemma_star_splits(p: Seq<char>, t: Seq<char>, i: int, j: int)
    requires
        0 <= i < p.len(),
        p[i] == '*',
        0 <= j <= t.len(),
    ensures
        glob_from(p, t, i, j) <==> glob_from(p, t, i + 1, j) || later(p, t, i + 1, j),
    decreases t.len() - j,
{
    lemma_glob_step(p, t, i, j);
    if j < t.len() {
        lemma_star_splits(p, t, i, j + 1);
        if later(p, t, i + 1, j) {
            let k = choose|k: int| j < k <= t.len() && #[trigger] glob_from(p, t, i + 1, k);
            if k > j + 1 {
                assert(later(p, t, i + 1, j + 1));
            }
        }
        if later(p, t, i + 1, j + 1) {
            let k = choose|k: int| j + 1 < k <= t.len() && #[trigger] glob_from(p, t, i + 1, k);
            assert(later(p, t, i + 1, j));
        }
    }
}

/// A stretch of pattern without stars takes in as many characters as it has.
proof fn lemma_plain_stretch(p: Seq<char>, t: Seq<char>, a: int, b: int, k: int)
    requires
        0 <= a <= b <= p.len(),
        0 <= k <= t.len(),
        forall|x: int| a <= x < b ==> #[trigger] p[x] != '*',
        glob_from(p, t, a, k),
    ensures
        k + (b - a) <= t.len(),
        glob_from(p, t, b, k + (b - a)),
    decreases b - a,
{
    if a < b {
        lemma_glob_step(p, t, a, k);
        lemma_plain_stretch(p, t, a + 1, b, k + 1);
    }
}

/// Where a star was passed, matching it at a later place than tried so far.
spec fn retry(p: Seq<char>, t: Seq<char>, star: Option<usize>, tried: int) -> bool {
    star matches Some(s) && later(p, t, s + 1, tried)
}

/// What holds of the search at every step: the pattern matches the text exactly if
/// it matches from the two positions on, or with the last star taking in more than
/// tried so far. Between that star and the position in the pattern there is no
/// other, and what was taken in by then fits one for one.
spec fn on_track(
    p: Seq<char>,
    t: Seq<char>,
    pi: int,
    ti: int,
    star: Option<usize>,
    tried: int,
) -> bool {
    &&& 0 <= pi <= p.len()
    &&& 0 <= ti <= t.len()
    &&& star matches Some(s) ==> {
        &&& s < pi
        &&& p[s as int] == '*'
        &&& 0 <= tried <= ti
        &&& ti - tried == pi - (s + 1)
        &&& forall|x: int| s + 1 <= x < pi ==> #[trigger] p[x] != '*'
    }
    &&& glob(p, t) == (glob_from(p, t, pi, ti) || retry(p, t, star, tried))
}

proof fn lemma_track_starts(p: Seq<char>, t: Seq<char>)
    ensures
        on_track(p, t, 0, 0, None, 0),
{
    assert(p.skip(0) =~= p);
    assert(t.skip(0) =~= t);
}

/// A character that fits is passed in both.
proof fn lemma_track_char(
    p: Seq<char>,
    t: Seq<char>,
    pi: int,
    ti: int,
    star: Option<usize>,
    tried: int,
)
    requires
        on_track(p, t, pi, ti, star, tried),
        pi < p.len(),
        ti < t.len(),
        p[pi] != '*',
        p[pi] == '?' || p[pi] == t[ti],
    ensures
        on_track(p, t, pi + 1, ti + 1, star, tried),
{
    lemma_glob_step(p, t, pi, ti);
}

/// A star takes the place of the one before it.
proof fn lemma_track_star(
    p: Seq<char>,
    t: Seq<char>,
    pi: usize,
    ti: int,
    star: Option<usize>,
    tried: int,
)
    requires
        on_track(p, t, pi as int, ti, star, tried),
        pi < p.len(),
        ti < t.len(),
        p[pi as int] == '*',
    ensures
        on_track(p, t, pi + 1, ti, Some(pi), ti),
{
    lemma_star_splits(p, t, pi as int, ti);
    if retry(p, t, star, tried) {
        let s = star->0;
        let k = choose|k: int| tried < k <= t.len() && #[trigger] glob_from(p, t, s + 1, k);
        lemma_plain_stretch(p, t, s + 1, pi as int, k);
        lemma_star_skips(p, t, pi as int, ti, k + (pi - (s + 1)));
    }
    let here = glob_from(p, t, pi as int, ti);
    assert(glob(p, t) == here);
    assert(retry(p, t, Some(pi), ti) == later(p, t, pi + 1, ti));
}

/// Where nothing fits, the last star takes in one more character.
proof fn lemma_track_retry(p: Seq<char>, t: Seq<char>, pi: int, ti: int, s: usize, tried: int)
    requires
        on_track(p, t, pi, ti, Some(s), tried),
        ti < t.len(),
        !glob_from(p, t, pi, ti),
    ensures
        on_track(p, t, s + 1, tried + 1, Some(s), tried + 1),
{
    let star = Some(s);
    let next = glob_from(p, t, s + 1, tried + 1);
    if retry(p, t, star, tried) {
        let k = choose|k: int| tried < k <= t.len() && #[trigger] glob_from(p, t, s + 1, k);
        if k > tried + 1 {
            assert(retry(p, t, star, tried + 1));
        }
    }
    if next {
        assert(retry(p, t, star, tried));
    }
    if retry(p, t, star, tried + 1) {
        let k = choose|k: int| tried + 1 < k <= t.len() && #[trigger] glob_from(p, t, s + 1, k);
        assert(retry(p, t, star, tried));
    }
    assert(glob(p, t) == (next || retry(p, t, star, tried + 1)));
}

/// Nothing fits where the pattern is at its end, or its character is another.
proof fn lemma_no_fit(p: Seq<char>, t: Seq<char>, pi: int, ti: int)
    requires
        0 <= pi <= p.len(),
        0 <= ti < t.len(),
        pi < p.len() ==> p[pi] != '*' && p[pi] != '?' && p[pi] != t[ti],
    ensures
        !glob_from(p, t, pi, ti),
{
    if pi < p.len() {
        lemma_glob_step(p, t, pi, ti);
    } else {
        assert(p.skip(pi).len() == 0);
        assert(t.skip(ti).len() > 0);
    }
}

/// At the end of the text only the rest of the pattern counts.
proof fn lemma_track_ends(p: Seq<char>, t: Seq<char>, pi: int, star: Option<usize>, tried: int)
    requires
        on_track(p, t, pi, t.len() as int, star, tried),
    ensures
        glob(p, t) == glob_from(p, t, pi, t.len() as int),
{
    if retry(p, t, star, tried) {
        let s = star->0;
        let k = choose|k: int| tried < k <= t.len() && #[trigger] glob_from(p, t, s + 1, k);
        lemma_plain_stretch(p, t, s + 1, pi, k);
        assert(false);
    }
}

/// Whether `pattern` matches the whole of `text`. `*` matches any run of
/// characters, `?` matches exactly one.
pub fn glob_match(pattern: &str, text: &str) -> (r: bool)
    ensures
        r == glob(pattern@, text@),
{
    let p = text::chars_of(pattern);
    let t = text::chars_of(text);
    let mut pi: usize = 0;
    let mut ti: usize = 0;
    let mut star: Option<usize> = None;
    let mut tried: usize = 0;
    proof {
        lemma_track_starts(p@, t@);
    }
    while ti < t.len()
        invariant
            p@ == pattern@,
            t@ == text@,
            on_track(p@, t@, pi as int, ti as int, star, tried as int),
        decreases
            (match star {
                Some(s) => p.len() - s,
                None => p.len() + 1,
            }),
            t.len() - tried,
            t.len() - ti,
    {
        if pi < p.len() && p[pi] == '*' {
            proof {
                lemma_track_star(p@, t@, pi, ti as int, star, tried as int);
            }
            star = Some(pi);
            tried = ti;
            pi += 1;
        } else if pi < p.len() && (p[pi] == '?' || p[pi] == t[ti]) {
            proof {
                lemma_track_char(p@, t@, pi as int, ti as int, star, tried as int);
            }
            pi += 1;
            ti += 1;
        } else {
            proof {
                lemma_no_fit(p@, t@, pi as int, ti as int);
            }
            match star {
                Some(s) => {
                    proof {
                        lemma_track_retry(p@, t@, pi as int, ti as int, s, tried as int);
                    }
                    pi = s + 1;
                    tried += 1;
                    ti = tried;
                }
                None => return false,
            }
        }
    }
    proof {
        lemma_track_ends(p@, t@, pi as int, star, tried as int);
    }
    while pi < p.len() && p[pi] == '*'
        invariant
            p@ == pattern@,
            t@ == text@,
            ti == t.len(),
            pi <= p.len(),
            glob(p@, t@) == glob_from(p@, t@, pi as int, ti as int),
        decreases p.len() - pi,
    {
        proof {
            lemma_glob_step(p@, t@, pi as int, ti as int);
        }
        pi += 1;
    }
    proof {
        if pi < p.len() {
            lemma_glob_step(p@, t@, pi as int, ti as int);
        } else {
            assert(p@.skip(pi as int).len() == 0);
            assert(t@.skip(ti as int).len() == 0);
        }
    }
    pi == p.len()
}

/// A lone star matches everything.
pub proof fn law_a_lone_star_matches_everything(t: Seq<char>)
    ensures
        glob(seq!['*'], t),
    decreases t.len(),
{
    let p = seq!['*'];
    if t.len() == 0 {
        assert(p.skip(1).len() == 0);
        assert(glob(p.skip(1), t));
    } else {
        law_a_lone_star_matches_everything(t.skip(1));
    }
}

/// A pattern without wildcards matches only itself.
pub proof fn law_a_plain_pattern_matches_only_itself(p: Seq<char>, t: Seq<char>)
    requires
        !p.contains('*'),
        !p.contains('?'),
    ensures
        glob(p, t) <==> p == t,
    decreases p.len(),
{
    if p.len() == 0 {
        if t.len() == 0 {
            assert(p =~= t);
        }
    } else {
        assert(p.contains(p[0]));
        if t.len() > 0 {
            let (q, u) = (p.skip(1), t.skip(1));
            assert forall|i: int| 0 <= i < q.len() implies q[i] != '*' && q[i] != '?' by {
                assert(p.contains(p[i + 1]));
            }
            law_a_plain_pattern_matches_only_itself(q, u);
            if p[0] == t[0] && q == u {
                assert(p =~= seq![p[0]] + q);
                assert(t =~= seq![t[0]] + u);
            }
        }
    }
}

/// Whether one of the patterns matches.
pub open spec fn any_matches(patterns: Seq<Seq<char>>, name: Seq<char>) -> bool {
    exists|i: int| 0 <= i < patterns.len() && glob(#[trigger] patterns[i], name)
}

fn matches_any(patterns: &Vec<String>, name: &str) -> (r: bool)
    ensures
        r == any_matches(text::texts(patterns@), name@),
{
    let ghost all = text::texts(patterns@);
    let mut i: usize = 0;
    while i < patterns.len()
        invariant
            i <= patterns.len(),
            all == text::texts(patterns@),
            forall|j: int| 0 <= j < i ==> !glob(#[trigger] all[j], name@),
        decreases patterns.len() - i,
    {
        proof {
            assert(all[i as int] == patterns@[i as int]@);
        }
        if glob_match(&patterns[i], name) {
            return true;
        }
        i += 1;
    }
    false
}

/// Whether a container name passes the filters: an include list is an allow-list,
/// and an exclude list is applied within it.
pub open spec fn passes(
    name: Seq<char>,
    included: Seq<Seq<char>>,
    excluded: Seq<Seq<char>>,
) -> bool {
    (included.len() == 0 || any_matches(included, name)) && !any_matches(excluded, name)
}

pub fn passes_filters(name: &str, included: &Vec<String>, excluded: &Vec<String>) -> (r: bool)
    ensures
        r == passes(name@, text::texts(included@), text::texts(excluded@)),
{
    proof {
        assert(text::texts(included@).len() == included@.len());
    }
    if included.len() > 0 && !matches_any(included, name) {
        return false;
    }
    !matches_any(excluded, name)
}

// ---------------------------------------------------------------------------
// References
// ---------------------------------------------------------------------------

/// Whether the daemon put an image ID where a reference belongs.
pub open spec fn names_image_id(image: Seq<char>, image_id: Seq<char>) -> bool {
    image == image_id || "sha256:"@.is_prefix_of(image)
}

/// Whether the daemon put an image ID where a reference belongs, which it does
/// once every tag for a running container's image has been removed.
pub fn is_image_id(image: &str, image_id: &str) -> (r: bool)
    ensures
        r == names_image_id(image@, image_id@),
{
    text::same(image, image_id) || text::starts_with(image, "sha256:")
}

/// A reference as repository and tag. A reference pinned to a digest has no tag;
/// one without a tag means `latest`. The tag stands behind the last colon, unless
/// a slash follows that: then it is a registry port.
pub open spec fn split(image: Seq<char>) -> Option<(Seq<char>, Seq<char>)> {
    let colon = text::last_position(image, ':');
    if image.contains('@') {
        None
    } else if colon > text::last_position(image, '/') {
        Some((image.take(colon), image.skip(colon + 1)))
    } else {
        Some((image, "latest"@))
    }
}

fn has_char(chars: &Vec<char>, c: char) -> (r: bool)
    ensures
        r == chars@.contains(c),
{
    let at: usize = text::position_of(chars, c, 0);
    proof {
        if at < chars.len() {
            assert(chars@[at as int] == c);
        }
    }
    at < chars.len()
}

/// Splits a Docker image reference into repository and tag.
pub fn split_reference(image: &str) -> (r: Option<(String, String)>)
    ensures
        (match r {
            Some((repo, tag)) => Some((repo@, tag@)),
            None => None,
        }) == split(image@),
{
    let c = text::chars_of(image);
    if has_char(&c, '@') {
        return None;
    }
    let slash: usize = text::behind_last(&c, '/');
    let colon: usize = text::behind_last(&c, ':');
    if colon > slash {
        let repo = text::string_between(&c, 0, colon - 1);
        let tag = text::string_between(&c, colon, c.len());
        proof {
            assert(repo@ =~= image@.take(colon - 1));
            assert(tag@ =~= image@.skip(colon as int));
        }
        Some((repo, tag))
    } else {
        Some((image.to_owned(), "latest".to_owned()))
    }
}

/// Splitting a reference loses nothing: joined again, repository and tag are the
/// reference, or the reference had no tag and means `latest`.
pub proof fn law_splitting_loses_nothing(image: Seq<char>)
    ensures
        split(image) matches Some((repo, tag)) ==> repo + ":"@ + tag == image || (repo == image
            && tag == "latest"@),
{
    reveal_strlit(":");
    text::lemma_last_position(image, ':');
    let colon = text::last_position(image, ':');
    if !image.contains('@') && colon > text::last_position(image, '/') {
        text::lemma_last_position(image, '/');
        assert(image.take(colon) + ":"@ + image.skip(colon + 1) =~= image);
    }
}

/// A registry port is never taken for a tag: no tag holds a slash.
pub proof fn law_a_tag_holds_no_slash(image: Seq<char>)
    ensures
        split(image) matches Some((_, tag)) ==> !tag.contains('/'),
{
    reveal_strlit("latest");
    text::lemma_last_position(image, '/');
    text::lemma_last_position(image, ':');
    let colon = text::last_position(image, ':');
    let slash = text::last_position(image, '/');
    if colon > slash {
        let tag = image.skip(colon + 1);
        assert forall|i: int| 0 <= i < tag.len() implies tag[i] != '/' by {
            assert(tag[i] == image[i + colon + 1]);
        }
    }
}

/// Whether the first component of a repository name is a registry host.
pub open spec fn is_host(first: Seq<char>) -> bool {
    first.contains('.') || first.contains(':') || first == "localhost"@
}

/// A repository name in one spelling: with its registry host, and on Docker Hub
/// with the `library/` of a single-component name.
pub open spec fn normalized(repo: Seq<char>) -> Seq<char> {
    let k = text::before_char(repo, '/') as int;
    let first = repo.take(k);
    let rest = repo.skip(k + 1);
    if k >= repo.len() {
        if is_host(repo) {
            repo
        } else {
            "docker.io/library/"@ + repo
        }
    } else if !is_host(first) {
        "docker.io/"@ + repo
    } else if first == "docker.io"@ || first == "index.docker.io"@ {
        if rest.contains('/') {
            "docker.io/"@ + rest
        } else {
            "docker.io/library/"@ + rest
        }
    } else {
        repo
    }
}

fn looks_like_host(first: &str) -> (r: bool)
    ensures
        r == is_host(first@),
{
    let c = text::chars_of(first);
    has_char(&c, '.') || has_char(&c, ':') || text::same(first, "localhost")
}

/// A repository name in the one spelling both sides of the comparison are held
/// to.
pub fn normalize_repository(repo: &str) -> (r: String)
    ensures
        r@ == normalized(repo@),
{
    let c = text::chars_of(repo);
    let k: usize = text::position_of(&c, '/', 0);
    proof {
        assert(c@.skip(0) =~= repo@);
    }
    if k >= c.len() {
        if looks_like_host(repo) {
            return repo.to_owned();
        }
        return text::cat2("docker.io/library/", repo);
    }
    let first = text::string_between(&c, 0, k);
    let rest = text::string_between(&c, k + 1, c.len());
    proof {
        assert(first@ =~= repo@.take(k as int));
        assert(rest@ =~= repo@.skip(k + 1));
    }
    if !looks_like_host(&first) {
        return text::cat2("docker.io/", repo);
    }
    if text::same(&first, "docker.io") || text::same(&first, "index.docker.io") {
        let r = text::chars_of(&rest);
        if has_char(&r, '/') {
            return text::cat2("docker.io/", &rest);
        }
        return text::cat2("docker.io/library/", &rest);
    }
    repo.to_owned()
}

/// The position of a separator behind a text that does not hold it.
proof fn lemma_before_char_behind(a: Seq<char>, c: char, b: Seq<char>)
    requires
        !a.contains(c),
    ensures
        text::before_char(a + seq![c] + b, c) == a.len(),
    decreases a.len(),
{
    let s = a + seq![c] + b;
    if a.len() > 0 {
        assert(a.contains(a[0]));
        let a1 = a.skip(1);
        assert forall|i: int| 0 <= i < a1.len() implies a1[i] != c by {
            assert(a.contains(a[i + 1]));
        }
        lemma_before_char_behind(a1, c, b);
        assert(s.skip(1) =~= a1 + seq![c] + b);
        assert(s[0] == a[0]);
    } else {
        assert(s[0] == c);
    }
}

proof fn lemma_hub_host()
    ensures
        "docker.io"@.len() == 9,
        !"docker.io"@.contains('/'),
        is_host("docker.io"@),
        "docker.io/"@ == "docker.io"@ + seq!['/'],
        "docker.io/library/"@ == "docker.io"@ + seq!['/'] + "library/"@,
        "library/"@.contains('/'),
{
    reveal_strlit("docker.io");
    reveal_strlit("docker.io/");
    reveal_strlit("docker.io/library/");
    reveal_strlit("library/");
    assert("docker.io"@[6] == '.');
    assert("docker.io/"@ =~= "docker.io"@ + seq!['/']);
    assert("docker.io/library/"@ =~= "docker.io"@ + seq!['/'] + "library/"@);
    assert("library/"@[7] == '/');
}

proof fn lemma_hub_name_is_normal(rest: Seq<char>)
    requires
        rest.contains('/'),
    ensures
        normalized("docker.io"@ + seq!['/'] + rest) == "docker.io"@ + seq!['/'] + rest,
{
    lemma_hub_host();
    let s = "docker.io"@ + seq!['/'] + rest;
    lemma_before_char_behind("docker.io"@, '/', rest);
    assert(s.take(9) =~= "docker.io"@);
    assert(s.skip(10) =~= rest);
}

/// Normalising a name that is already normal changes nothing.
pub proof fn law_normalising_is_idempotent(repo: Seq<char>)
    ensures
        normalized(normalized(repo)) == normalized(repo),
{
    lemma_hub_host();
    text::lemma_before_char(repo, '/');
    let k = text::before_char(repo, '/') as int;
    let host = "docker.io"@ + seq!['/'];
    let r = normalized(repo);
    let rest = repo.skip(k + 1);
    if r != repo {
        let tail = if k >= repo.len() {
            "library/"@ + repo
        } else if !is_host(repo.take(k)) {
            repo
        } else if rest.contains('/') {
            rest
        } else {
            "library/"@ + rest
        };
        assert(r =~= host + tail);
        assert(tail.contains('/')) by {
            let at = choose|i: int| 0 <= i < "library/"@.len() && "library/"@[i] == '/';
            if k >= repo.len() {
                assert(tail[at] == '/');
            } else if !is_host(repo.take(k)) {
                assert(tail[k] == '/');
            } else if !rest.contains('/') {
                assert(tail[at] == '/');
            }
        }
        lemma_hub_name_is_normal(tail);
    }
}

/// The digest of the first entry from `i` on that is recorded for a repository.
pub open spec fn digest_for(digests: Seq<Seq<char>>, repo: Seq<char>, i: int) -> Option<Seq<char>>
    decreases digests.len() - i,
{
    if i < 0 || i >= digests.len() {
        None
    } else {
        let d = digests[i];
        let k = text::before_char(d, '@') as int;
        if k < d.len() && normalized(d.take(k)) == normalized(repo) {
            Some(d.skip(k + 1))
        } else {
            digest_for(digests, repo, i + 1)
        }
    }
}

/// Every spelling of a repository finds the same digest.
pub proof fn law_spelling_does_not_matter(
    digests: Seq<Seq<char>>,
    a: Seq<char>,
    b: Seq<char>,
    i: int,
)
    requires
        normalized(a) == normalized(b),
    ensures
        digest_for(digests, a, i) == digest_for(digests, b, i),
    decreases digests.len() - i,
{
    if 0 <= i < digests.len() {
        law_spelling_does_not_matter(digests, a, b, i + 1);
    }
}

/// The digest recorded for `repo`, if there is one.
pub fn find_local_digest(digests: &Vec<String>, repo: &str) -> (r: Option<String>)
    ensures
        text::optional(r) == digest_for(text::texts(digests@), repo@, 0),
{
    let wanted = normalize_repository(repo);
    let ghost all = text::texts(digests@);
    let mut i: usize = 0;
    while i < digests.len()
        invariant
            i <= digests.len(),
            all == text::texts(digests@),
            wanted@ == normalized(repo@),
            digest_for(all, repo@, 0) == digest_for(all, repo@, i as int),
        decreases digests.len() - i,
    {
        proof {
            assert(all[i as int] == digests@[i as int]@);
        }
        let c = text::chars_of(&digests[i]);
        let k: usize = text::position_of(&c, '@', 0);
        proof {
            assert(c@.skip(0) =~= c@);
        }
        if k < c.len() {
            let entry = text::string_between(&c, 0, k);
            proof {
                assert(entry@ =~= c@.take(k as int));
            }
            if text::same(&normalize_repository(&entry), &wanted) {
                let digest = text::string_between(&c, k + 1, c.len());
                proof {
                    assert(digest@ =~= c@.skip(k + 1));
                }
                return Some(digest);
            }
        }
        i += 1;
    }
    None
}

// ---------------------------------------------------------------------------
// The verdict
// ---------------------------------------------------------------------------

/// What a call gave, as mathematical text.
pub open spec fn said(r: Result<String, String>) -> Result<Seq<char>, Seq<char>> {
    match r {
        Ok(s) => Ok(s@),
        Err(e) => Err(e@),
    }
}

/// What a call gave, as mathematical text.
pub open spec fn listed(r: Result<Vec<String>, String>) -> Result<Seq<Seq<char>>, Seq<char>> {
    match r {
        Ok(v) => Ok(text::texts(v@)),
        Err(e) => Err(e@),
    }
}

/// The verdict on a container: whether an update is available, or why that cannot
/// be said; and a detail for logs. `digests` is what the daemon recorded for the
/// running image, `remote` what the tag resolves to now; neither matters where
/// the reference alone decides, and `remote` does not where `digests` does.
pub open spec fn verdict(
    image: Seq<char>,
    image_id: Seq<char>,
    digests: Result<Seq<Seq<char>>, Seq<char>>,
    remote: Result<Seq<char>, Seq<char>>,
) -> (Result<bool, ContainerReason>, Option<Seq<char>>) {
    if names_image_id(image, image_id) {
        (Err(ContainerReason::ImageIdReference), None)
    } else {
        match split(image) {
            None => (Err(ContainerReason::DigestPinnedReference), None),
            Some((repo, _)) => match digests {
                Err(e) => (Err(ContainerReason::ImageInspectFailed), Some(e)),
                Ok(list) => match digest_for(list, repo, 0) {
                    None => (
                        Err(
                            if list.len() == 0 {
                                ContainerReason::NoRepoDigest
                            } else {
                                ContainerReason::NoMatchingRepoDigest
                            },
                        ),
                        None,
                    ),
                    Some(local) => match remote {
                        Err(e) => (Err(ContainerReason::DistributionQueryFailed), Some(e)),
                        Ok(now) => (Ok(local != now), None),
                    },
                },
            },
        }
    }
}

/// What is left to ask once the reference has been looked at.
pub enum Question {
    /// Nothing: the reference alone decides.
    Settled(ContainerReason),
    /// The digests of the image, and then what the reference resolves to.
    Ask { repo: String, reference: String },
}

/// What a container's reference leaves to ask.
pub fn question(container: &Container) -> (r: Question)
    ensures
        match r {
            Question::Settled(reason) => {
                &&& settled(container.image_reference@, container.image_id@)
                &&& forall|d, m| #[trigger]
                    verdict(container.image_reference@, container.image_id@, d, m) == (
                        Err::<bool, ContainerReason>(reason),
                        None::<Seq<char>>,
                    )
            },
            Question::Ask { repo, reference } => {
                &&& !names_image_id(container.image_reference@, container.image_id@)
                &&& split(container.image_reference@) matches Some((name, tag)) && repo@ == name
                    && reference@ == name + ":"@ + tag
            },
        },
{
    if is_image_id(&container.image_reference, &container.image_id) {
        return Question::Settled(ContainerReason::ImageIdReference);
    }
    match split_reference(&container.image_reference) {
        None => Question::Settled(ContainerReason::DigestPinnedReference),
        Some((repo, tag)) => {
            let reference = text::cat3(&repo, ":", &tag);
            Question::Ask { repo, reference }
        }
    }
}

/// Judges a container from what the two calls gave.
pub fn judge(
    container: &Container,
    digests: &Result<Vec<String>, String>,
    remote: &Result<String, String>,
) -> (r: (Result<bool, ContainerReason>, Option<String>))
    ensures
        (r.0, text::optional(r.1)) == verdict(
            container.image_reference@,
            container.image_id@,
            listed(*digests),
            said(*remote),
        ),
{
    let (repo, _reference) = match question(container) {
        Question::Settled(reason) => {
            proof {
                let v = verdict(
                    container.image_reference@,
                    container.image_id@,
                    listed(*digests),
                    said(*remote),
                );
            }
            return (Err(reason), None);
        }
        Question::Ask { repo, reference } => (repo, reference),
    };
    match local_digest(digests, &repo) {
        Err((reason, detail)) => (Err(reason), detail),
        Ok(local) => match remote {
            Err(e) => (Err(ContainerReason::DistributionQueryFailed), Some(e.clone())),
            Ok(now) => (Ok(!text::same(&local, now)), None),
        },
    }
}

fn local_digest(digests: &Result<Vec<String>, String>, repo: &str) -> (r: Result<
    String,
    (ContainerReason, Option<String>),
>)
    ensures
        match r {
            Ok(local) => listed(*digests) matches Ok(list) && digest_for(list, repo@, 0) == Some(
                local@,
            ),
            Err((reason, detail)) => match listed(*digests) {
                Err(e) => reason == ContainerReason::ImageInspectFailed && text::optional(detail)
                    == Some(e),
                Ok(list) => {
                    &&& digest_for(list, repo@, 0) is None
                    &&& detail is None
                    &&& reason == (if list.len() == 0 {
                        ContainerReason::NoRepoDigest
                    } else {
                        ContainerReason::NoMatchingRepoDigest
                    })
                },
            },
        },
{
    match digests {
        Err(e) => Err((ContainerReason::ImageInspectFailed, Some(e.clone()))),
        Ok(list) => {
            proof {
                assert(text::texts(list@).len() == list@.len());
            }
            match find_local_digest(list, repo) {
                Some(local) => Ok(local),
                None => Err(
                    (
                        if list.len() == 0 {
                            ContainerReason::NoRepoDigest
                        } else {
                            ContainerReason::NoMatchingRepoDigest
                        },
                        None,
                    ),
                ),
            }
        }
    }
}

/// The verdict for one container: never both a reason and an answer.
#[derive(Debug)]
pub struct ContainerCheck {
    pub name: String,
    pub image: String,
    /// `Ok(true)` where the registry's digest for the tag differs from the one
    /// the container was started with.
    pub outcome: Result<bool, ContainerReason>,
    pub at: u64,
    pub detail: Option<String>,
}

impl Clone for ContainerCheck {
    fn clone(&self) -> (r: Self)
        ensures
            r == *self,
    {
        ContainerCheck {
            name: self.name.clone(),
            image: self.image.clone(),
            outcome: self.outcome,
            at: self.at,
            detail: text::copy_optional(&self.detail),
        }
    }
}

/// Whether an API answers the inspection of an image with `d`.
pub open spec fn inspects<A: DockerApi>(
    api: &A,
    image_id: Seq<char>,
    d: Result<Vec<String>, String>,
) -> bool {
    exists|id: &str| id@ == image_id && #[trigger] call_ensures(A::repo_digests, (api, id), d)
}

/// Whether an API answers the resolution of a reference with `m`.
pub open spec fn resolves<A: DockerApi>(
    api: &A,
    reference: Seq<char>,
    m: Result<String, String>,
) -> bool {
    exists|r: &str| r@ == reference && #[trigger] call_ensures(A::remote_digest, (api, r), m)
}

/// Whether an API answers the listing of containers with `list`.
pub open spec fn lists<A: DockerApi>(api: &A, list: Result<Vec<Container>, String>) -> bool {
    call_ensures(A::list_running_containers, (api,), list)
}

/// Whether the reference alone decides: it names an image ID, or has no tag.
pub open spec fn settled(image: Seq<char>, image_id: Seq<char>) -> bool {
    names_image_id(image, image_id) || split(image) is None
}

/// Whether what the daemon recorded for the image leaves the registry to ask.
pub open spec fn comparable(image: Seq<char>, digests: Result<Seq<Seq<char>>, Seq<char>>) -> bool {
    digests matches Ok(list) && split(image) matches Some((repo, _)) && digest_for(list, repo, 0)
        is Some
}

/// The reference that is resolved for an image: repository and tag.
pub open spec fn resolvable(image: Seq<char>) -> Seq<char> {
    match split(image) {
        Some((repo, tag)) => repo + ":"@ + tag,
        None => image,
    }
}

impl ContainerCheck {
    /// Whether this is the verdict that two answers give.
    pub open spec fn judges(
        self,
        c: Container,
        d: Result<Seq<Seq<char>>, Seq<char>>,
        m: Result<Seq<char>, Seq<char>>,
    ) -> bool {
        (self.outcome, text::optional(self.detail)) == verdict(
            c.image_reference@,
            c.image_id@,
            d,
            m,
        )
    }

    /// Whether this is the verdict on a container from what the API answers: the
    /// digests of the image the container runs, and what its repository and tag
    /// resolve to. What cannot change the verdict is left open.
    pub open spec fn answers<A: DockerApi>(self, api: &A, c: Container) -> bool {
        &&& self.name == c.name
        &&& self.image == c.image_reference
        &&& clock::stamp(self.at)
        &&& if settled(c.image_reference@, c.image_id@) {
            forall|d, m| #[trigger] self.judges(c, d, m)
        } else {
            exists|d: Result<Vec<String>, String>| #[trigger]
                inspects(api, c.image_id@, d) && if comparable(c.image_reference@, listed(d)) {
                    exists|m: Result<String, String>| #[trigger]
                        resolves(api, resolvable(c.image_reference@), m) && self.judges(
                            c,
                            listed(d),
                            said(m),
                        )
                } else {
                    forall|m| #[trigger] self.judges(c, listed(d), m)
                }
        }
    }

    /// Whether this says that the container was not reached in time.
    pub open spec fn misses(self, c: Container) -> bool {
        &&& self.name == c.name
        &&& self.image == c.image_reference
        &&& clock::stamp(self.at)
        &&& self.outcome == Err::<bool, ContainerReason>(ContainerReason::BudgetExceeded)
        &&& self.detail is None
    }

    /// Whether this is the check of a container at a point of the run: its verdict
    /// while the time taken stays below the budget, and that it was not reached
    /// from then on.
    pub open spec fn befits<A: DockerApi>(
        self,
        api: &A,
        c: Container,
        elapsed: ConfigDuration,
        budget: ConfigDuration,
    ) -> bool {
        if elapsed.below(budget) {
            self.answers(api, c)
        } else {
            self.misses(c)
        }
    }
}

/// Checks one container. The image is inspected by the ID the container runs, and
/// a call that cannot change the verdict is not made.
pub fn check_one<A: DockerApi>(api: &A, container: Container) -> (r: ContainerCheck)
    ensures
        r.answers(api, container),
{
    let (repo, reference) = match question(&container) {
        Question::Settled(reason) => {
            let r = ContainerCheck {
                name: container.name,
                image: container.image_reference,
                outcome: Err(reason),
                at: clock::unix_now(),
                detail: None,
            };
            proof {
                assert forall|d, m| #[trigger] r.judges(container, d, m) by {
                    let v = verdict(container.image_reference@, container.image_id@, d, m);
                }
            }
            return r;
        }
        Question::Ask { repo, reference } => (repo, reference),
    };
    let digests = api.repo_digests(&container.image_id);
    proof {
        assert(inspects(api, container.image_id@, digests));
    }
    if let Err((reason, detail)) = local_digest(&digests, &repo) {
        let r = ContainerCheck {
            name: container.name,
            image: container.image_reference,
            outcome: Err(reason),
            at: clock::unix_now(),
            detail,
        };
        proof {
            assert forall|m| #[trigger] r.judges(container, listed(digests), m) by {}
        }
        return r;
    }
    let remote = api.remote_digest(&reference);
    proof {
        assert(resolves(api, resolvable(container.image_reference@), remote));
    }
    let (outcome, detail) = judge(&container, &digests, &remote);
    let r = ContainerCheck {
        name: container.name,
        image: container.image_reference,
        outcome,
        at: clock::unix_now(),
        detail,
    };
    proof {
        assert(r.judges(container, listed(digests), said(remote)));
    }
    r
}

/// Checks one container of a run that has taken `elapsed` so far. Once the budget
/// is spent nothing is asked.
pub fn check_within<A: DockerApi>(
    api: &A,
    container: Container,
    elapsed: ConfigDuration,
    budget: ConfigDuration,
) -> (r: ContainerCheck)
    ensures
        r.befits(api, container, elapsed, budget),
{
    if elapsed.shorter_than(&budget) {
        check_one(api, container)
    } else {
        ContainerCheck {
            name: container.name,
            image: container.image_reference,
            outcome: Err(ContainerReason::BudgetExceeded),
            at: clock::unix_now(),
            detail: None,
        }
    }
}

// ---------------------------------------------------------------------------
// The report
// ---------------------------------------------------------------------------

/// One character of a tag value: a control character as an underscore, since line
/// protocol has no escape for one, and its delimiters behind a backslash.
pub open spec fn tag_char(c: char) -> Seq<char> {
    if text::control(c) {
        seq!['_']
    } else if c == '\\' || c == ',' || c == '=' || c == ' ' {
        seq!['\\', c]
    } else {
        seq![c]
    }
}

/// A tag value, escaped.
pub open spec fn tag_text(v: Seq<char>) -> Seq<char>
    decreases v.len(),
{
    if v.len() == 0 {
        Seq::empty()
    } else {
        tag_text(v.drop_last()) + tag_char(v.last())
    }
}

/// Escapes a tag value for influx line protocol. Names and references come from
/// the daemon: a line end in one would start another measurement.
pub fn escape_tag(v: &str) -> (r: String)
    ensures
        r@ == tag_text(v@),
{
    let c = text::chars_of(v);
    let mut out = String::new();
    let mut i: usize = 0;
    while i < c.len()
        invariant
            c@ == v@,
            i <= c.len(),
            out@ == tag_text(v@.subrange(0, i as int)),
        decreases c.len() - i,
    {
        proof {
            assert(v@.subrange(0, i + 1).drop_last() =~= v@.subrange(0, i as int));
        }
        let ghost before = out@;
        let x = c[i];
        if text::is_control(x) {
            out.push('_');
        } else {
            if x == '\\' || x == ',' || x == '=' || x == ' ' {
                out.push('\\');
            }
            out.push(x);
        }
        proof {
            assert(out@ =~= before + tag_char(x));
        }
        i += 1;
    }
    proof {
        assert(v@.subrange(0, i as int) =~= v@);
    }
    out
}

/// Whether a delimiter at `i`, if there is one, stands behind a backslash.
pub open spec fn guarded(s: Seq<char>, i: int) -> bool {
    s[i] == ',' || s[i] == '=' || s[i] == ' ' ==> i > 0 && s[i - 1] == '\\'
}

/// An escaped tag value holds no control character, so it cannot start a new
/// line, and every delimiter in it stands behind a backslash.
pub proof fn law_an_escaped_tag_stays_in_its_place(v: Seq<char>)
    ensures
        forall|i: int| 0 <= i < tag_text(v).len() ==> !text::control(#[trigger] tag_text(v)[i]),
        forall|i: int| 0 <= i < tag_text(v).len() ==> #[trigger] guarded(tag_text(v), i),
    decreases v.len(),
{
    if v.len() > 0 {
        law_an_escaped_tag_stays_in_its_place(v.drop_last());
        let (a, b) = (tag_text(v.drop_last()), tag_char(v.last()));
        let r = tag_text(v);
        assert(r == a + b);
        assert forall|i: int| 0 <= i < r.len() implies !text::control(#[trigger] r[i]) by {
            if i < a.len() {
                assert(r[i] == a[i]);
            } else {
                assert(r[i] == b[i - a.len()]);
            }
        }
        assert forall|i: int| 0 <= i < r.len() implies #[trigger] guarded(r, i) by {
            if i < a.len() {
                assert(guarded(a, i));
                assert(r[i] == a[i]);
                if i > 0 {
                    assert(r[i - 1] == a[i - 1]);
                }
            } else {
                assert(r[i] == b[i - a.len()]);
                if i > a.len() {
                    assert(r[i - 1] == b[i - 1 - a.len()]);
                }
            }
        }
    }
}

/// The tags that name a container.
pub open spec fn container_tags(name: Seq<char>, image: Seq<char>) -> Seq<char> {
    "muninn_container_image_updates,container_name="@ + tag_text(name) + ",image="@ + tag_text(
        image,
    )
}

/// The lines of one container: the check, and the verdict where there is one.
pub open spec fn container_lines(
    name: Seq<char>,
    image: Seq<char>,
    outcome: Result<bool, ContainerReason>,
    at: u64,
) -> Seq<char> {
    let tags = container_tags(name, image);
    match outcome {
        Err(reason) => tags + ",status=error,reason="@ + reason.token()
            + " check_success=0i,check_timestamp_seconds="@ + text::decimal(at as nat) + "i\n"@,
        Ok(available) => tags
            + ",status=ok,reason=none check_success=1i,check_timestamp_seconds="@ + text::decimal(
            at as nat,
        ) + "i\n"@ + tags + (if available {
            " update_available=1i\n"@
        } else {
            " update_available=0i\n"@
        }),
    }
}

impl ContainerCheck {
    pub open spec fn lines(self) -> Seq<char> {
        container_lines(self.name@, self.image@, self.outcome, self.at)
    }

    pub fn line_protocol(&self) -> (r: String)
        ensures
            r@ == self.lines(),
    {
        let tags = text::cat4(
            "muninn_container_image_updates,container_name=",
            &escape_tag(&self.name),
            ",image=",
            &escape_tag(&self.image),
        );
        let at = text::decimal_of(self.at as u128);
        match self.outcome {
            Err(reason) => text::cat6(
                &tags,
                ",status=error,reason=",
                reason.as_str(),
                " check_success=0i,check_timestamp_seconds=",
                &at,
                "i\n",
            ),
            Ok(available) => text::cat6(
                &tags,
                ",status=ok,reason=none check_success=1i,check_timestamp_seconds=",
                &at,
                "i\n",
                &tags,
                if available {
                    " update_available=1i\n"
                } else {
                    " update_available=0i\n"
                },
            ),
        }
    }
}

/// No equals sign of the text stands behind `le`.
spec fn tame(s: Seq<char>) -> bool {
    forall|j: int|
        0 <= j < s.len() && #[trigger] s[j] == '=' ==> j >= 1 && (s[j - 1] != 'e' || (j >= 2 && s[j
            - 2] != 'l'))
}

proof fn lemma_tame_joined(a: Seq<char>, b: Seq<char>)
    requires
        tame(a),
        tame(b),
    ensures
        tame(a + b),
{
    let s = a + b;
    assert forall|j: int| 0 <= j < s.len() && #[trigger] s[j] == '=' implies j >= 1 && (s[j - 1]
        != 'e' || (j >= 2 && s[j - 2] != 'l')) by {
        if j < a.len() {
            assert(a[j] == '=');
        } else {
            assert(b[j - a.len()] == '=');
        }
    }
}

proof fn lemma_tame_tag(v: Seq<char>)
    ensures
        tame(tag_text(v)),
{
    law_an_escaped_tag_stays_in_its_place(v);
    let s = tag_text(v);
    assert forall|j: int| 0 <= j < s.len() && #[trigger] s[j] == '=' implies j >= 1 && (s[j - 1]
        != 'e' || (j >= 2 && s[j - 2] != 'l')) by {
        assert(guarded(s, j));
    }
}

proof fn lemma_tame_pieces(reason: ContainerReason, at: u64)
    ensures
        tame("muninn_container_image_updates,container_name="@),
        tame(",image="@),
        tame(",status=error,reason="@),
        tame(reason.token()),
        tame(" check_success=0i,check_timestamp_seconds="@),
        tame(text::decimal(at as nat)),
        tame("i\n"@),
{
    reveal_strlit("muninn_container_image_updates,container_name=");
    reveal_strlit(",image=");
    reveal_strlit(",status=error,reason=");
    reveal_strlit(" check_success=0i,check_timestamp_seconds=");
    reveal_strlit("i\n");
    reveal_strlit("digest_pinned_reference");
    reveal_strlit("image_id_reference");
    reveal_strlit("no_repo_digest");
    reveal_strlit("no_matching_repo_digest");
    reveal_strlit("image_inspect_failed");
    reveal_strlit("distribution_query_failed");
    reveal_strlit("budget_exceeded");
    text::lemma_decimal_digits(at as nat);
}

/// A container that could not be judged never reports an answer: whatever its name
/// and image, its line has no `update_available` field.
pub proof fn law_a_failed_check_has_no_verdict_field(
    name: Seq<char>,
    image: Seq<char>,
    reason: ContainerReason,
    at: u64,
)
    ensures
        !text::occurs(container_lines(name, image, Err(reason), at), " update_available="@),
{
    lemma_tame_pieces(reason, at);
    lemma_tame_tag(name);
    lemma_tame_tag(image);
    let a = "muninn_container_image_updates,container_name="@;
    lemma_tame_joined(a, tag_text(name));
    let a = a + tag_text(name);
    lemma_tame_joined(a, ",image="@);
    let a = a + ",image="@;
    lemma_tame_joined(a, tag_text(image));
    let a = a + tag_text(image);
    lemma_tame_joined(a, ",status=error,reason="@);
    let a = a + ",status=error,reason="@;
    lemma_tame_joined(a, reason.token());
    let a = a + reason.token();
    lemma_tame_joined(a, " check_success=0i,check_timestamp_seconds="@);
    let a = a + " check_success=0i,check_timestamp_seconds="@;
    lemma_tame_joined(a, text::decimal(at as nat));
    let a = a + text::decimal(at as nat);
    lemma_tame_joined(a, "i\n"@);
    let line = a + "i\n"@;
    assert(line == container_lines(name, image, Err(reason), at));
    let needle = " update_available="@;
    reveal_strlit(" update_available=");
    assert forall|at: int| !text::stands_at(line, needle, at) by {
        if text::stands_at(line, needle, at) {
            let found = line.subrange(at, at + needle.len());
            assert(found[17] == '=' && found[16] == 'e' && found[15] == 'l');
            assert(line[at + 17] == '=');
        }
    }
}

/// The result of one run: the daemon-level outcome, and one [`ContainerCheck`] per
/// running container that passed the filters.
#[derive(Debug)]
pub struct Report {
    pub daemon_outcome: Result<usize, DaemonReason>,
    pub containers: Vec<ContainerCheck>,
    pub at: u64,
    pub detail: Option<String>,
}

impl Clone for Report {
    fn clone(&self) -> (r: Self)
        ensures
            r.daemon_outcome == self.daemon_outcome,
            r.containers@ == self.containers@,
            r.at == self.at,
            r.detail == self.detail,
    {
        let mut containers: Vec<ContainerCheck> = Vec::new();
        let mut i: usize = 0;
        while i < self.containers.len()
            invariant
                i <= self.containers.len(),
                containers@ =~= self.containers@.subrange(0, i as int),
            decreases self.containers.len() - i,
        {
            containers.push(self.containers[i].clone());
            i += 1;
        }
        Report {
            daemon_outcome: self.daemon_outcome,
            containers,
            at: self.at,
            detail: text::copy_optional(&self.detail),
        }
    }
}

/// The lines of the first `n` containers.
pub open spec fn all_lines(list: Seq<ContainerCheck>, n: int) -> Seq<char>
    decreases n,
{
    if n <= 0 {
        Seq::empty()
    } else {
        all_lines(list, n - 1) + list[n - 1].lines()
    }
}

/// The lines of a report. A daemon that could not be asked has no container
/// lines.
pub open spec fn report_lines(
    outcome: Result<usize, DaemonReason>,
    containers: Seq<ContainerCheck>,
    at: u64,
) -> Seq<char> {
    match outcome {
        Err(reason) => "muninn_image_updates,status=error,reason="@ + reason.token()
            + " check_success=0i,check_timestamp_seconds="@ + text::decimal(at as nat) + "i\n"@,
        Ok(count) => "muninn_image_updates,status=ok,reason=none check_success=1i,check_timestamp_seconds="@
            + text::decimal(at as nat) + "i,containers_checked="@ + text::decimal(count as nat)
            + "i\n"@ + all_lines(containers, containers.len() as int),
    }
}

impl Report {
    pub fn daemon_succeeded(&self) -> (r: bool)
        ensures
            r == self.daemon_outcome is Ok,
    {
        self.daemon_outcome.is_ok()
    }

    /// The influx line protocol Telegraf's `inputs.exec` parses.
    pub fn line_protocol(&self) -> (r: String)
        ensures
            r@ == report_lines(self.daemon_outcome, self.containers@, self.at),
    {
        let at = text::decimal_of(self.at as u128);
        match self.daemon_outcome {
            Err(reason) => text::cat5(
                "muninn_image_updates,status=error,reason=",
                reason.as_str(),
                " check_success=0i,check_timestamp_seconds=",
                &at,
                "i\n",
            ),
            Ok(count) => {
                let mut lines = String::new();
                let mut i: usize = 0;
                while i < self.containers.len()
                    invariant
                        i <= self.containers.len(),
                        lines@ == all_lines(self.containers@, i as int),
                    decreases self.containers.len() - i,
                {
                    lines.append(&self.containers[i].line_protocol());
                    i += 1;
                }
                text::cat6(
                    "muninn_image_updates,status=ok,reason=none check_success=1i,check_timestamp_seconds=",
                    &at,
                    "i,containers_checked=",
                    &text::decimal_of(count as u128),
                    "i\n",
                    &lines,
                )
            }
        }
    }
}

// ---------------------------------------------------------------------------
// The run
// ---------------------------------------------------------------------------

/// The first `n` containers that pass the filters.
pub open spec fn admitted(
    list: Seq<Container>,
    included: Seq<Seq<char>>,
    excluded: Seq<Seq<char>>,
    n: int,
) -> Seq<Container>
    decreases n,
{
    if n <= 0 {
        Seq::empty()
    } else if passes(list[n - 1].name@, included, excluded) {
        admitted(list, included, excluded, n - 1).push(list[n - 1])
    } else {
        admitted(list, included, excluded, n - 1)
    }
}

/// Whether a check befits a container at some time since the run began.
pub open spec fn timely<A: DockerApi>(
    api: &A,
    check: ContainerCheck,
    c: Container,
    started: std::time::Instant,
    budget: ConfigDuration,
) -> bool {
    exists|elapsed: ConfigDuration| #[trigger]
        clock::reading(started, elapsed) && check.befits(api, c, elapsed, budget)
}

/// Whether every container of a run has its check: the verdict where the time
/// since the run began was below the budget when its turn came, else that it was
/// not reached.
pub open spec fn covers<A: DockerApi>(
    api: &A,
    checks: Seq<ContainerCheck>,
    list: Seq<Container>,
    started: std::time::Instant,
    budget: ConfigDuration,
) -> bool {
    &&& checks.len() == list.len()
    &&& forall|i: int|
        0 <= i < list.len() ==> #[trigger] timely(api, checks[i], list[i], started, budget)
}

/// With no budget at all, no container is reached.
pub proof fn law_without_a_budget_nothing_is_reached<A: DockerApi>(
    api: &A,
    checks: Seq<ContainerCheck>,
    list: Seq<Container>,
    started: std::time::Instant,
    budget: ConfigDuration,
)
    requires
        covers(api, checks, list, started, budget),
        budget.secs == 0,
        budget.nanos == 0,
    ensures
        forall|i: int| 0 <= i < list.len() ==> (#[trigger] checks[i]).misses(list[i]),
{
    assert forall|i: int| 0 <= i < list.len() implies (#[trigger] checks[i]).misses(list[i]) by {
        assert(timely(api, checks[i], list[i], started, budget));
    }
}

impl Report {
    /// Whether this is what a run against an API reports: its refusal to list
    /// containers and nothing else, or one check for every admitted container, in
    /// order.
    pub open spec fn tells<A: DockerApi>(
        self,
        api: &A,
        included: Seq<Seq<char>>,
        excluded: Seq<Seq<char>>,
        budget: ConfigDuration,
    ) -> bool {
        clock::stamp(self.at) && match self.daemon_outcome {
            Err(reason) => {
                &&& reason == DaemonReason::DockerUnreachable
                &&& self.containers@.len() == 0
                &&& exists|e: String| #[trigger]
                    lists(api, Err(e)) && self.detail == Some(e)
            },
            Ok(count) => {
                &&& count == self.containers@.len()
                &&& self.detail is None
                &&& exists|list: Vec<Container>, started: std::time::Instant|
                    {
                        &&& #[trigger] lists(api, Ok(list))
                        &&& #[trigger] clock::present(started)
                        &&& covers(
                            api,
                            self.containers@,
                            admitted(list@, included, excluded, list@.len() as int),
                            started,
                            budget,
                        )
                    }
            },
        }
    }
}

/// The whole check, against anything that can answer the three calls.
///
/// A daemon that cannot list its containers is reported with no containers at
/// all; otherwise every admitted container is in the report, in order.
pub fn run<A: DockerApi>(
    api: &A,
    budget: ConfigDuration,
    included: &Vec<String>,
    excluded: &Vec<String>,
) -> (r: Report)
    ensures
        r.tells(api, text::texts(included@), text::texts(excluded@), budget),
{
    let at: u64 = clock::unix_now();
    let started = clock::start();
    let listed = match api.list_running_containers() {
        Ok(list) => list,
        Err(e) => {
            proof {
                assert(lists(api, Err(e)));
            }
            return Report {
                daemon_outcome: Err(DaemonReason::DockerUnreachable),
                containers: Vec::new(),
                at,
                detail: Some(e),
            };
        }
    };
    proof {
        assert(lists(api, Ok(listed)));
    }
    let ghost list = listed@;
    let ghost inc = text::texts(included@);
    let ghost exc = text::texts(excluded@);
    let mut checks: Vec<ContainerCheck> = Vec::new();
    let mut i: usize = 0;
    while i < listed.len()
        invariant
            i <= listed.len(),
            list == listed@,
            inc == text::texts(included@),
            exc == text::texts(excluded@),
            covers(api, checks@, admitted(list, inc, exc, i as int), started, budget),
        decreases listed.len() - i,
    {
        if passes_filters(&listed[i].name, included, excluded) {
            let container = listed[i].copy();
            let ghost done = admitted(list, inc, exc, i as int);
            let ghost before = checks@;
            let elapsed = clock::since(&started);
            let check = check_within(api, container, elapsed, budget);
            proof {
                assert(clock::reading(started, elapsed));
                assert(timely(api, check, list[i as int], started, budget));
            }
            checks.push(check);
            proof {
                let now = done.push(list[i as int]);
                assert forall|j: int| 0 <= j < now.len() implies #[trigger] timely(
                    api,
                    checks@[j],
                    now[j],
                    started,
                    budget,
                ) by {
                    if j < done.len() {
                        assert(timely(api, before[j], done[j], started, budget));
                    }
                }
            }
        }
        i += 1;
    }
    let r = Report { daemon_outcome: Ok(checks.len()), containers: checks, at, detail: None };
    proof {
        assert(lists(api, Ok(listed)));
        assert(clock::present(started));
        assert(covers(
            api,
            r.containers@,
            admitted(list, inc, exc, list.len() as int),
            started,
            budget,
        ));
    }
    r
}

/// Runs one check against the Docker daemon an endpoint names, through what
/// `connect` makes of it.
///
/// An endpoint that names nothing is a daemon-level failure; nothing is connected
/// then.
pub fn check<A: DockerApi, F: FnOnce(Client) -> A>(
    endpoint: &str,
    timeout: ConfigDuration,
    registry_timeout: ConfigDuration,
    budget: ConfigDuration,
    included: &Vec<String>,
    excluded: &Vec<String>,
    connect: F,
) -> (r: Report)
    requires
        forall|c: Client| connect.requires((c,)),
    ensures
        match endpoint_of(endpoint@) {
            None => {
                &&& r.daemon_outcome == Err::<usize, DaemonReason>(DaemonReason::InvalidEndpoint)
                &&& r.containers@.len() == 0
                &&& clock::stamp(r.at)
                &&& text::optional(r.detail) == Some(
                    "'"@ + endpoint@ + "' must be unix://<path> or tcp://<host>:<port>"@,
                )
            },
            Some(reach) => exists|c: Client, api: A|
                {
                    &&& c.endpoint@ == (reach, timeout)
                    &&& c.registry_timeout == registry_timeout
                    &&& #[trigger] connect.ensures((c,), api)
                    &&& r.tells(&api, text::texts(included@), text::texts(excluded@), budget)
                },
        },
{
    match parse_docker_endpoint(endpoint, timeout) {
        None => Report {
            daemon_outcome: Err(DaemonReason::InvalidEndpoint),
            containers: Vec::new(),
            at: clock::unix_now(),
            detail: Some(
                text::cat3("'", endpoint, "' must be unix://<path> or tcp://<host>:<port>"),
            ),
        },
        Some(parsed) => {
            let client = Client::new(parsed, registry_timeout);
            let ghost c = client;
            let api = connect(client);
            proof {
                assert(connect.ensures((c,), api));
            }
            run(&api, budget, included, excluded)
        }
    }
}

/// A container whose reference alone decides gets the same verdict whatever the
/// API would answer, and so does one whose image cannot be compared whatever the
/// registry would answer.
pub proof fn law_a_call_that_cannot_matter_does_not(
    image: Seq<char>,
    image_id: Seq<char>,
    d: Result<Seq<Seq<char>>, Seq<char>>,
    e: Result<Seq<Seq<char>>, Seq<char>>,
    m: Result<Seq<char>, Seq<char>>,
    n: Result<Seq<char>, Seq<char>>,
)
    ensures
        settled(image, image_id) ==> verdict(image, image_id, d, m) == verdict(image, image_id, e, n),
        !comparable(image, d) ==> verdict(image, image_id, d, m) == verdict(image, image_id, d, n),
{
}

/// An answer comes only where the digests of both sides are known: an update is
/// available exactly where they differ.
pub proof fn law_an_answer_compares_two_digests(
    image: Seq<char>,
    image_id: Seq<char>,
    d: Result<Seq<Seq<char>>, Seq<char>>,
    m: Result<Seq<char>, Seq<char>>,
)
    ensures
        verdict(image, image_id, d, m).0 matches Ok(available) ==> (split(image) matches Some(
            (repo, _),
        ) && d matches Ok(list) && digest_for(list, repo, 0) matches Some(local) && m matches Ok(
            remote,
        ) && available == (local != remote)),
{
}

} // verus!
