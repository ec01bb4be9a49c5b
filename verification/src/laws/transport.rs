//! What is sent to the Docker daemon, and what is made of its answers.

use vstd::prelude::*;
use vstd::string::*;
use vstd::utf8::encode_utf8;
use crate::config::host::Host;
use crate::config::model::RegistryAuth;
use crate::error::Fault;
use crate::laws::text::{
    law_a_number_reads_back, law_the_first_of_a_character, lemma_trimmed, lemma_words,
};
use crate::modules::image_updates::docker_api::{
    container_in, containers_in, containers_of, containers_path, digest_of, digests_of,
    distribution_path, document, excerpt_of, header, header_value, digest_answer, digests_answer,
    exchange, image_path, list_answer, parse_container_list, parse_remote_digest,
    parse_repo_digests, parse_response, request, response_of, responded, runnings, terminator,
    texts_of, Container, Response, Running,
};
use crate::modules::image_updates::registry_auth::{
    auth_json, base64url, credential_for, decoded, encode_auth, encoded, group, header_for, held,
    json_string, law_base64url_round_trips, registry_of, resolve, resolved, symbol, Credential,
    RegistryCredential,
};
use crate::text;
use crate::yaml::{lookup, Node, Yaml};

verus! {

// ---------------------------------------------------------------------------
// Requests
// ---------------------------------------------------------------------------

/// A path is asked for as it is, in a request that ends with an empty line and closes the
/// connection; one with a control character or a space is not asked for at all.
pub proof fn law_a_request_asks_for_its_path(path: &str, r: Result<String, String>)
    requires
        call_ensures(request, (path,), r),
    ensures
        r is Ok <==> forall|i: int|
            0 <= i < path@.len() ==> {
                &&& (#[trigger] path@[i]) as u32 >= 32
                &&& path@[i] != ' '
                &&& !(127 <= path@[i] as u32 <= 159)
            },
        r matches Ok(sent) ==> sent@ == "GET "@ + path@
            + " HTTP/1.1\r\nHost: docker\r\nAccept: application/json\r\nUser-Agent: muninn\r\nConnection: close\r\n\r\n"@,
{
    if r is Ok {
        assert forall|i: int| 0 <= i < path@.len() implies {
            &&& (#[trigger] path@[i]) as u32 >= 32
                &&& path@[i] != ' '
            &&& !(127 <= path@[i] as u32 <= 159)
        } by {
            assert(path@[i] != ' ');
            assert(!text::control(path@[i]));
        }
    }
    if forall|i: int|
        0 <= i < path@.len() ==> {
            &&& (#[trigger] path@[i]) as u32 >= 32
                &&& path@[i] != ' '
            &&& !(127 <= path@[i] as u32 <= 159)
        } {
        assert forall|i: int| 0 <= i < path@.len() implies !text::control(#[trigger] path@[i])
            && path@[i] != ' ' by {}
    }
}

/// Each question has its own path: only running containers are listed, an image is
/// inspected by its ID, and a reference is resolved as it is written.
pub proof fn law_each_question_has_its_path(
    id: &str,
    reference: &str,
    list: String,
    image: String,
    distribution: String,
)
    requires
        call_ensures(containers_path, (), list),
        call_ensures(image_path, (id,), image),
        call_ensures(distribution_path, (reference,), distribution),
    ensures
        list@ == "/containers/json?"@ + "filters=%7B%22status%22%3A%5B%22running%22%5D%7D"@,
        image@ == "/images/"@ + id@ + "/json"@,
        distribution@ == "/distribution/"@ + reference@ + "/json"@,
{
}

// ---------------------------------------------------------------------------
// Responses
// ---------------------------------------------------------------------------

proof fn lemma_terminator(raw: Seq<u8>, i: int, k: int)
    requires
        0 <= i <= k,
        k + 4 <= raw.len(),
        raw.subrange(k, k + 4) == seq![13u8, 10, 13, 10],
        forall|j: int| i <= j < k ==> #[trigger] raw.subrange(j, j + 4) != seq![13u8, 10, 13, 10],
    ensures
        terminator(raw, i) == Some(k),
    decreases k - i,
{
    if i < k {
        assert(raw.subrange(i, i + 4) != seq![13u8, 10, 13, 10]);
        lemma_terminator(raw, i + 1, k);
    }
}

/// A response is its head, an empty line and its body. Its status is the number behind the
/// protocol, and the body is what the length says, or all of it where none is given.
pub proof fn law_a_response_is_head_and_body(
    h: Seq<u8>,
    b: Seq<u8>,
    protocol: Seq<char>,
    code: nat,
    rest: Seq<char>,
    raw: &Vec<u8>,
    r: Result<Response, String>,
)
    requires
        call_ensures(parse_response, (raw,), r),
        raw@ == h + seq![13u8, 10, 13, 10] + b,
        forall|j: int|
            0 <= j < h.len() ==> #[trigger] raw@.subrange(j, j + 4) != seq![13u8, 10, 13, 10],
        text::lines(text::utf8_lossy(h)).len() > 0,
        text::lines(text::utf8_lossy(h))[0] == protocol + seq![' '] + (text::decimal(code) + rest),
        protocol.len() > 0,
        forall|i: int| 0 <= i < protocol.len() ==> !text::whitespace(#[trigger] protocol[i]),
        rest.len() > 0 ==> text::whitespace(rest[0]),
        code <= 65535,
        header_value(text::lines(text::utf8_lossy(h)), "transfer-encoding"@, 0) is None,
    ensures
        r matches Ok(response) && response.status == code && (match header_value(
            text::lines(text::utf8_lossy(h)),
            "content-length"@,
            0,
        ) {
            None => response.body@ == b,
            Some(v) => forall|n: nat|
                v == #[trigger] text::decimal(n) && n <= usize::MAX ==> response.body@ == (if n
                    < b.len() {
                    b.take(n as int)
                } else {
                    b
                }),
        }),
{
    let k = h.len() as int;
    assert(raw@.subrange(k, k + 4) =~= seq![13u8, 10, 13, 10]);
    lemma_terminator(raw@, 0, k);
    assert(raw@.take(k) =~= h);
    assert(raw@.skip(k + 4) =~= b);
    let number = text::decimal(code);
    law_a_number_reads_back(code);
    assert forall|i: int| 0 <= i < number.len() implies !text::whitespace(#[trigger] number[i]) by {
        assert('0' <= number[i] <= '9');
    }
    let line = protocol + seq![' '] + (number + rest);
    lemma_words(protocol, seq![' '] + (number + rest));
    assert(protocol + (seq![' '] + (number + rest)) =~= line);
    assert((seq![' '] + (number + rest)).skip(1) =~= number + rest);
    assert(text::words(seq![' '] + (number + rest)) == text::words(number + rest));
    lemma_words(number, rest);
    assert(text::words(line)[1] == number);
    assert(text::unsigned(number, u16::MAX as nat) == Some(code));
    assert forall|n: nat| n <= usize::MAX implies text::unsigned(
        #[trigger] text::decimal(n),
        usize::MAX as nat,
    ) == Some(n) by {
        law_a_number_reads_back(n);
    }
    assert(responded(r) == response_of(raw@));
}

proof fn lemma_header_skips(lines: Seq<Seq<char>>, name: Seq<char>, i: int, k: int)
    requires
        0 <= i <= k <= lines.len(),
        forall|j: int|
            i <= j < k ==> {
                let c = text::before_char(#[trigger] lines[j], ':') as int;
                c >= lines[j].len() || text::lowered(text::trimmed(lines[j].take(c)))
                    != text::lowered(name)
            },
    ensures
        header_value(lines, name, i) == header_value(lines, name, k),
    decreases k - i,
{
    if i < k {
        let c = text::before_char(lines[i], ':') as int;
        assert(c >= lines[i].len() || text::lowered(text::trimmed(lines[i].take(c)))
            != text::lowered(name));
        lemma_header_skips(lines, name, i + 1, k);
    }
}

/// A header is found by its name, in whatever case it is written, and gives what stands
/// behind the colon without the blanks around it.
pub proof fn law_a_header_is_found_by_its_name(
    lines: Seq<Seq<char>>,
    k: int,
    written: Seq<char>,
    blank: Seq<char>,
    value: Seq<char>,
    name: Seq<char>,
)
    requires
        0 <= k < lines.len(),
        lines[k] == written + ":"@ + (blank + value),
        written.len() > 0,
        !written.contains(':'),
        !text::whitespace(written[0]),
        !text::whitespace(written.last()),
        text::lowered(written) == text::lowered(name),
        forall|i: int| 0 <= i < blank.len() ==> text::whitespace(#[trigger] blank[i]),
        value.len() > 0,
        !text::whitespace(value[0]),
        !text::whitespace(value.last()),
        forall|j: int|
            0 <= j < k ==> {
                let c = text::before_char(#[trigger] lines[j], ':') as int;
                c >= lines[j].len() || text::lowered(text::trimmed(lines[j].take(c)))
                    != text::lowered(name)
            },
    ensures
        header_value(lines, name, 0) == Some(value),
{
    let none = Seq::<char>::empty();
    lemma_header_skips(lines, name, 0, k);
    reveal_strlit(":");
    assert(":"@ =~= seq![':']);
    law_the_first_of_a_character(written, ':', blank + value);
    let line = lines[k];
    assert(line.take(written.len() as int) =~= written);
    assert(line.skip(written.len() as int + 1) =~= blank + value);
    lemma_trimmed(none, written, none);
    assert(none + written + none =~= written);
    lemma_trimmed(blank, value, none);
    assert(blank + value + none =~= blank + value);
}

// ---------------------------------------------------------------------------
// Documents
// ---------------------------------------------------------------------------

/// A container is told by its own fields: the name without its slash, the reference it was
/// started with, and the image it runs.
pub proof fn law_a_container_is_told_by_its_fields(
    n: Node,
    id: Seq<char>,
    name: Seq<char>,
    image: Seq<char>,
    image_id: Seq<char>,
)
    requires
        n is Table,
        lookup(n, "Id"@) == Some(Node::Text(id)),
        lookup(n, "Names"@) == Some(Node::List(seq![Node::Text("/"@ + name)])),
        lookup(n, "Image"@) == Some(Node::Text(image)),
        lookup(n, "ImageID"@) == Some(Node::Text(image_id)),
        name.len() > 0,
        name[0] != '/',
    ensures
        container_in(n) == Ok::<Running, Seq<char>>(
            Running { name, image_reference: image, image_id },
        ),
{
    let full = "/"@ + name;
    reveal_strlit("/");
    let items = seq![Node::Text(full)];
    assert(texts_of(items, "Names"@, 0) == Ok::<Seq<Seq<char>>, Seq<char>>(Seq::empty()));
    assert(texts_of(items, "Names"@, 1) == Ok::<Seq<Seq<char>>, Seq<char>>(
        Seq::<Seq<char>>::empty().push(full),
    ));
    assert(full[0] == '/');
    assert(full.drop_first() =~= name);
    assert(text::without_leading(full, '/') == text::without_leading(name, '/'));
}

/// A container without a name is told by the start of its ID.
pub proof fn law_a_nameless_container_is_told_by_its_id(
    n: Node,
    id: Seq<char>,
    image: Seq<char>,
    image_id: Seq<char>,
)
    requires
        n is Table,
        lookup(n, "Id"@) == Some(Node::Text(id)),
        lookup(n, "Names"@) is None,
        lookup(n, "Image"@) == Some(Node::Text(image)),
        lookup(n, "ImageID"@) == Some(Node::Text(image_id)),
        id.len() >= 12,
    ensures
        container_in(n) == Ok::<Running, Seq<char>>(
            Running { name: id.take(12), image_reference: image, image_id },
        ),
{
    if id.len() == 12 {
        assert(id.take(12) =~= id);
    }
}

proof fn lemma_containers(items: Seq<Node>, n: int)
    requires
        0 <= n <= items.len(),
    ensures
        match containers_in(items, n) {
            Ok(list) => list.len() == n && forall|i: int|
                0 <= i < n ==> container_in(items[i]) == Ok::<Running, Seq<char>>(
                    #[trigger] list[i],
                ),
            Err(_) => exists|i: int| 0 <= i < n && container_in(#[trigger] items[i]) is Err,
        },
    decreases n,
{
    if n > 0 {
        lemma_containers(items, n - 1);
        match containers_in(items, n - 1) {
            Ok(rest) => {
                if let Ok(c) = container_in(items[n - 1]) {
                    let list = rest.push(c);
                    assert forall|i: int| 0 <= i < n implies container_in(items[i]) == Ok::<
                        Running,
                        Seq<char>,
                    >(#[trigger] list[i]) by {
                        if i < n - 1 {
                            assert(list[i] == rest[i]);
                        }
                    }
                } else {
                    assert(container_in(items[n - 1]) is Err);
                }
            },
            Err(_) => {
                let i = choose|i: int| 0 <= i < n - 1 && container_in(#[trigger] items[i]) is Err;
                assert(container_in(items[i]) is Err);
            },
        }
    }
}

/// Every entry of a list is a container, in its order; one that is none fails the list.
pub proof fn law_every_entry_is_a_container(
    doc: &Result<Yaml, String>,
    items: Seq<Node>,
    r: Result<Vec<Container>, String>,
)
    requires
        call_ensures(containers_of, (doc,), r),
        document(*doc) == Ok::<Node, Seq<char>>(Node::List(items)),
    ensures
        match r {
            Ok(list) => list@.len() == items.len() && forall|i: int|
                0 <= i < items.len() ==> container_in(items[i]) == Ok::<Running, Seq<char>>(
                    (#[trigger] list@[i])@,
                ),
            Err(_) => exists|i: int|
                0 <= i < items.len() && container_in(#[trigger] items[i]) is Err,
        },
{
    lemma_containers(items, items.len() as int);
    if let Ok(list) = r {
        let all = runnings(list@);
        assert(all.len() == list@.len());
        assert forall|i: int| 0 <= i < items.len() implies container_in(items[i]) == Ok::<
            Running,
            Seq<char>,
        >((#[trigger] list@[i])@) by {
            assert(all[i] == list@[i]@);
        }
    }
}

proof fn lemma_texts(items: Seq<Node>, key: Seq<char>, n: int)
    requires
        0 <= n <= items.len(),
        forall|i: int| 0 <= i < items.len() ==> (#[trigger] items[i]) is Text,
    ensures
        texts_of(items, key, n) matches Ok(list) && list.len() == n && forall|i: int|
            0 <= i < n ==> #[trigger] list[i] == items[i]->Text_0,
    decreases n,
{
    if n > 0 {
        lemma_texts(items, key, n - 1);
        assert(items[n - 1] is Text);
    }
}

/// The digests of an image are those under `RepoDigests`, all of them and in their order;
/// an image without them has none.
pub proof fn law_the_digests_are_those_recorded(
    doc: &Result<Yaml, String>,
    n: Node,
    items: Seq<Node>,
    r: Result<Vec<String>, String>,
)
    requires
        call_ensures(digests_of, (doc,), r),
        document(*doc) == Ok::<Node, Seq<char>>(n),
        n is Table,
        forall|i: int| 0 <= i < items.len() ==> (#[trigger] items[i]) is Text,
    ensures
        lookup(n, "RepoDigests"@) == Some(Node::List(items)) ==> (r matches Ok(list) && list@.len()
            == items.len() && forall|i: int|
            0 <= i < items.len() ==> (#[trigger] list@[i])@ == items[i]->Text_0),
        lookup(n, "RepoDigests"@) is None ==> (r matches Ok(list) && list@.len() == 0),
{
    lemma_texts(items, "RepoDigests"@, items.len() as int);
    if let Ok(list) = r {
        let all = text::texts(list@);
        assert(all.len() == list@.len());
        if lookup(n, "RepoDigests"@) == Some(Node::List(items)) {
            assert forall|i: int| 0 <= i < items.len() implies (#[trigger] list@[i])@
                == items[i]->Text_0 by {
                assert(all[i] == list@[i]@);
            }
        }
    }
}

/// What a reference resolves to is the digest of its descriptor.
pub proof fn law_the_remote_digest_is_that_of_the_descriptor(
    doc: &Result<Yaml, String>,
    n: Node,
    d: Node,
    digest: Seq<char>,
    r: Result<String, String>,
)
    requires
        call_ensures(digest_of, (doc,), r),
        document(*doc) == Ok::<Node, Seq<char>>(n),
        n is Table,
        d is Table,
        lookup(n, "Descriptor"@) == Some(d),
        lookup(d, "digest"@) == Some(Node::Text(digest)),
    ensures
        r matches Ok(s) && s@ == digest,
{
}

/// An error says what the daemon's message says, or else how its answer starts.
pub proof fn law_an_error_says_what_the_daemon_says(
    doc: &Result<Yaml, String>,
    body: &Vec<u8>,
    r: String,
)
    requires
        call_ensures(excerpt_of, (doc, body), r),
    ensures
        document(*doc) matches Ok(n) ==> n is Table ==> (lookup(n, "message"@) matches Some(
            Node::Text(m),
        ) ==> r@ == m),
        document(*doc) is Err ==> r@ == (if text::utf8_lossy(body@).len() <= 200 {
            text::utf8_lossy(body@)
        } else {
            text::utf8_lossy(body@).take(200)
        }),
{
}

// ---------------------------------------------------------------------------
// Credentials
// ---------------------------------------------------------------------------

proof fn lemma_resolved(entries: Seq<RegistryAuth>, host: Host, n: int, i: int)
    requires
        0 <= i < n <= entries.len(),
        host.secret(entries[i].password_file@) is Ok,
    ensures
        resolved(entries, host, n).contains(
            Credential {
                registry: entries[i].registry@,
                username: entries[i].username@,
                password: host.secret(entries[i].password_file@)->Ok_0,
            },
        ),
    decreases n,
{
    let c = Credential {
        registry: entries[i].registry@,
        username: entries[i].username@,
        password: host.secret(entries[i].password_file@)->Ok_0,
    };
    let rest = resolved(entries, host, n - 1);
    let all = resolved(entries, host, n);
    if i == n - 1 {
        assert(all[rest.len() as int] == c);
    } else {
        lemma_resolved(entries, host, n - 1, i);
        let k = choose|k: int| 0 <= k < rest.len() && rest[k] == c;
        assert(all[k] == c);
    }
}

/// Every entry whose file can be read gives a credential with its own registry, its own
/// user and the password of its own file.
pub proof fn law_every_readable_entry_gives_its_credential(
    entries: &Vec<RegistryAuth>,
    host: &Host,
    r: (Vec<RegistryCredential>, Vec<String>),
    i: int,
)
    requires
        call_ensures(resolve, (entries, host), r),
        0 <= i < entries@.len(),
        host.secret(entries@[i].password_file@) is Ok,
    ensures
        exists|k: int|
            {
                &&& 0 <= k < r.0@.len()
                &&& (#[trigger] r.0@[k]).registry@ == entries@[i].registry@
                &&& r.0@[k].username@ == entries@[i].username@
                &&& host.secret(entries@[i].password_file@) == Ok::<Seq<char>, Fault>(
                    r.0@[k].password@,
                )
            },
{
    lemma_resolved(entries@, *host, entries@.len() as int, i);
    let all = held(r.0@);
    let c = Credential {
        registry: entries@[i].registry@,
        username: entries@[i].username@,
        password: host.secret(entries@[i].password_file@)->Ok_0,
    };
    let k = choose|k: int| 0 <= k < all.len() && all[k] == c;
    assert(all[k] == r.0@[k]@);
    assert(r.0@[k].registry@ == c.registry);
}

/// The header of a credential is the base64url of a JSON object with its user, its
/// password and its registry.
pub proof fn law_a_header_carries_the_credential(cred: &RegistryCredential, r: String)
    requires
        call_ensures(encode_auth, (cred,), r),
    ensures
        decoded(r@) == encode_utf8(
            "{\"username\":"@ + json_string(cred.username@) + ",\"password\":"@ + json_string(
                cred.password@,
            ) + ",\"serveraddress\":"@ + json_string(cred.registry@) + "}"@,
        ),
{
    law_base64url_round_trips(
        encode_utf8(
            auth_json(
                json_string(cred.username@),
                json_string(cred.password@),
                json_string(cred.registry@),
            ),
        ),
    );
}

/// The digits are those of the URL alphabet, in its order.
pub proof fn law_the_alphabet_is_that_of_urls(d: int)
    requires
        0 <= d < 64,
    ensures
        d < 26 ==> symbol(d) as int == 'A' as int + d,
        26 <= d < 52 ==> symbol(d) as int == 'a' as int + d - 26,
        52 <= d < 62 ==> symbol(d) as int == '0' as int + d - 52,
        d == 62 ==> symbol(d) == '-',
        d == 63 ==> symbol(d) == '_',
{
}

proof fn lemma_digits(x: int, y: int, z: int)
    requires
        0 <= x < 256,
        0 <= y < 256,
        0 <= z < 256,
    ensures
        (x * 65536 + y * 256 + z) / 262144 == x / 4,
        (x * 65536 + y * 256 + z) / 4096 % 64 == (x % 4) * 16 + y / 16,
        (x * 65536 + y * 256 + z) / 64 % 64 == (y % 16) * 4 + z / 64,
        (x * 65536 + y * 256 + z) % 64 == z % 64,
{
    let n = x * 65536 + y * 256 + z;
    let (xq, xr) = (x / 4, x % 4);
    let (yq, yr) = (y / 16, y % 16);
    let (zq, zr) = (z / 64, z % 64);
    assert(x == 4 * xq + xr && y == 16 * yq + yr && z == 64 * zq + zr);
    let a = n / 4096;
    assert(n == 4096 * (64 * xq + 16 * xr + yq) + (256 * yr + z));
    assert(a == 64 * xq + 16 * xr + yq);
    assert(a % 64 == 16 * xr + yq);
    let b = n / 64;
    assert(n == 64 * (1024 * x + 4 * y + zq) + zr);
    assert(b == 1024 * x + 4 * y + zq);
    assert(b == 64 * (16 * x + yq) + (4 * yr + zq));
    assert(b % 64 == 4 * yr + zq);
}

/// Three bytes are four digits of six bits each, the first bits first, and the padding
/// shows what is missing.
pub proof fn law_three_bytes_are_four_digits(a: u8, b: u8, c: u8)
    ensures
        encoded(seq![a, b, c]) == seq![
            symbol(a as int / 4),
            symbol((a as int % 4) * 16 + b as int / 16),
            symbol((b as int % 16) * 4 + c as int / 64),
            symbol(c as int % 64),
        ],
        encoded(seq![a, b]) == seq![
            symbol(a as int / 4),
            symbol((a as int % 4) * 16 + b as int / 16),
            symbol((b as int % 16) * 4),
            '=',
        ],
        encoded(seq![a]) == seq![symbol(a as int / 4), symbol((a as int % 4) * 16), '=', '='],
{
    let (x, y, z) = (a as int, b as int, c as int);
    lemma_digits(x, y, z);
    lemma_digits(x, y, 0);
    lemma_digits(x, 0, 0);
    assert(group(seq![a, b, c]) =~= seq![
        symbol(x / 4),
        symbol((x % 4) * 16 + y / 16),
        symbol((y % 16) * 4 + z / 64),
        symbol(z % 64),
    ]);
    assert(encoded(seq![a, b, c]) =~= seq![
        symbol(x / 4),
        symbol((x % 4) * 16 + y / 16),
        symbol((y % 16) * 4 + z / 64),
        symbol(z % 64),
    ]);
    assert(encoded(seq![a, b]) =~= seq![
        symbol(x / 4),
        symbol((x % 4) * 16 + y / 16),
        symbol((y % 16) * 4),
        '=',
    ]);
    assert(encoded(seq![a]) =~= seq![symbol(x / 4), symbol((x % 4) * 16), '=', '=']);
}

/// The registry of a reference is what stands before its first slash, and a credential
/// for it is the first that is held for it.
pub proof fn law_the_registry_comes_first(
    registry: Seq<char>,
    rest: Seq<char>,
    reference: &str,
    r: String,
)
    requires
        call_ensures(registry_of, (reference,), r),
        reference@ == registry + "/"@ + rest,
        !registry.contains('/'),
    ensures
        r@ == registry,
{
    reveal_strlit("/");
    assert("/"@ =~= seq!['/']);
    law_the_first_of_a_character(registry, '/', rest);
    assert(reference@.take(registry.len() as int) =~= registry);
}


proof fn lemma_credential_skips(list: Seq<Credential>, registry: Seq<char>, i: int, k: int)
    requires
        0 <= i <= k <= list.len(),
        forall|j: int| i <= j < k ==> (#[trigger] list[j]).registry != registry,
    ensures
        credential_for(list, registry, i) == credential_for(list, registry, k),
    decreases k - i,
{
    if i < k {
        assert(list[i].registry != registry);
        lemma_credential_skips(list, registry, i + 1, k);
    }
}

/// A reference is sent the credential of its own registry, and none where there is none.
pub proof fn law_a_reference_gets_the_credential_of_its_registry(
    credentials: &Vec<RegistryCredential>,
    registry: Seq<char>,
    rest: Seq<char>,
    reference: &str,
    k: int,
    r: Option<String>,
    sent: String,
)
    requires
        call_ensures(header_for, (credentials, reference), r),
        reference@ == registry + "/"@ + rest,
        !registry.contains('/'),
    ensures
        0 <= k < credentials@.len() && credentials@[k].registry@ == registry && (forall|j: int|
            0 <= j < k ==> (#[trigger] credentials@[j]).registry@ != registry) && call_ensures(
            encode_auth,
            (&credentials@[k],),
            sent,
        ) ==> (r matches Some(s) && s@ == sent@),
        (forall|j: int|
            0 <= j < credentials@.len() ==> (#[trigger] credentials@[j]).registry@ != registry)
            ==> r is None,
{
    reveal_strlit("/");
    assert("/"@ =~= seq!['/']);
    law_the_first_of_a_character(registry, '/', rest);
    assert(reference@.take(registry.len() as int) =~= registry);
    let all = held(credentials@);
    assert(all.len() == credentials@.len());
    assert forall|j: int| 0 <= j < all.len() implies (#[trigger] all[j]).registry
        == credentials@[j].registry@ by {
        assert(all[j] == credentials@[j]@);
    }
    if 0 <= k < credentials@.len() && credentials@[k].registry@ == registry && (forall|j: int|
        0 <= j < k ==> (#[trigger] credentials@[j]).registry@ != registry) {
        assert forall|j: int| 0 <= j < k implies (#[trigger] all[j]).registry != registry by {
            assert(credentials@[j].registry@ != registry);
        }
        lemma_credential_skips(all, registry, 0, k);
        assert(all[k] == credentials@[k]@);
    }
    if forall|j: int|
        0 <= j < credentials@.len() ==> (#[trigger] credentials@[j]).registry@ != registry {
        assert forall|j: int| 0 <= j < all.len() implies (#[trigger] all[j]).registry
            != registry by {
            assert(credentials@[j].registry@ != registry);
        }
        lemma_credential_skips(all, registry, 0, all.len() as int);
    }
}

/// An answer is taken only where it succeeded, and refused with its code otherwise; one
/// that is too long is not taken at all.
pub proof fn law_only_a_success_is_taken(
    path: &str,
    resp: &Response,
    list: Result<Vec<Container>, String>,
    digests: Result<Vec<String>, String>,
    digest: Result<String, String>,
    body_list: Result<Vec<Container>, String>,
    body_digests: Result<Vec<String>, String>,
    body_digest: Result<String, String>,
)
    requires
        call_ensures(list_answer, (resp,), list),
        call_ensures(digests_answer, (path, resp), digests),
        call_ensures(digest_answer, (path, resp), digest),
        call_ensures(parse_container_list, (&resp.body,), body_list),
        call_ensures(parse_repo_digests, (&resp.body,), body_digests),
        call_ensures(parse_remote_digest, (&resp.body,), body_digest),
    ensures
        resp.status != 200 ==> list is Err && digests is Err && digest is Err,
        resp.status != 200 ==> (digests matches Err(e) && ("GET "@ + path@ + " answered "@
            + text::decimal(resp.status as nat)).is_prefix_of(e@)),
        resp.status == 200 ==> (list is Ok <==> body_list is Ok),
        resp.status == 200 ==> (list matches Ok(a) ==> (body_list matches Ok(b) && runnings(a@)
            == runnings(b@))),
        resp.status == 200 ==> (digests is Ok <==> body_digests is Ok),
        resp.status == 200 ==> (digests matches Ok(a) ==> (body_digests matches Ok(b)
            && text::texts(a@) == text::texts(b@))),
        resp.status == 200 ==> (digest is Ok <==> body_digest is Ok),
        resp.status == 200 ==> (digest matches Ok(a) ==> (body_digest matches Ok(b) && a@ == b@)),
{
    if resp.status != 200 {
        let e = digests->Err_0;
        let start = "GET "@ + path@ + " answered "@ + text::decimal(resp.status as nat);
        let rest = crate::modules::image_updates::docker_api::excerpt(
            crate::json::json_document(resp.body@),
            resp.body@,
        );
        assert(e@ == start + ": "@ + rest);
        assert(e@.subrange(0, start.len() as int) =~= start);
    }
}

/// A reply of more than four mebibytes is refused; any other is read.
pub proof fn law_a_reply_is_bounded(
    path: &str,
    raw: &Vec<u8>,
    r: Result<Response, String>,
    p: Result<Response, String>,
)
    requires
        call_ensures(exchange, (path, raw), r),
        call_ensures(parse_response, (raw,), p),
    ensures
        raw@.len() > 4194304 ==> r is Err,
        raw@.len() <= 4194304 ==> responded(r) == responded(p),
{
}

} // verus!
