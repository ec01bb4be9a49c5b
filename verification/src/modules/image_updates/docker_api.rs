//! The Docker Engine API as far as the image check needs it: what is asked, and
//! what is made of the answers.
//!
//! Three calls, three response shapes, one connection each. `Connection: close` is
//! requested every time, so that reading to the end of the stream is correct.

use vstd::prelude::*;
use vstd::string::*;
use crate::config::schema::{described, describe};
use crate::duration::ConfigDuration;
use crate::json::{json_document, read_json};
use crate::modules::{Endpoint, EndpointKind};
use crate::text;
use crate::yaml::{lookup, Node, Yaml};

verus! {

/// One container the daemon reports as running.
#[derive(Debug, Clone, PartialEq, Eq)]
pub struct Container {
    /// Without the leading slash the Engine API prepends; a shortened container
    /// ID where there is no name.
    pub name: String,
    /// The reference the container was created with.
    pub image_reference: String,
    /// The image the container runs, which its tag need not point to any more.
    pub image_id: String,
}

impl Container {
    pub fn copy(&self) -> (r: Self)
        ensures
            r == *self,
    {
        Container {
            name: self.name.clone(),
            image_reference: self.image_reference.clone(),
            image_id: self.image_id.clone(),
        }
    }
}

/// The three calls the image check makes.
pub trait DockerApi {
    fn list_running_containers(&self) -> Result<Vec<Container>, String>;

    fn repo_digests(&self, image_id: &str) -> Result<Vec<String>, String>;

    fn remote_digest(&self, image_reference: &str) -> Result<String, String>;
}

/// Where the daemon is, and how long each kind of call may take: the calls it
/// answers out of its own state, and the one that makes it ask a registry.
#[derive(Debug)]
pub struct Client {
    pub endpoint: Endpoint,
    pub registry_timeout: ConfigDuration,
}

impl Client {
    pub fn new(endpoint: Endpoint, registry_timeout: ConfigDuration) -> (r: Self)
        ensures
            r.endpoint == endpoint,
            r.registry_timeout == registry_timeout,
    {
        Client { endpoint, registry_timeout }
    }

    /// The same endpoint, with the registry timeout in place of the API one.
    pub fn registry_endpoint(&self) -> (r: Endpoint)
        ensures
            r.kind == self.endpoint.kind,
            r.timeout == self.registry_timeout,
    {
        let kind = match &self.endpoint.kind {
            EndpointKind::UnixSocket(path) => EndpointKind::UnixSocket(path.clone()),
            EndpointKind::Tcp(address) => EndpointKind::Tcp(address.clone()),
        };
        Endpoint { kind, timeout: self.registry_timeout }
    }
}

// ---------------------------------------------------------------------------
// Requests
// ---------------------------------------------------------------------------

/// `filters={"status":["running"]}`, percent-encoded.
pub const RUNNING_FILTER: &'static str = "filters=%7B%22status%22%3A%5B%22running%22%5D%7D";

/// The most of a response that is held in memory: four megabytes, far above any
/// of the documents asked for.
pub const MAX_RESPONSE_BYTES: u64 = 4194304;

/// The path that lists the running containers.
pub fn containers_path() -> (r: String)
    ensures
        r@ == "/containers/json?"@ + RUNNING_FILTER@,
{
    text::cat2("/containers/json?", RUNNING_FILTER)
}

/// The path that inspects an image.
pub fn image_path(image_id: &str) -> (r: String)
    ensures
        r@ == "/images/"@ + image_id@ + "/json"@,
{
    text::cat3("/images/", image_id, "/json")
}

/// The path that resolves a reference against its registry. The daemon expects
/// the reference as it is written, unencoded.
pub fn distribution_path(reference: &str) -> (r: String)
    ensures
        r@ == "/distribution/"@ + reference@ + "/json"@,
{
    text::cat3("/distribution/", reference, "/json")
}

/// Whether a path may stand in a request line: no control character, no space.
pub open spec fn sendable(path: Seq<char>) -> bool {
    forall|i: int| 0 <= i < path.len() ==> !text::control(#[trigger] path[i]) && path[i] != ' '
}

/// The message for a path that may not be sent.
pub open spec fn unsendable(path: Seq<char>) -> Seq<char> {
    "refusing to send a request whose path contains a control character or space: "@
        + text::debug_quoted(path)
}

/// Refuses a path that would not stay within its request line. Every request
/// passes through here before anything is sent: paths are made from what the
/// daemon reports.
pub fn check_path(path: &str) -> (r: Result<(), String>)
    ensures
        match r {
            Ok(_) => sendable(path@),
            Err(e) => !sendable(path@) && e@ == unsendable(path@),
        },
{
    let c = text::chars_of(path);
    let mut i: usize = 0;
    while i < c.len()
        invariant
            c@ == path@,
            i <= c.len(),
            forall|j: int| 0 <= j < i ==> !text::control(#[trigger] path@[j]) && path@[j] != ' ',
        decreases c.len() - i,
    {
        if text::is_control(c[i]) || c[i] == ' ' {
            proof {
                assert(text::control(path@[i as int]) || path@[i as int] == ' ');
            }
            return Err(
                text::cat2(
                    "refusing to send a request whose path contains a control character or space: ",
                    &text::quote_debug(path),
                ),
            );
        }
        i += 1;
    }
    Ok(())
}

/// The request for a path.
pub open spec fn request_text(path: Seq<char>) -> Seq<char> {
    "GET "@ + path
        + " HTTP/1.1\r\nHost: docker\r\nAccept: application/json\r\nUser-Agent: muninn\r\nConnection: close\r\n\r\n"@
}

/// The request for a path, unless the path may not be sent.
pub fn request(path: &str) -> (r: Result<String, String>)
    ensures
        match r {
            Ok(text) => sendable(path@) && text@ == request_text(path@),
            Err(e) => !sendable(path@) && e@ == unsendable(path@),
        },
{
    if let Err(e) = check_path(path) {
        return Err(e);
    }
    Ok(
        text::cat3(
            "GET ",
            path,
            " HTTP/1.1\r\nHost: docker\r\nAccept: application/json\r\nUser-Agent: muninn\r\nConnection: close\r\n\r\n",
        ),
    )
}

/// A path that may be sent stays in its request line: the first line end of the
/// request, and its first two spaces, are those written around it.
pub proof fn law_a_sent_path_stays_in_its_request_line(path: Seq<char>)
    requires
        sendable(path),
    ensures
        forall|i: int|
            0 <= i < 4 + path.len() ==> !text::control(#[trigger] request_text(path)[i]) && (
            request_text(path)[i] == ' ' ==> i == 3),
        request_text(path)[4 + path.len() as int] == ' ',
{
    reveal_strlit("GET ");
    reveal_strlit(
        " HTTP/1.1\r\nHost: docker\r\nAccept: application/json\r\nUser-Agent: muninn\r\nConnection: close\r\n\r\n",
    );
    let r = request_text(path);
    assert forall|i: int| 0 <= i < 4 + path.len() implies !text::control(#[trigger] r[i]) && (r[i]
        == ' ' ==> i == 3) by {
        if i < 4 {
            assert(r[i] == "GET "@[i]);
        } else {
            assert(r[i] == path[i - 4]);
        }
    }
}

// ---------------------------------------------------------------------------
// Responses
// ---------------------------------------------------------------------------

#[derive(Debug)]
pub struct Response {
    pub status: u16,
    pub body: Vec<u8>,
}

/// The end of the header: an empty line.
pub open spec fn header_end() -> Seq<u8> {
    seq![13u8, 10u8, 13u8, 10u8]
}

/// Where the header ends, from `i` on.
pub open spec fn terminator(raw: Seq<u8>, i: int) -> Option<int>
    decreases raw.len() - i,
{
    if i < 0 || i + 4 > raw.len() {
        None
    } else if raw.subrange(i, i + 4) == header_end() {
        Some(i)
    } else {
        terminator(raw, i + 1)
    }
}

fn find_terminator(raw: &Vec<u8>) -> (r: Option<usize>)
    ensures
        match r {
            Some(i) => i + 4 <= raw.len() && terminator(raw@, 0) == Some(i as int),
            None => terminator(raw@, 0) is None,
        },
{
    if raw.len() < 4 {
        return None;
    }
    let mut i: usize = 0;
    while i <= raw.len() - 4
        invariant
            4 <= raw.len(),
            i <= raw.len() - 3,
            terminator(raw@, 0) == terminator(raw@, i as int),
        decreases raw.len() - i,
    {
        let ghost window = raw@.subrange(i as int, i + 4);
        if raw[i] == 13 && raw[i + 1] == 10 && raw[i + 2] == 13 && raw[i + 3] == 10 {
            proof {
                assert(window =~= header_end());
            }
            return Some(i);
        }
        proof {
            assert(window[0] == raw@[i as int] && window[1] == raw@[i + 1] && window[2] == raw@[i
                + 2] && window[3] == raw@[i + 3]);
            let e = header_end();
            assert(e[0] == 13 && e[1] == 10 && e[2] == 13 && e[3] == 10);
        }
        i += 1;
    }
    None
}

fn bytes_between(raw: &Vec<u8>, from: usize, to: usize) -> (r: Vec<u8>)
    requires
        from <= to <= raw.len(),
    ensures
        r@ == raw@.subrange(from as int, to as int),
{
    let mut out: Vec<u8> = Vec::new();
    let mut i: usize = from;
    while i < to
        invariant
            from <= i <= to <= raw.len(),
            out@ == raw@.subrange(from as int, i as int),
        decreases to - i,
    {
        out.push(raw[i]);
        proof {
            assert(out@ =~= raw@.subrange(from as int, i + 1));
        }
        i += 1;
    }
    out
}

/// The value of the first header line from `i` on with a given name, in any case.
pub open spec fn header_value(lines: Seq<Seq<char>>, name: Seq<char>, i: int) -> Option<Seq<char>>
    decreases lines.len() - i,
{
    if i < 0 || i >= lines.len() {
        None
    } else {
        let k = text::before_char(lines[i], ':') as int;
        if k < lines[i].len() && text::lowered(text::trimmed(lines[i].take(k))) == text::lowered(
            name,
        ) {
            Some(text::trimmed(lines[i].skip(k + 1)))
        } else {
            header_value(lines, name, i + 1)
        }
    }
}

/// The value of a header, by its name in any case.
pub fn header(head: &str, name: &str) -> (r: Option<String>)
    ensures
        text::optional(r) == header_value(text::lines(head@), name@, 0),
{
    let lines = text::split_lines(head);
    let wanted = text::to_lower(name);
    let ghost all = text::lines(head@);
    let mut i: usize = 0;
    while i < lines.len()
        invariant
            i <= lines.len(),
            all == text::texts(lines@),
            all == text::lines(head@),
            wanted@ == text::lowered(name@),
            header_value(all, name@, 0) == header_value(all, name@, i as int),
        decreases lines.len() - i,
    {
        proof {
            assert(all[i as int] == lines@[i as int]@);
        }
        let c = text::chars_of(&lines[i]);
        let k: usize = text::position_of(&c, ':', 0);
        proof {
            assert(c@.skip(0) =~= c@);
        }
        if k < c.len() {
            let key = text::string_between(&c, 0, k);
            proof {
                assert(key@ =~= c@.take(k as int));
            }
            if text::same(&text::to_lower(&text::trim(&key)), &wanted) {
                let value = text::string_between(&c, k + 1, c.len());
                proof {
                    assert(value@ =~= c@.skip(k + 1));
                }
                return Some(text::trim(&value));
            }
        }
        i += 1;
    }
    None
}

/// The first line of a header.
pub open spec fn status_line(head: Seq<char>) -> Seq<char> {
    let lines = text::lines(head);
    if lines.len() > 0 {
        lines[0]
    } else {
        ""@
    }
}

/// The status code of a header: the second word of its first line.
pub open spec fn status_code(head: Seq<char>) -> Option<nat> {
    let words = text::words(status_line(head));
    if words.len() > 1 {
        text::unsigned(words[1], u16::MAX as nat)
    } else {
        None
    }
}

/// The body as long as the header says, and no longer than it is.
pub open spec fn limited(body: Seq<u8>, head: Seq<char>) -> Seq<u8> {
    match header_value(text::lines(head), "content-length"@, 0) {
        Some(v) => match text::unsigned(v, usize::MAX as nat) {
            Some(n) => if n < body.len() {
                body.take(n as int)
            } else {
                body
            },
            None => body,
        },
        None => body,
    }
}

/// Whether a header announces chunked transfer encoding.
pub open spec fn chunked(head: Seq<char>) -> bool {
    header_value(text::lines(head), "transfer-encoding"@, 0) matches Some(v) && text::lowered(v)
        == "chunked"@
}

/// What a response says: its status and body, or why it cannot be read.
pub open spec fn response_of(raw: Seq<u8>) -> Result<(nat, Seq<u8>), Seq<char>> {
    match terminator(raw, 0) {
        None => Err("the response had no header terminator"@),
        Some(i) => {
            let head = text::utf8_lossy(raw.take(i));
            match status_code(head) {
                None => Err("no status code in '"@ + status_line(head) + "'"@),
                Some(status) => if chunked(head) {
                    Err(
                        "the response used chunked transfer encoding, which this client does not support — none of the endpoints it calls should ever stream"@,
                    )
                } else {
                    Ok((status, limited(raw.skip(i + 4), head)))
                },
            }
        },
    }
}

/// What a response is, as mathematical data.
pub open spec fn responded(r: Result<Response, String>) -> Result<(nat, Seq<u8>), Seq<char>> {
    match r {
        Ok(x) => Ok((x.status as nat, x.body@)),
        Err(e) => Err(e@),
    }
}

fn read_status(head: &str, line: &str) -> (r: Option<u16>)
    requires
        line@ == status_line(head@),
    ensures
        match r {
            Some(n) => status_code(head@) == Some(n as nat),
            None => status_code(head@) is None,
        },
{
    let words = text::split_words(line);
    let ghost all = text::words(line@);
    proof {
        assert(all.len() == words@.len());
    }
    if words.len() > 1 {
        proof {
            assert(all[1] == words@[1]@);
        }
        match text::parse_unsigned(&words[1], u16::MAX as u64) {
            Some(n) => Some(n as u16),
            None => None,
        }
    } else {
        None
    }
}

/// Reads a response. A chunked one is refused by name: it would be mis-parsed as
/// one malformed body.
pub fn parse_response(raw: &Vec<u8>) -> (r: Result<Response, String>)
    ensures
        responded(r) == response_of(raw@),
{
    let split: usize = match find_terminator(raw) {
        Some(i) => i,
        None => return Err("the response had no header terminator".to_owned()),
    };
    let head_bytes = bytes_between(raw, 0, split);
    let body = bytes_between(raw, split + 4, raw.len());
    proof {
        assert(head_bytes@ =~= raw@.take(split as int));
        assert(body@ =~= raw@.skip(split + 4));
    }
    let head = text::lossy(&head_bytes);
    let lines = text::split_lines(&head);
    proof {
        assert(text::texts(lines@).len() == lines@.len());
        if lines@.len() > 0 {
            assert(text::texts(lines@)[0] == lines@[0]@);
        }
    }
    let line = if lines.len() > 0 {
        lines[0].clone()
    } else {
        "".to_owned()
    };
    let status: u16 = match read_status(&head, &line) {
        Some(n) => n,
        None => return Err(text::cat3("no status code in '", &line, "'")),
    };
    match header(&head, "transfer-encoding") {
        Some(v) => {
            if text::same(&text::to_lower(&v), "chunked") {
                return Err(
                    "the response used chunked transfer encoding, which this client does not support — none of the endpoints it calls should ever stream".to_owned(),
                );
            }
        }
        None => {}
    }
    match header(&head, "content-length") {
        Some(v) => match text::parse_unsigned(&v, usize::MAX as u64) {
            Some(n) => {
                if n < body.len() as u64 {
                    let cut = bytes_between(&body, 0, n as usize);
                    proof {
                        assert(cut@ =~= body@.take(n as int));
                    }
                    return Ok(Response { status, body: cut });
                }
            }
            None => {}
        },
        None => {}
    }
    Ok(Response { status, body })
}

/// What is made of the bytes a request to `path` was answered with: more than the
/// cap is refused, the rest is read.
pub fn exchange(path: &str, raw: &Vec<u8>) -> (r: Result<Response, String>)
    ensures
        responded(r) == (if raw@.len() > MAX_RESPONSE_BYTES {
            Err(
                "the response to '"@ + path@
                    + "' exceeded 4194304 bytes — none of the endpoints this client calls returns anything close to that"@,
            )
        } else {
            response_of(raw@)
        }),
{
    if raw.len() as u64 > MAX_RESPONSE_BYTES {
        return Err(
            text::cat3(
                "the response to '",
                path,
                "' exceeded 4194304 bytes — none of the endpoints this client calls returns anything close to that",
            ),
        );
    }
    parse_response(raw)
}

// ---------------------------------------------------------------------------
// Documents
// ---------------------------------------------------------------------------

/// Whether a value can stand for an object of so many fields: it is one, or an array
/// that gives the fields in their order.
pub open spec fn stands_for(n: Node, fields: nat) -> bool {
    n is Table || (n matches Node::List(items) && items.len() <= fields)
}

fn can_stand_for(y: &Yaml, fields: usize) -> (r: bool)
    ensures
        r == stands_for(y@, fields as nat),
{
    match y {
        Yaml::Table(_) => true,
        Yaml::List(items) => {
            proof {
                assert(y@->List_0.len() == items@.len());
            }
            items.len() <= fields
        }
        _ => false,
    }
}

/// The field of an object by its key, or that of an array by its place.
pub open spec fn field(n: Node, key: Seq<char>, place: int) -> Option<Node> {
    match n {
        Node::List(items) => if 0 <= place < items.len() {
            Some(items[place])
        } else {
            None
        },
        _ => lookup(n, key),
    }
}

fn field_of<'a>(y: &'a Yaml, key: &str, place: usize) -> (r: Option<&'a Yaml>)
    ensures
        match r {
            Some(v) => field(y@, key@, place as int) == Some(v@),
            None => field(y@, key@, place as int) is None,
        },
{
    match y {
        Yaml::List(items) => {
            proof {
                assert(y@->List_0.len() == items@.len());
            }
            if place < items.len() {
                proof {
                    assert(y@->List_0[place as int] == items@[place as int]@);
                }
                Some(&items[place])
            } else {
                None
            }
        }
        _ => y.get(key),
    }
}


/// A string a document holds under a key, or what is wrong with it.
pub open spec fn text_field(n: Node, key: Seq<char>, place: int) -> Result<Seq<char>, Seq<char>> {
    match field(n, key, place) {
        Some(Node::Text(s)) => Ok(s),
        Some(v) => Err(key + ": invalid type: "@ + described(v) + ", expected a string"@),
        None => Err("missing field `"@ + key + "`"@),
    }
}

fn read_text_field(y: &Yaml, key: &str, place: usize) -> (r: Result<String, String>)
    ensures
        (match r {
            Ok(s) => Ok(s@),
            Err(e) => Err(e@),
        }) == text_field(y@, key@, place as int),
{
    match field_of(y, key, place) {
        Some(Yaml::Text(s)) => Ok(s.clone()),
        Some(v) => Err(
            text::cat4(key, ": invalid type: ", &describe(v), ", expected a string"),
        ),
        None => Err(text::cat3("missing field `", key, "`")),
    }
}

/// The first `n` items of a list of strings, or what is wrong with one.
pub open spec fn texts_of(items: Seq<Node>, key: Seq<char>, n: int) -> Result<
    Seq<Seq<char>>,
    Seq<char>,
>
    decreases n,
{
    if n <= 0 {
        Ok(Seq::empty())
    } else {
        match texts_of(items, key, n - 1) {
            Err(e) => Err(e),
            Ok(list) => match items[n - 1] {
                Node::Text(s) => Ok(list.push(s)),
                other => Err(key + ": invalid type: "@ + described(other) + ", expected a string"@),
            },
        }
    }
}

/// A list of strings a document holds under a key; empty where the key is absent.
pub open spec fn texts_field(n: Node, key: Seq<char>, place: int) -> Result<
    Seq<Seq<char>>,
    Seq<char>,
> {
    match field(n, key, place) {
        Some(Node::List(items)) => texts_of(items, key, items.len() as int),
        Some(v) => Err(key + ": invalid type: "@ + described(v) + ", expected a sequence"@),
        None => Ok(Seq::empty()),
    }
}

proof fn lemma_texts_of_fails(items: Seq<Node>, key: Seq<char>, i: int, n: int)
    requires
        0 <= i <= n,
        texts_of(items, key, i) is Err,
    ensures
        texts_of(items, key, n) == texts_of(items, key, i),
    decreases n - i,
{
    if i < n {
        lemma_texts_of_fails(items, key, i, n - 1);
    }
}

fn read_texts_field(y: &Yaml, key: &str, place: usize) -> (r: Result<Vec<String>, String>)
    ensures
        (match r {
            Ok(v) => Ok(text::texts(v@)),
            Err(e) => Err(e@),
        }) == texts_field(y@, key@, place as int),
{
    let mut out: Vec<String> = Vec::new();
    proof {
        assert(text::texts(out@) =~= Seq::<Seq<char>>::empty());
    }
    match field_of(y, key, place) {
        Some(v) => match v {
            Yaml::List(items) => {
                let ghost nodes = v@->List_0;
                let mut i: usize = 0;
                while i < items.len()
                    invariant
                        i <= items.len(),
                        field(y@, key@, place as int) == Some(Node::List(nodes)),
                        nodes.len() == items.len(),
                        forall|j: int| 0 <= j < items.len() ==> #[trigger] nodes[j] == items@[j]@,
                        texts_of(nodes, key@, i as int) == Ok::<Seq<Seq<char>>, Seq<char>>(
                            text::texts(out@),
                        ),
                    decreases items.len() - i,
                {
                    proof {
                        assert(nodes[i as int] == items@[i as int]@);
                    }
                    match &items[i] {
                        Yaml::Text(s) => text::note(&mut out, s.clone()),
                        other => {
                            proof {
                                lemma_texts_of_fails(
                                    nodes,
                                    key@,
                                    i + 1,
                                    nodes.len() as int,
                                );
                            }
                            return Err(
                                text::cat4(
                                    key,
                                    ": invalid type: ",
                                    &describe(other),
                                    ", expected a string",
                                ),
                            );
                        }
                    }
                    i += 1;
                }
                Ok(out)
            }
            _ => Err(
                text::cat4(key, ": invalid type: ", &describe(v), ", expected a sequence"),
            ),
        },
        None => Ok(out),
    }
}

/// What a [`Container`] holds.
pub struct Running {
    pub name: Seq<char>,
    pub image_reference: Seq<char>,
    pub image_id: Seq<char>,
}

impl View for Container {
    type V = Running;

    open spec fn view(&self) -> Running {
        Running {
            name: self.name@,
            image_reference: self.image_reference@,
            image_id: self.image_id@,
        }
    }
}

/// The name a container is reported under: its first, without leading slashes; or
/// the first twelve characters of its ID.
pub open spec fn display_name(names: Seq<Seq<char>>, id: Seq<char>) -> Seq<char> {
    if names.len() > 0 && text::without_leading(names[0], '/').len()
        > 0 {
        text::without_leading(names[0], '/')
    } else {
        text::at_most(id, 12)
    }
}

/// A container's name carries no leading slash, unless its ID does.
pub proof fn law_a_name_carries_no_leading_slash(names: Seq<Seq<char>>, id: Seq<char>)
    requires
        id.len() > 0 ==> id[0] != '/',
    ensures
        display_name(names, id).len() > 0 ==> display_name(names, id)[0] != '/',
{
    if names.len() > 0 {
        text::lemma_without_leading(names[0], '/');
    }
}

/// A container summary, or what is wrong with it.
pub open spec fn container_in(n: Node) -> Result<Running, Seq<char>> {
    if !stands_for(n, 4) {
        Err("invalid type: "@ + described(n) + ", expected a container summary"@)
    } else {
        match text_field(n, "Id"@, 0) {
            Err(e) => Err(e),
            Ok(id) => match texts_field(n, "Names"@, 1) {
                Err(e) => Err(e),
                Ok(names) => match text_field(n, "Image"@, 2) {
                    Err(e) => Err(e),
                    Ok(image) => match text_field(n, "ImageID"@, 3) {
                        Err(e) => Err(e),
                        Ok(image_id) => Ok(
                            Running {
                                name: display_name(names, id),
                                image_reference: image,
                                image_id,
                            },
                        ),
                    },
                },
            },
        }
    }
}

fn read_container(y: &Yaml) -> (r: Result<Container, String>)
    ensures
        (match r {
            Ok(c) => Ok(c@),
            Err(e) => Err(e@),
        }) == container_in(y@),
{
    if !can_stand_for(y, 4) {
        return Err(
            text::cat3("invalid type: ", &describe(y), ", expected a container summary"),
        );
    }
    let id = match read_text_field(y, "Id", 0) {
        Ok(s) => s,
        Err(e) => return Err(e),
    };
    let names = match read_texts_field(y, "Names", 1) {
        Ok(v) => v,
        Err(e) => return Err(e),
    };
    let image_reference = match read_text_field(y, "Image", 2) {
        Ok(s) => s,
        Err(e) => return Err(e),
    };
    let image_id = match read_text_field(y, "ImageID", 3) {
        Ok(s) => s,
        Err(e) => return Err(e),
    };
    proof {
        assert(text::texts(names@).len() == names@.len());
        if names@.len() > 0 {
            assert(text::texts(names@)[0] == names@[0]@);
        }
    }
    let mut name = text::first_chars(&id, 12);
    if names.len() > 0 {
        let bare = text::trim_leading(&names[0], '/');
        if !bare.as_str().is_empty() {
            name = bare;
        }
    }
    Ok(Container { name, image_reference, image_id })
}

/// The contents of a list of containers.
pub open spec fn runnings(list: Seq<Container>) -> Seq<Running> {
    list.map_values(|c: Container| c@)
}

/// The first `n` of a list of container summaries, or what is wrong with one.
pub open spec fn containers_in(items: Seq<Node>, n: int) -> Result<Seq<Running>, Seq<char>>
    decreases n,
{
    if n <= 0 {
        Ok(Seq::empty())
    } else {
        match containers_in(items, n - 1) {
            Err(e) => Err(e),
            Ok(list) => match container_in(items[n - 1]) {
                Ok(c) => Ok(list.push(c)),
                Err(e) => Err(e),
            },
        }
    }
}

proof fn lemma_containers_in_fails(items: Seq<Node>, i: int, n: int)
    requires
        0 <= i <= n,
        containers_in(items, i) is Err,
    ensures
        containers_in(items, n) == containers_in(items, i),
    decreases n - i,
{
    if i < n {
        lemma_containers_in_fails(items, i, n - 1);
    }
}

/// A parsed document, as mathematical data.
pub open spec fn document(doc: Result<Yaml, String>) -> Result<Node, Seq<char>> {
    match doc {
        Ok(y) => Ok(y@),
        Err(e) => Err(e@),
    }
}

/// The containers a document lists.
pub open spec fn container_list(doc: Result<Node, Seq<char>>) -> Result<Seq<Running>, Seq<char>> {
    let raw = match doc {
        Err(e) => Err(e),
        Ok(Node::List(items)) => containers_in(items, items.len() as int),
        Ok(n) => Err("invalid type: "@ + described(n) + ", expected a sequence"@),
    };
    match raw {
        Ok(list) => Ok(list),
        Err(e) => Err("could not parse the container list: "@ + e),
    }
}

fn read_containers(y: &Yaml) -> (r: Result<Vec<Container>, String>)
    ensures
        (match r {
            Ok(v) => Ok(runnings(v@)),
            Err(e) => Err(e@),
        }) == (match y@ {
            Node::List(items) => containers_in(items, items.len() as int),
            n => Err("invalid type: "@ + described(n) + ", expected a sequence"@),
        }),
{
    match y {
        Yaml::List(items) => {
            let ghost nodes = y@->List_0;
            let mut out: Vec<Container> = Vec::new();
            let mut i: usize = 0;
            proof {
                assert(runnings(out@) =~= Seq::<Running>::empty());
            }
            while i < items.len()
                invariant
                    i <= items.len(),
                    y@ == Node::List(nodes),
                    nodes.len() == items.len(),
                    forall|j: int| 0 <= j < items.len() ==> #[trigger] nodes[j] == items@[j]@,
                    containers_in(nodes, i as int) == Ok::<Seq<Running>, Seq<char>>(
                        runnings(out@),
                    ),
                decreases items.len() - i,
            {
                proof {
                    assert(nodes[i as int] == items@[i as int]@);
                }
                let ghost before = runnings(out@);
                match read_container(&items[i]) {
                    Ok(c) => {
                        let ghost v = c@;
                        out.push(c);
                        proof {
                            assert(runnings(out@) =~= before.push(v));
                        }
                    }
                    Err(e) => {
                        proof {
                            lemma_containers_in_fails(nodes, i + 1, nodes.len() as int);
                        }
                        return Err(e);
                    }
                }
                i += 1;
            }
            Ok(out)
        }
        _ => Err(text::cat3("invalid type: ", &describe(y), ", expected a sequence")),
    }
}

/// The running containers in a parsed `GET /containers/json` response.
pub fn containers_of(doc: &Result<Yaml, String>) -> (r: Result<Vec<Container>, String>)
    ensures
        (match r {
            Ok(v) => Ok(runnings(v@)),
            Err(e) => Err(e@),
        }) == container_list(document(*doc)),
{
    let raw = match doc {
        Ok(y) => read_containers(y),
        Err(e) => Err(e.clone()),
    };
    match raw {
        Ok(list) => Ok(list),
        Err(e) => Err(text::cat2("could not parse the container list: ", &e)),
    }
}

/// The running containers in a `GET /containers/json` response.
pub fn parse_container_list(body: &Vec<u8>) -> (r: Result<Vec<Container>, String>)
    ensures
        (match r {
            Ok(v) => Ok(runnings(v@)),
            Err(e) => Err(e@),
        }) == container_list(json_document(body@)),
{
    containers_of(&read_json(body))
}

/// The digests an image inspect holds.
pub open spec fn digest_list(doc: Result<Node, Seq<char>>) -> Result<Seq<Seq<char>>, Seq<char>> {
    let raw = match doc {
        Err(e) => Err(e),
        Ok(n) => if stands_for(n, 1) {
            texts_field(n, "RepoDigests"@, 0)
        } else {
            Err("invalid type: "@ + described(n) + ", expected an image inspect"@)
        },
    };
    match raw {
        Ok(list) => Ok(list),
        Err(e) => Err("could not parse the image inspect: "@ + e),
    }
}

/// The digests in a parsed `GET /images/{id}/json` response.
pub fn digests_of(doc: &Result<Yaml, String>) -> (r: Result<Vec<String>, String>)
    ensures
        (match r {
            Ok(v) => Ok(text::texts(v@)),
            Err(e) => Err(e@),
        }) == digest_list(document(*doc)),
{
    let raw = match doc {
        Err(e) => Err(e.clone()),
        Ok(y) => if can_stand_for(y, 1) {
            read_texts_field(y, "RepoDigests", 0)
        } else {
            Err(text::cat3("invalid type: ", &describe(y), ", expected an image inspect"))
        },
    };
    match raw {
        Ok(list) => Ok(list),
        Err(e) => Err(text::cat2("could not parse the image inspect: ", &e)),
    }
}

/// The digests the daemon recorded when the inspected image was last pulled from,
/// or pushed to, a registry. Empty for an image that was built locally.
pub fn parse_repo_digests(body: &Vec<u8>) -> (r: Result<Vec<String>, String>)
    ensures
        (match r {
            Ok(v) => Ok(text::texts(v@)),
            Err(e) => Err(e@),
        }) == digest_list(json_document(body@)),
{
    digests_of(&read_json(body))
}

/// The manifest digest a distribution inspect holds.
pub open spec fn manifest_digest(doc: Result<Node, Seq<char>>) -> Result<Seq<char>, Seq<char>> {
    let raw = match doc {
        Err(e) => Err(e),
        Ok(n) => if stands_for(n, 1) {
            match field(n, "Descriptor"@, 0) {
                Some(d) => if stands_for(d, 1) {
                    text_field(d, "digest"@, 0)
                } else {
                    Err("invalid type: "@ + described(d) + ", expected a descriptor"@)
                },
                None => Err("missing field `Descriptor`"@),
            }
        } else {
            Err("invalid type: "@ + described(n) + ", expected a distribution inspect"@)
        },
    };
    match raw {
        Ok(digest) => Ok(digest),
        Err(e) => Err("could not parse the distribution inspect: "@ + e),
    }
}

/// The manifest digest in a parsed `GET /distribution/{ref}/json` response.
pub fn digest_of(doc: &Result<Yaml, String>) -> (r: Result<String, String>)
    ensures
        (match r {
            Ok(s) => Ok(s@),
            Err(e) => Err(e@),
        }) == manifest_digest(document(*doc)),
{
    let raw = match doc {
        Err(e) => Err(e.clone()),
        Ok(y) => if can_stand_for(y, 1) {
            match field_of(y, "Descriptor", 0) {
                Some(d) => if can_stand_for(d, 1) {
                    read_text_field(d, "digest", 0)
                } else {
                    Err(text::cat3("invalid type: ", &describe(d), ", expected a descriptor"))
                },
                None => Err("missing field `Descriptor`".to_owned()),
            }
        } else {
            Err(
                text::cat3("invalid type: ", &describe(y), ", expected a distribution inspect"),
            )
        },
    };
    match raw {
        Ok(digest) => Ok(digest),
        Err(e) => Err(text::cat2("could not parse the distribution inspect: ", &e)),
    }
}

/// The manifest digest a `GET /distribution/{ref}/json` response carries.
pub fn parse_remote_digest(body: &Vec<u8>) -> (r: Result<String, String>)
    ensures
        (match r {
            Ok(s) => Ok(s@),
            Err(e) => Err(e@),
        }) == manifest_digest(json_document(body@)),
{
    digest_of(&read_json(body))
}

/// What an error body says: the daemon's message, or else the start of the text.
pub open spec fn excerpt(doc: Result<Node, Seq<char>>, body: Seq<u8>) -> Seq<char> {
    match doc {
        Ok(n) => match text_field(n, "message"@, 0) {
            Ok(m) if stands_for(n, 1) => m,
            _ => text::at_most(text::utf8_lossy(body), 200),
        },
        Err(_) => text::at_most(text::utf8_lossy(body), 200),
    }
}

/// What a parsed error body says.
pub fn excerpt_of(doc: &Result<Yaml, String>, body: &Vec<u8>) -> (r: String)
    ensures
        r@ == excerpt(document(*doc), body@),
{
    match doc {
        Ok(y) => match read_text_field(y, "message", 0) {
            Ok(m) => {
                if can_stand_for(y, 1) {
                    return m;
                }
            }
            Err(_) => {}
        },
        Err(_) => {}
    }
    text::first_chars(&text::lossy(body), 200)
}

/// What an error body says.
pub fn body_excerpt(body: &Vec<u8>) -> (r: String)
    ensures
        r@ == excerpt(json_document(body@), body@),
{
    excerpt_of(&read_json(body), body)
}

// ---------------------------------------------------------------------------
// Answers
// ---------------------------------------------------------------------------

/// The message for an answer that is not a success.
pub open spec fn refused(path: Seq<char>, r: Response) -> Seq<char> {
    "GET "@ + path + " answered "@ + text::decimal(r.status as nat) + ": "@ + excerpt(
        json_document(r.body@),
        r.body@,
    )
}

fn refuse(path: &str, r: &Response) -> (m: String)
    ensures
        m@ == refused(path@, *r),
{
    text::cat6(
        "GET ",
        path,
        " answered ",
        &text::decimal_of(r.status as u128),
        ": ",
        &body_excerpt(&r.body),
    )
}

/// What the answer to a container list means.
pub fn list_answer(resp: &Response) -> (r: Result<Vec<Container>, String>)
    ensures
        (match r {
            Ok(v) => Ok(runnings(v@)),
            Err(e) => Err(e@),
        }) == (if resp.status != 200 {
            Err(refused("/containers/json"@, *resp))
        } else {
            container_list(json_document(resp.body@))
        }),
{
    if resp.status != 200 {
        return Err(refuse("/containers/json", resp));
    }
    parse_container_list(&resp.body)
}

/// What the answer to an image inspect means.
pub fn digests_answer(path: &str, resp: &Response) -> (r: Result<Vec<String>, String>)
    ensures
        (match r {
            Ok(v) => Ok(text::texts(v@)),
            Err(e) => Err(e@),
        }) == (if resp.status != 200 {
            Err(refused(path@, *resp))
        } else {
            digest_list(json_document(resp.body@))
        }),
{
    if resp.status != 200 {
        return Err(refuse(path, resp));
    }
    parse_repo_digests(&resp.body)
}

/// What the answer to a distribution inspect means.
pub fn digest_answer(path: &str, resp: &Response) -> (r: Result<String, String>)
    ensures
        (match r {
            Ok(s) => Ok(s@),
            Err(e) => Err(e@),
        }) == (if resp.status != 200 {
            Err(refused(path@, *resp))
        } else {
            manifest_digest(json_document(resp.body@))
        }),
{
    if resp.status != 200 {
        return Err(refuse(path, resp));
    }
    parse_remote_digest(&resp.body)
}

} // verus!
