//! Reading JSON replies: what is asked for is parsed, and the rest only has to be
//! JSON. A number out of range or an escape that stands for no character does no
//! harm in a part that is not read.

use std::collections::BTreeMap;
use vstd::prelude::*;
use vstd::string::*;
use crate::text;
use crate::yaml::{Node, Yaml};

verus! {

/// What `serde_json::from_slice` makes of bytes as any JSON value: the bytes without
/// the whitespace around them, or the message of its error.
pub uninterp spec fn json_value(bytes: Seq<u8>) -> Result<Seq<u8>, Seq<char>>;

/// What `serde_json::from_slice` makes of bytes as an object: each key with the JSON
/// of its value, or the message of its error.
pub uninterp spec fn json_members(bytes: Seq<u8>) -> Result<
    Seq<(Seq<char>, Seq<u8>)>,
    Seq<char>,
>;

/// What `serde_json::from_slice` makes of bytes as an array: the JSON of each item, or
/// the message of its error.
pub uninterp spec fn json_items(bytes: Seq<u8>) -> Result<Seq<Seq<u8>>, Seq<char>>;

/// What `serde_json::from_slice` makes of bytes as a string, or the message of its
/// error.
pub uninterp spec fn json_text(bytes: Seq<u8>) -> Result<Seq<char>, Seq<char>>;

/// The contents of a list of members.
pub open spec fn members(list: Seq<(String, Vec<u8>)>) -> Seq<(Seq<char>, Seq<u8>)> {
    list.map_values(|m: (String, Vec<u8>)| (m.0@, m.1@))
}

/// The contents of a list of items.
pub open spec fn items(list: Seq<Vec<u8>>) -> Seq<Seq<u8>> {
    list.map_values(|i: Vec<u8>| i@)
}

/// `serde_json::from_slice`, asked for a `RawValue`, checks that bytes are JSON and
/// hands the value back as it is written. What it makes of bytes depends on them alone.
#[verifier::external_body]
fn read_value(bytes: &[u8]) -> (r: Result<Vec<u8>, String>)
    ensures
        match r {
            Ok(raw) => json_value(bytes@) == Ok::<Seq<u8>, Seq<char>>(raw@),
            Err(m) => json_value(bytes@) == Err::<Seq<u8>, Seq<char>>(m@),
        },
{
    match serde_json::from_slice::<Box<serde_json::value::RawValue>>(bytes) {
        Ok(raw) => Ok(raw.get().as_bytes().to_vec()),
        Err(e) => Err(e.to_string()),
    }
}

/// `serde_json::from_slice`, asked for a map of `RawValue`s, splits an object into its
/// members, in the order of their keys; of a key that is repeated the last value
/// stands. What it makes of bytes depends on them alone.
#[verifier::external_body]
fn read_members(bytes: &[u8]) -> (r: Result<Vec<(String, Vec<u8>)>, String>)
    ensures
        match r {
            Ok(list) => json_members(bytes@) == Ok::<Seq<(Seq<char>, Seq<u8>)>, Seq<char>>(
                members(list@),
            ),
            Err(m) => json_members(bytes@) == Err::<Seq<(Seq<char>, Seq<u8>)>, Seq<char>>(m@),
        },
{
    match serde_json::from_slice::<BTreeMap<String, Box<serde_json::value::RawValue>>>(bytes) {
        Ok(map) => Ok(map.into_iter().map(|(k, v)| (k, v.get().as_bytes().to_vec())).collect()),
        Err(e) => Err(e.to_string()),
    }
}

/// `serde_json::from_slice`, asked for a list of `RawValue`s, splits an array into its
/// items. What it makes of bytes depends on them alone.
#[verifier::external_body]
fn read_items(bytes: &[u8]) -> (r: Result<Vec<Vec<u8>>, String>)
    ensures
        match r {
            Ok(list) => json_items(bytes@) == Ok::<Seq<Seq<u8>>, Seq<char>>(items(list@)),
            Err(m) => json_items(bytes@) == Err::<Seq<Seq<u8>>, Seq<char>>(m@),
        },
{
    match serde_json::from_slice::<Vec<Box<serde_json::value::RawValue>>>(bytes) {
        Ok(list) => Ok(list.into_iter().map(|v| v.get().as_bytes().to_vec()).collect()),
        Err(e) => Err(e.to_string()),
    }
}

/// `serde_json::from_slice`, asked for a `String`, decodes a JSON string. What it makes
/// of bytes depends on them alone.
#[verifier::external_body]
fn read_text(bytes: &[u8]) -> (r: Result<String, String>)
    ensures
        match r {
            Ok(s) => json_text(bytes@) == Ok::<Seq<char>, Seq<char>>(s@),
            Err(m) => json_text(bytes@) == Err::<Seq<char>, Seq<char>>(m@),
        },
{
    match serde_json::from_slice::<String>(bytes) {
        Ok(s) => Ok(s),
        Err(e) => Err(e.to_string()),
    }
}

/// How deep the replies are read: a list of objects that hold lists of strings.
pub const DEPTH: u8 = 4;

/// A value that is neither object, array nor readable string.
pub open spec fn plain_value(raw: Seq<u8>) -> Node {
    let shown = text::utf8_lossy(raw);
    if shown == "null"@ {
        Node::Null
    } else if shown == "true"@ {
        Node::Bool(true)
    } else if shown == "false"@ {
        Node::Bool(false)
    } else {
        Node::Number(shown)
    }
}

/// What a value holds, read so many levels deep.
pub open spec fn json_tree(raw: Seq<u8>, depth: nat) -> Node
    decreases depth,
{
    if depth == 0 {
        plain_value(raw)
    } else {
        match (json_members(raw), json_items(raw), json_text(raw)) {
            (Ok(list), _, _) => Node::Table(
                Seq::new(
                    list.len(),
                    |i: int| (Node::Text(list[i].0), json_tree(list[i].1, (depth - 1) as nat)),
                ),
            ),
            (_, Ok(list), _) => Node::List(
                Seq::new(list.len(), |i: int| json_tree(list[i], (depth - 1) as nat)),
            ),
            (_, _, Ok(s)) => Node::Text(s),
            _ => plain_value(raw),
        }
    }
}

/// What a reply holds, or the message of its error.
pub open spec fn json_document(bytes: Seq<u8>) -> Result<Node, Seq<char>> {
    match json_value(bytes) {
        Ok(raw) => Ok(json_tree(raw, DEPTH as nat)),
        Err(m) => Err(m),
    }
}

fn plain(raw: &Vec<u8>) -> (r: Yaml)
    ensures
        r@ == plain_value(raw@),
{
    let shown = text::lossy(raw);
    if text::same(&shown, "null") {
        Yaml::Null
    } else if text::same(&shown, "true") {
        Yaml::Bool(true)
    } else if text::same(&shown, "false") {
        Yaml::Bool(false)
    } else {
        Yaml::Number(shown)
    }
}

fn tree(raw: &Vec<u8>, depth: u8) -> (r: Yaml)
    ensures
        r@ == json_tree(raw@, depth as nat),
    decreases depth, 0int,
{
    if depth == 0 {
        return plain(raw);
    }
    if let Ok(list) = read_members(raw) {
        let r = table(&list, depth - 1);
        proof {
            assert(r@->Table_0 =~= json_tree(raw@, depth as nat)->Table_0);
        }
        return r;
    }
    if let Ok(found) = read_items(raw) {
        let r = sequence(&found, depth - 1);
        proof {
            assert(r@->List_0 =~= json_tree(raw@, depth as nat)->List_0);
        }
        return r;
    }
    match read_text(raw) {
        Ok(s) => Yaml::Text(s),
        Err(_) => plain(raw),
    }
}

fn table(list: &Vec<(String, Vec<u8>)>, depth: u8) -> (r: Yaml)
    ensures
        r@ == Node::Table(
            Seq::new(
                members(list@).len(),
                |i: int| (Node::Text(members(list@)[i].0), json_tree(members(list@)[i].1, depth as nat)),
            ),
        ),
    decreases depth, 1int,
{
    let mut entries: Vec<(Yaml, Yaml)> = Vec::new();
    let mut i: usize = 0;
    while i < list.len()
        invariant
            i <= list.len(),
            entries.len() == i,
            forall|j: int|
                0 <= j < i ==> (#[trigger] entries@[j]).0@ == Node::Text(list@[j].0@)
                    && entries@[j].1@ == json_tree(list@[j].1@, depth as nat),
        decreases list.len() - i,
    {
        entries.push((Yaml::Text(list[i].0.clone()), tree(&list[i].1, depth)));
        i += 1;
    }
    let ghost all = members(list@);
    let r = Yaml::Table(entries);
    proof {
        assert(r@->Table_0 =~= Seq::new(
            all.len(),
            |k: int| (Node::Text(all[k].0), json_tree(all[k].1, depth as nat)),
        ));
    }
    r
}

fn sequence(list: &Vec<Vec<u8>>, depth: u8) -> (r: Yaml)
    ensures
        r@ == Node::List(
            Seq::new(items(list@).len(), |i: int| json_tree(items(list@)[i], depth as nat)),
        ),
    decreases depth, 1int,
{
    let mut out: Vec<Yaml> = Vec::new();
    let mut i: usize = 0;
    while i < list.len()
        invariant
            i <= list.len(),
            out.len() == i,
            forall|j: int|
                0 <= j < i ==> (#[trigger] out@[j])@ == json_tree(list@[j]@, depth as nat),
        decreases list.len() - i,
    {
        out.push(tree(&list[i], depth));
        i += 1;
    }
    let ghost all = items(list@);
    let r = Yaml::List(out);
    proof {
        assert(r@->List_0 =~= Seq::new(all.len(), |k: int| json_tree(all[k], depth as nat)));
    }
    r
}

/// Reads a reply.
pub fn read_json(bytes: &Vec<u8>) -> (r: Result<Yaml, String>)
    ensures
        match r {
            Ok(y) => json_document(bytes@) == Ok::<Node, Seq<char>>(y@),
            Err(m) => json_document(bytes@) == Err::<Node, Seq<char>>(m@),
        },
{
    match read_value(bytes) {
        Ok(raw) => Ok(tree(&raw, DEPTH)),
        Err(m) => Err(m),
    }
}

} // verus!
