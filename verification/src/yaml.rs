//! A parsed document as plain data, and the call that parses a YAML one.

use vstd::prelude::*;
use vstd::string::*;
use crate::text;

verus! {

/// A document, or a part of one. Numbers keep their canonical spelling.
pub enum Yaml {
    Null,
    Bool(bool),
    Number(String),
    Text(String),
    List(Vec<Yaml>),
    Table(Vec<(Yaml, Yaml)>),
}

/// What a [`Yaml`] holds.
pub enum Node {
    Null,
    Bool(bool),
    Number(Seq<char>),
    Text(Seq<char>),
    List(Seq<Node>),
    Table(Seq<(Node, Node)>),
}

pub open spec fn node_of(y: Yaml) -> Node
    decreases y,
{
    match y {
        Yaml::Null => Node::Null,
        Yaml::Bool(b) => Node::Bool(b),
        Yaml::Number(s) => Node::Number(s@),
        Yaml::Text(s) => Node::Text(s@),
        Yaml::List(items) => Node::List(
            Seq::new(
                items@.len(),
                |i: int|
                    if 0 <= i < items@.len() {
                        node_of(items@[i])
                    } else {
                        Node::Null
                    },
            ),
        ),
        Yaml::Table(entries) => Node::Table(
            Seq::new(
                entries@.len(),
                |i: int|
                    if 0 <= i < entries@.len() {
                        (node_of(entries@[i].0), node_of(entries@[i].1))
                    } else {
                        (Node::Null, Node::Null)
                    },
            ),
        ),
    }
}

impl View for Yaml {
    type V = Node;

    open spec fn view(&self) -> Node {
        node_of(*self)
    }
}

/// The value type of `serde_yaml_ng`.
#[verifier::external_type_specification]
#[verifier::external_body]
pub struct ExValue(serde_yaml_ng::Value);

/// A `serde_yaml_ng::Value` as a [`Yaml`], variant for variant. A tag is left
/// out: none of the documents read here gives one a meaning.
#[verifier::external_body]
fn tree_of(value: serde_yaml_ng::Value) -> (r: Yaml) {
    match value {
        serde_yaml_ng::Value::Null => Yaml::Null,
        serde_yaml_ng::Value::Bool(b) => Yaml::Bool(b),
        serde_yaml_ng::Value::Number(n) => Yaml::Number(n.to_string()),
        serde_yaml_ng::Value::String(s) => Yaml::Text(s),
        serde_yaml_ng::Value::Sequence(v) => Yaml::List(v.into_iter().map(tree_of).collect()),
        serde_yaml_ng::Value::Mapping(m) => {
            Yaml::Table(m.into_iter().map(|(k, v)| (tree_of(k), tree_of(v))).collect())
        }
        serde_yaml_ng::Value::Tagged(t) => tree_of(t.value),
    }
}

/// What `serde_yaml_ng::from_str` makes of a text, read as an optional value:
/// nothing for an empty document, or the message of its error.
pub uninterp spec fn yaml_document(text: Seq<char>) -> Result<Option<Node>, Seq<char>>;

/// What an optional document holds.
pub open spec fn document_node(doc: Option<Yaml>) -> Option<Node> {
    match doc {
        Some(y) => Some(y@),
        None => None,
    }
}

/// `serde_yaml_ng::from_str` parses YAML text. What it makes of a text depends
/// on the text alone.
#[verifier::external_body]
pub(crate) fn read_yaml(text: &str) -> (r: Result<Option<Yaml>, String>)
    ensures
        match r {
            Ok(doc) => yaml_document(text@) == Ok::<Option<Node>, Seq<char>>(document_node(doc)),
            Err(m) => yaml_document(text@) == Err::<Option<Node>, Seq<char>>(m@),
        },
{
    match serde_yaml_ng::from_str::<Option<serde_yaml_ng::Value>>(text) {
        Ok(value) => Ok(value.map(tree_of)),
        Err(e) => Err(e.to_string()),
    }
}

/// The text of a scalar; a blank one is empty. Lists and mappings have none.
pub open spec fn scalar_text(n: Node) -> Option<Seq<char>> {
    match n {
        Node::Null => Some(""@),
        Node::Bool(b) => Some(
            if b {
                "true"@
            } else {
                "false"@
            },
        ),
        Node::Number(s) => Some(s),
        Node::Text(s) => Some(s),
        _ => None,
    }
}

/// The value of the first entry from `i` on whose key is `key`.
pub open spec fn find_key(entries: Seq<(Node, Node)>, key: Seq<char>, i: int) -> Option<Node>
    decreases entries.len() - i,
{
    if i < 0 || i >= entries.len() {
        None
    } else if scalar_text(entries[i].0) == Some(key) {
        Some(entries[i].1)
    } else {
        find_key(entries, key, i + 1)
    }
}

/// The value a mapping holds under `key`.
pub open spec fn lookup(n: Node, key: Seq<char>) -> Option<Node> {
    match n {
        Node::Table(entries) => find_key(entries, key, 0),
        _ => None,
    }
}

impl Yaml {
    /// The text of a scalar; a blank one is empty.
    pub fn scalar(&self) -> (r: Option<String>)
        ensures
            match r {
                Some(s) => scalar_text(self@) == Some(s@),
                None => scalar_text(self@) is None,
            },
    {
        match self {
            Yaml::Null => Some("".to_owned()),
            Yaml::Bool(b) => Some(
                if *b {
                    "true".to_owned()
                } else {
                    "false".to_owned()
                },
            ),
            Yaml::Number(s) => Some(s.clone()),
            Yaml::Text(s) => Some(s.clone()),
            _ => None,
        }
    }

    /// The value a mapping holds under `key`.
    pub fn get(&self, key: &str) -> (r: Option<&Yaml>)
        ensures
            match r {
                Some(y) => lookup(self@, key@) == Some(y@),
                None => lookup(self@, key@) is None,
            },
    {
        match self {
            Yaml::Table(entries) => {
                let ghost nodes = self@->Table_0;
                let mut i: usize = 0;
                while i < entries.len()
                    invariant
                        i <= entries.len(),
                        self@ == Node::Table(nodes),
                        nodes.len() == entries.len(),
                        forall|j: int|
                            0 <= j < entries.len() ==> #[trigger] nodes[j] == (
                                entries@[j].0@,
                                entries@[j].1@,
                            ),
                        find_key(nodes, key@, 0) == find_key(nodes, key@, i as int),
                    decreases entries.len() - i,
                {
                    proof {
                        assert(nodes[i as int] == (entries@[i as int].0@, entries@[i as int].1@));
                    }
                    match entries[i].0.scalar() {
                        Some(k) => {
                            if text::same(&k, key) {
                                return Some(&entries[i].1);
                            }
                        }
                        None => {}
                    }
                    i += 1;
                }
                None
            }
            _ => None,
        }
    }
}

} // verus!
