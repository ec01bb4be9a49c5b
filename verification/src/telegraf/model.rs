//! A typed Telegraf configuration.
//!
//! Modules never build TOML text. They build [`PluginInstance`]s, and the
//! renderer is the only thing that produces text.
//!
//! Scalars and sub-tables are separate fields because Telegraf requires
//! `tagdrop` sub-tables at the end of a plugin block: once one opens, TOML
//! assigns every following key to it.

use vstd::prelude::*;
use vstd::string::*;
use crate::text;

verus! {

// ---------------------------------------------------------------------------
// Values
// ---------------------------------------------------------------------------

/// A TOML scalar or array.
#[derive(Debug, PartialEq)]
pub enum TomlValue {
    String(String),
    Integer(i64),
    Boolean(bool),
    Array(Vec<TomlValue>),
}

/// What a [`TomlValue`] holds.
pub enum Toml {
    Text(Seq<char>),
    Whole(int),
    Flag(bool),
    List(Seq<Toml>),
}

pub open spec fn toml_of(v: TomlValue) -> Toml
    decreases v,
{
    match v {
        TomlValue::String(s) => Toml::Text(s@),
        TomlValue::Integer(i) => Toml::Whole(i as int),
        TomlValue::Boolean(b) => Toml::Flag(b),
        TomlValue::Array(items) => Toml::List(
            Seq::new(
                items@.len(),
                |i: int|
                    if 0 <= i < items@.len() {
                        toml_of(items@[i])
                    } else {
                        Toml::Flag(false)
                    },
            ),
        ),
    }
}

impl View for TomlValue {
    type V = Toml;

    open spec fn view(&self) -> Toml {
        toml_of(*self)
    }
}

impl Clone for TomlValue {
    fn clone(&self) -> (r: Self)
        ensures
            r@ == self@,
    {
        self.copy()
    }
}

/// The contents of a list of values.
pub open spec fn tomls(list: Seq<TomlValue>) -> Seq<Toml> {
    list.map_values(|v: TomlValue| v@)
}

pub proof fn lemma_array_view(items: Vec<TomlValue>)
    ensures
        TomlValue::Array(items)@ == Toml::List(tomls(items@)),
{
    assert(toml_of(TomlValue::Array(items))->List_0 =~= tomls(items@));
}

/// What `toml::Value::String` displays for a text.
pub uninterp spec fn toml_string(s: Seq<char>) -> Seq<char>;

/// `toml::Value::String` displays a text as a TOML string, quoted and escaped as
/// its content needs. What it displays depends on the text alone.
#[verifier::external_body]
fn quote(s: &str) -> (r: String)
    ensures
        r@ == toml_string(s@),
{
    toml::Value::String(s.to_string()).to_string()
}

/// A value as TOML text.
pub open spec fn value_text(v: Toml) -> Seq<char>
    decreases v,
{
    match v {
        Toml::Text(s) => toml_string(s),
        Toml::Whole(i) => text::signed(i),
        Toml::Flag(b) => if b {
            "true"@
        } else {
            "false"@
        },
        Toml::List(items) => "["@ + text::joined(value_texts(items), ", "@) + "]"@,
    }
}

/// The values of a list as TOML text.
pub open spec fn value_texts(items: Seq<Toml>) -> Seq<Seq<char>>
    decreases items,
{
    Seq::new(
        items.len(),
        |i: int|
            if 0 <= i < items.len() {
                value_text(items[i])
            } else {
                Seq::empty()
            },
    )
}

impl TomlValue {
    pub fn text(s: &str) -> (r: Self)
        ensures
            r@ == Toml::Text(s@),
    {
        TomlValue::String(s.to_owned())
    }

    pub fn integer(i: i64) -> (r: Self)
        ensures
            r@ == Toml::Whole(i as int),
    {
        TomlValue::Integer(i)
    }

    pub fn flag(b: bool) -> (r: Self)
        ensures
            r@ == Toml::Flag(b),
    {
        TomlValue::Boolean(b)
    }

    pub fn array(items: Vec<TomlValue>) -> (r: Self)
        ensures
            r@ == Toml::List(tomls(items@)),
    {
        proof {
            lemma_array_view(items);
        }
        TomlValue::Array(items)
    }

    /// An array of strings.
    pub fn words(list: &Vec<String>) -> (r: Self)
        ensures
            r@ == word_list(text::texts(list@)),
    {
        let mut items: Vec<TomlValue> = Vec::new();
        let mut i: usize = 0;
        while i < list.len()
            invariant
                i <= list.len(),
                items@.len() == i,
                forall|j: int| 0 <= j < i ==> (#[trigger] items@[j])@ == Toml::Text(list@[j]@),
            decreases list.len() - i,
        {
            items.push(TomlValue::text(&list[i]));
            i += 1;
        }
        proof {
            assert(tomls(items@) =~= text::texts(list@).map_values(|s: Seq<char>| Toml::Text(s)));
        }
        TomlValue::array(items)
    }

    /// Renders this value as TOML. Every string goes through the `toml` crate, so
    /// that a value cannot terminate its own string.
    pub fn render(&self) -> (r: String)
        ensures
            r@ == value_text(self@),
        decreases self,
    {
        match self {
            TomlValue::String(s) => quote(s),
            TomlValue::Integer(i) => text::signed_of(*i),
            TomlValue::Boolean(b) => if *b {
                "true".to_owned()
            } else {
                "false".to_owned()
            },
            TomlValue::Array(items) => {
                let mut parts: Vec<String> = Vec::new();
                let ghost nodes = self@->List_0;
                let mut i: usize = 0;
                while i < items.len()
                    invariant
                        i <= items.len(),
                        *self == TomlValue::Array(*items),
                        self@ == Toml::List(nodes),
                        nodes.len() == items.len(),
                        forall|j: int| 0 <= j < items.len() ==> #[trigger] nodes[j] == items@[j]@,
                        parts@.len() == i,
                        forall|j: int|
                            0 <= j < i ==> (#[trigger] parts@[j])@ == value_text(nodes[j]),
                    decreases items.len() - i,
                {
                    proof {
                        assert(nodes[i as int] == items@[i as int]@);
                    }
                    parts.push(items[i].render());
                    i += 1;
                }
                proof {
                    assert(text::texts(parts@) =~= value_texts(nodes));
                }
                text::cat3("[", &text::join(&parts, ", "), "]")
            }
        }
    }

    /// A copy of this value.
    pub fn copy(&self) -> (r: Self)
        ensures
            r@ == self@,
        decreases self,
    {
        match self {
            TomlValue::String(s) => TomlValue::String(s.clone()),
            TomlValue::Integer(i) => TomlValue::Integer(*i),
            TomlValue::Boolean(b) => TomlValue::Boolean(*b),
            TomlValue::Array(items) => {
                let mut out: Vec<TomlValue> = Vec::new();
                proof {
                    lemma_array_view(*items);
                }
                let mut i: usize = 0;
                while i < items.len()
                    invariant
                        i <= items.len(),
                        *self == TomlValue::Array(*items),
                        self@ == Toml::List(tomls(items@)),
                        out@.len() == i,
                        forall|j: int| 0 <= j < i ==> (#[trigger] out@[j])@ == items@[j]@,
                    decreases items.len() - i,
                {
                    out.push(items[i].copy());
                    i += 1;
                }
                proof {
                    lemma_array_view(out);
                    assert(tomls(out@) =~= tomls(items@));
                }
                TomlValue::Array(out)
            }
        }
    }

    /// Whether two values are the same.
    pub fn same(&self, other: &Self) -> (r: bool)
        ensures
            r == (self@ == other@),
        decreases self,
    {
        match (self, other) {
            (TomlValue::String(a), TomlValue::String(b)) => text::same(a, b),
            (TomlValue::Integer(a), TomlValue::Integer(b)) => *a == *b,
            (TomlValue::Boolean(a), TomlValue::Boolean(b)) => *a == *b,
            (TomlValue::Array(a), TomlValue::Array(b)) => {
                proof {
                    lemma_array_view(*a);
                    lemma_array_view(*b);
                }
                if a.len() != b.len() {
                    proof {
                        assert(tomls(a@).len() != tomls(b@).len());
                    }
                    return false;
                }
                let mut i: usize = 0;
                while i < a.len()
                    invariant
                        i <= a.len(),
                        a.len() == b.len(),
                        *self == TomlValue::Array(*a),
                        *other == TomlValue::Array(*b),
                        self@ == Toml::List(tomls(a@)),
                        other@ == Toml::List(tomls(b@)),
                        forall|j: int| 0 <= j < i ==> (#[trigger] a@[j])@ == b@[j]@,
                    decreases a.len() - i,
                {
                    if !a[i].same(&b[i]) {
                        proof {
                            assert(tomls(a@)[i as int] != tomls(b@)[i as int]);
                        }
                        return false;
                    }
                    i += 1;
                }
                proof {
                    assert(tomls(a@) =~= tomls(b@));
                }
                true
            }
            _ => false,
        }
    }
}

/// A list of texts as a TOML array.
pub open spec fn word_list(words: Seq<Seq<char>>) -> Toml {
    Toml::List(words.map_values(|s: Seq<char>| Toml::Text(s)))
}

// ---------------------------------------------------------------------------
// Tables
// ---------------------------------------------------------------------------

/// The contents of a list of entries.
pub open spec fn entries(list: Seq<(String, TomlValue)>) -> Seq<(Seq<char>, Toml)> {
    list.map_values(|e: (String, TomlValue)| (e.0@, e.1@))
}

fn push_entry(list: &mut Vec<(String, TomlValue)>, key: &str, value: TomlValue)
    ensures
        entries(final(list)@) == entries(old(list)@).push((key@, value@)),
{
    list.push((key.to_owned(), value));
    proof {
        assert(entries(list@) =~= entries(old(list)@).push((key@, value@)));
    }
}

/// An ordered set of key/value pairs. Insertion order is the render order.
#[derive(Debug, Clone, PartialEq)]
pub struct TomlTable {
    pub entries: Vec<(String, TomlValue)>,
}

impl View for TomlTable {
    type V = Seq<(Seq<char>, Toml)>;

    open spec fn view(&self) -> Seq<(Seq<char>, Toml)> {
        entries(self.entries@)
    }
}

impl Default for TomlTable {
    fn default() -> (r: Self)
        ensures
            r@ == Seq::<(Seq<char>, Toml)>::empty(),
    {
        TomlTable::new()
    }
}

impl TomlTable {
    pub fn new() -> (r: Self)
        ensures
            r@ == Seq::<(Seq<char>, Toml)>::empty(),
    {
        let r = TomlTable { entries: Vec::new() };
        proof {
            assert(r@ =~= Seq::<(Seq<char>, Toml)>::empty());
        }
        r
    }

    pub fn entry(self, key: &str, value: TomlValue) -> (r: Self)
        ensures
            r@ == self@.push((key@, value@)),
    {
        let mut table = self;
        push_entry(&mut table.entries, key, value);
        table
    }

    pub fn is_empty(&self) -> (r: bool)
        ensures
            r == (self@.len() == 0),
    {
        self.entries.len() == 0
    }

    pub fn iter(&self) -> (r: &Vec<(String, TomlValue)>)
        ensures
            entries(r@) == self@,
    {
        &self.entries
    }
}

// ---------------------------------------------------------------------------
// Plugin instances
// ---------------------------------------------------------------------------

#[derive(Debug, Clone, Copy, PartialEq, Eq, PartialOrd, Ord, Structural)]
pub enum Section {
    Agent,
    Input,
    Output,
}

impl Section {
    pub open spec fn name(self) -> Seq<char> {
        match self {
            Section::Agent => "agent"@,
            Section::Input => "inputs"@,
            Section::Output => "outputs"@,
        }
    }

    pub fn prefix(&self) -> (r: &'static str)
        ensures
            r@ == self.name(),
    {
        match self {
            Section::Agent => "agent",
            Section::Input => "inputs",
            Section::Output => "outputs",
        }
    }
}

/// One `[[inputs.x]]` or `[[outputs.y]]` block.
#[derive(Debug, Clone, PartialEq)]
pub struct PluginInstance {
    pub section: Section,
    pub plugin: String,
    /// Sort rank within its section. Fixed per plugin, never derived from the
    /// operator's configuration.
    pub rank: u16,
    /// Which module produced this, rendered as a comment.
    pub note: Option<String>,
    /// The key that makes two instances mergeable.
    pub merge_key: Option<String>,
    pub scalars: Vec<(String, TomlValue)>,
    pub subtables: Vec<(String, TomlTable)>,
}

/// What a [`PluginInstance`] holds.
pub struct Plugin {
    pub section: Section,
    pub plugin: Seq<char>,
    pub rank: u16,
    pub note: Option<Seq<char>>,
    pub merge_key: Option<Seq<char>>,
    pub scalars: Seq<(Seq<char>, Toml)>,
    pub subtables: Seq<(Seq<char>, Seq<(Seq<char>, Toml)>)>,
}

/// The contents of a list of sub-tables.
pub open spec fn tables(list: Seq<(String, TomlTable)>) -> Seq<
    (Seq<char>, Seq<(Seq<char>, Toml)>),
> {
    list.map_values(|t: (String, TomlTable)| (t.0@, t.1@))
}

impl View for PluginInstance {
    type V = Plugin;

    open spec fn view(&self) -> Plugin {
        Plugin {
            section: self.section,
            plugin: self.plugin@,
            rank: self.rank,
            note: text::optional(self.note),
            merge_key: text::optional(self.merge_key),
            scalars: entries(self.scalars@),
            subtables: tables(self.subtables@),
        }
    }
}

/// A plugin with no options.
pub open spec fn bare(section: Section, plugin: Seq<char>, rank: u16) -> Plugin {
    Plugin {
        section,
        plugin,
        rank,
        note: None,
        merge_key: None,
        scalars: Seq::empty(),
        subtables: Seq::empty(),
    }
}

impl Plugin {
    pub open spec fn with(self, key: Seq<char>, value: Toml) -> Plugin {
        Plugin { scalars: self.scalars.push((key, value)), ..self }
    }

    pub open spec fn with_optional(self, key: Seq<char>, value: Option<Seq<char>>) -> Plugin {
        match value {
            Some(s) => self.with(key, Toml::Text(s)),
            None => self,
        }
    }

    pub open spec fn with_list(self, key: Seq<char>, values: Seq<Seq<char>>) -> Plugin {
        if values.len() == 0 {
            self
        } else {
            self.with(key, word_list(values))
        }
    }

    pub open spec fn with_table(
        self,
        key: Seq<char>,
        table: Seq<(Seq<char>, Toml)>,
    ) -> Plugin {
        if table.len() == 0 {
            self
        } else {
            Plugin { subtables: self.subtables.push((key, table)), ..self }
        }
    }

    pub open spec fn dropping(self, tag: Seq<char>, patterns: Seq<Seq<char>>) -> Plugin {
        if patterns.len() == 0 {
            self
        } else {
            self.with_table("tagdrop"@, Seq::empty().push((tag, word_list(patterns))))
        }
    }

    pub open spec fn noted(self, note: Seq<char>) -> Plugin {
        Plugin { note: Some(note), ..self }
    }
}

// ---------------------------------------------------------------------------
// Merging
// ---------------------------------------------------------------------------

/// The first position from `i` on that holds `key`.
pub open spec fn key_index<V>(list: Seq<(Seq<char>, V)>, key: Seq<char>, i: int) -> Option<int>
    decreases list.len() - i,
{
    if i < 0 || i >= list.len() {
        None
    } else if list[i].0 == key {
        Some(i)
    } else {
        key_index(list, key, i + 1)
    }
}

/// `a`, and what `b` adds to it, in the order first seen.
pub open spec fn union(a: Seq<Toml>, b: Seq<Toml>) -> Seq<Toml>
    decreases b.len(),
{
    if b.len() == 0 {
        a
    } else {
        let u = union(a, b.drop_last());
        if u.contains(b.last()) {
            u
        } else {
            u.push(b.last())
        }
    }
}

/// `list` with one more option: appended where its key is new, its items added
/// where both are arrays, else left out.
pub open spec fn with_scalar(
    list: Seq<(Seq<char>, Toml)>,
    item: (Seq<char>, Toml),
) -> Seq<(Seq<char>, Toml)> {
    match key_index(list, item.0, 0) {
        None => list.push(item),
        Some(i) => match (list[i].1, item.1) {
            (Toml::List(a), Toml::List(b)) => list.update(
                i,
                (list[i].0, Toml::List(union(a, b))),
            ),
            _ => list,
        },
    }
}

/// The options of two instances together.
pub open spec fn merged_scalars(
    list: Seq<(Seq<char>, Toml)>,
    more: Seq<(Seq<char>, Toml)>,
) -> Seq<(Seq<char>, Toml)>
    decreases more.len(),
{
    if more.len() == 0 {
        list
    } else {
        with_scalar(merged_scalars(list, more.drop_last()), more.last())
    }
}

/// The sub-tables of two instances together; the first of a name wins.
pub open spec fn merged_tables(
    list: Seq<(Seq<char>, Seq<(Seq<char>, Toml)>)>,
    more: Seq<(Seq<char>, Seq<(Seq<char>, Toml)>)>,
) -> Seq<(Seq<char>, Seq<(Seq<char>, Toml)>)>
    decreases more.len(),
{
    if more.len() == 0 {
        list
    } else {
        let l = merged_tables(list, more.drop_last());
        if key_index(l, more.last().0, 0) is Some {
            l
        } else {
            l.push(more.last())
        }
    }
}

/// The provenance of two instances together.
pub open spec fn merged_note(a: Option<Seq<char>>, b: Option<Seq<char>>) -> Option<Seq<char>> {
    match (a, b) {
        (_, None) => a,
        (None, _) => b,
        (Some(x), Some(y)) => if text::occurs(x, y) {
            a
        } else {
            Some(x + ", "@ + y)
        },
    }
}

/// Two instances folded into one.
pub open spec fn merged(a: Plugin, b: Plugin) -> Plugin {
    Plugin {
        scalars: merged_scalars(a.scalars, b.scalars),
        subtables: merged_tables(a.subtables, b.subtables),
        note: merged_note(a.note, b.note),
        ..a
    }
}

fn holds(list: &Vec<TomlValue>, item: &TomlValue) -> (r: bool)
    ensures
        r == tomls(list@).contains(item@),
{
    let mut i: usize = 0;
    while i < list.len()
        invariant
            i <= list.len(),
            forall|j: int| 0 <= j < i ==> (#[trigger] list@[j])@ != item@,
        decreases list.len() - i,
    {
        if list[i].same(item) {
            proof {
                assert(tomls(list@)[i as int] == item@);
            }
            return true;
        }
        i += 1;
    }
    proof {
        assert forall|j: int| 0 <= j < tomls(list@).len() implies tomls(list@)[j] != item@ by {
            assert(list@[j]@ != item@);
        }
    }
    false
}

fn unite(a: &Vec<TomlValue>, b: &Vec<TomlValue>) -> (r: Vec<TomlValue>)
    ensures
        tomls(r@) == union(tomls(a@), tomls(b@)),
{
    let mut out: Vec<TomlValue> = Vec::new();
    let mut i: usize = 0;
    while i < a.len()
        invariant
            i <= a.len(),
            tomls(out@) =~= tomls(a@).subrange(0, i as int),
        decreases a.len() - i,
    {
        let ghost before = tomls(out@);
        out.push(a[i].copy());
        proof {
            assert(tomls(out@) =~= before.push(a@[i as int]@));
        }
        i += 1;
    }
    let ghost more = tomls(b@);
    let mut j: usize = 0;
    proof {
        assert(tomls(a@).subrange(0, i as int) =~= tomls(a@));
        assert(more.subrange(0, 0) =~= Seq::<Toml>::empty());
    }
    while j < b.len()
        invariant
            j <= b.len(),
            more == tomls(b@),
            tomls(out@) == union(tomls(a@), more.subrange(0, j as int)),
        decreases b.len() - j,
    {
        let ghost before = tomls(out@);
        proof {
            assert(more.subrange(0, j + 1).drop_last() =~= more.subrange(0, j as int));
            assert(more.subrange(0, j + 1).last() == b@[j as int]@);
        }
        if !holds(&out, &b[j]) {
            out.push(b[j].copy());
            proof {
                assert(tomls(out@) =~= before.push(b@[j as int]@));
            }
        }
        j += 1;
    }
    proof {
        assert(more.subrange(0, j as int) =~= more);
    }
    out
}

fn find_scalar(list: &Vec<(String, TomlValue)>, key: &str) -> (r: Option<usize>)
    ensures
        match r {
            Some(i) => i < list.len() && key_index(entries(list@), key@, 0) == Some(i as int),
            None => key_index(entries(list@), key@, 0) is None,
        },
{
    let ghost all = entries(list@);
    let mut i: usize = 0;
    while i < list.len()
        invariant
            i <= list.len(),
            all == entries(list@),
            key_index(all, key@, 0) == key_index(all, key@, i as int),
        decreases list.len() - i,
    {
        proof {
            assert(all[i as int].0 == list@[i as int].0@);
        }
        if text::same(&list[i].0, key) {
            return Some(i);
        }
        i += 1;
    }
    None
}

fn find_table(list: &Vec<(String, TomlTable)>, key: &str) -> (r: bool)
    ensures
        r == (key_index(tables(list@), key@, 0) is Some),
{
    let ghost all = tables(list@);
    let mut i: usize = 0;
    while i < list.len()
        invariant
            i <= list.len(),
            all == tables(list@),
            key_index(all, key@, 0) == key_index(all, key@, i as int),
        decreases list.len() - i,
    {
        proof {
            assert(all[i as int].0 == list@[i as int].0@);
        }
        if text::same(&list[i].0, key) {
            return true;
        }
        i += 1;
    }
    false
}

fn merge_scalar(list: &mut Vec<(String, TomlValue)>, item: &(String, TomlValue))
    ensures
        entries(final(list)@) == with_scalar(entries(old(list)@), (item.0@, item.1@)),
{
    let ghost before = entries(list@);
    match find_scalar(list, &item.0) {
        None => push_entry(list, &item.0, item.1.copy()),
        Some(i) => {
            proof {
                assert(before[i as int] == (list@[i as int].0@, list@[i as int].1@));
            }
            let united = match (&list[i].1, &item.1) {
                (TomlValue::Array(a), TomlValue::Array(b)) => {
                    proof {
                        lemma_array_view(*a);
                        lemma_array_view(*b);
                    }
                    Some(unite(a, b))
                }
                _ => None,
            };
            match united {
                Some(items) => {
                    let key = list[i].0.clone();
                    let ghost k = key@;
                    let value = TomlValue::array(items);
                    let ghost v = value@;
                    list.set(i, (key, value));
                    proof {
                        assert(entries(list@) =~= before.update(i as int, (k, v)));
                    }
                }
                None => {}
            }
        }
    }
}

impl PluginInstance {
    pub fn input(plugin: &str, rank: u16) -> (r: Self)
        ensures
            r@ == bare(Section::Input, plugin@, rank),
    {
        PluginInstance::new(Section::Input, plugin, rank)
    }

    pub fn output(plugin: &str, rank: u16) -> (r: Self)
        ensures
            r@ == bare(Section::Output, plugin@, rank),
    {
        PluginInstance::new(Section::Output, plugin, rank)
    }

    pub fn new(section: Section, plugin: &str, rank: u16) -> (r: Self)
        ensures
            r@ == bare(section, plugin@, rank),
    {
        let r = PluginInstance {
            section,
            plugin: plugin.to_owned(),
            rank,
            note: None,
            merge_key: None,
            scalars: Vec::new(),
            subtables: Vec::new(),
        };
        proof {
            assert(r@.scalars =~= Seq::<(Seq<char>, Toml)>::empty());
            assert(r@.subtables =~= Seq::<(Seq<char>, Seq<(Seq<char>, Toml)>)>::empty());
        }
        r
    }

    pub fn note(self, note: &str) -> (r: Self)
        ensures
            r@ == self@.noted(note@),
    {
        let mut p = self;
        p.note = Some(note.to_owned());
        p
    }

    /// Notes that a module produced this.
    pub fn from_module(self, name: &str) -> (r: Self)
        ensures
            r@ == self@.noted("module: "@ + name@),
    {
        self.note(&text::cat2("module: ", name))
    }

    /// Notes that an output produced this.
    pub fn from_output(self, name: &str) -> (r: Self)
        ensures
            r@ == self@.noted("output: "@ + name@),
    {
        self.note(&text::cat2("output: ", name))
    }

    pub fn merge_key(self, key: &str) -> (r: Self)
        ensures
            r@ == (Plugin { merge_key: Some(key@), ..self@ }),
    {
        let mut p = self;
        p.merge_key = Some(key.to_owned());
        p
    }

    /// Adds a scalar or array option. Rendered in the order added.
    pub fn scalar(self, key: &str, value: TomlValue) -> (r: Self)
        ensures
            r@ == self@.with(key@, value@),
    {
        let mut p = self;
        push_entry(&mut p.scalars, key, value);
        p
    }

    /// Adds a text option only where there is one.
    pub fn scalar_opt(self, key: &str, value: &Option<String>) -> (r: Self)
        ensures
            r@ == self@.with_optional(key@, text::optional(*value)),
    {
        match value {
            Some(s) => self.scalar(key, TomlValue::text(s)),
            None => self,
        }
    }

    /// Adds a list option only when it is non-empty.
    pub fn list(self, key: &str, values: &Vec<String>) -> (r: Self)
        ensures
            r@ == self@.with_list(key@, text::texts(values@)),
    {
        proof {
            assert(text::texts(values@).len() == values@.len());
        }
        if values.len() == 0 {
            self
        } else {
            self.scalar(key, TomlValue::words(values))
        }
    }

    /// Adds a sub-table, unless it is empty. Always rendered after every scalar.
    pub fn subtable(self, key: &str, table: TomlTable) -> (r: Self)
        ensures
            r@ == self@.with_table(key@, table@),
    {
        let mut p = self;
        if !table.is_empty() {
            p.subtables.push((key.to_owned(), table));
            proof {
                assert(tables(p.subtables@) =~= self@.subtables.push((key@, table@)));
            }
        }
        p
    }

    /// A `tagdrop` table on one tag, from a list of glob patterns: what every
    /// exclusion renders into.
    pub fn tagdrop(self, tag: &str, patterns: &Vec<String>) -> (r: Self)
        ensures
            r@ == self@.dropping(tag@, text::texts(patterns@)),
    {
        proof {
            assert(text::texts(patterns@).len() == patterns@.len());
        }
        if patterns.len() == 0 {
            return self;
        }
        self.subtable("tagdrop", TomlTable::new().entry(tag, TomlValue::words(patterns)))
    }

    pub fn header(&self) -> (r: String)
        ensures
            r@ == "[["@ + self.section.name() + "."@ + self.plugin@ + "]]"@,
    {
        text::cat5("[[", self.section.prefix(), ".", &self.plugin, "]]")
    }

    pub fn scalars(&self) -> (r: &Vec<(String, TomlValue)>)
        ensures
            entries(r@) == self@.scalars,
    {
        &self.scalars
    }

    pub fn subtables(&self) -> (r: &Vec<(String, TomlTable)>)
        ensures
            tables(r@) == self@.subtables,
    {
        &self.subtables
    }

    /// Folds `other` into this instance, unioning array-valued options.
    ///
    /// Two modules disagreeing on a scalar keep the first; two instances of one
    /// plugin would collect every metric twice.
    pub fn merge(&mut self, other: PluginInstance)
        ensures
            final(self)@ == merged(old(self)@, other@),
    {
        let ghost theirs = other@;
        let mut i: usize = 0;
        proof {
            assert(theirs.scalars.subrange(0, 0) =~= Seq::<(Seq<char>, Toml)>::empty());
        }
        while i < other.scalars.len()
            invariant
                i <= other.scalars.len(),
                theirs == other@,
                self@ == (Plugin {
                    scalars: merged_scalars(
                        old(self)@.scalars,
                        theirs.scalars.subrange(0, i as int),
                    ),
                    ..old(self)@
                }),
            decreases other.scalars.len() - i,
        {
            proof {
                let next = theirs.scalars.subrange(0, i + 1);
                assert(next.drop_last() =~= theirs.scalars.subrange(0, i as int));
                assert(next.last() == (
                    other.scalars@[i as int].0@,
                    other.scalars@[i as int].1@,
                ));
            }
            merge_scalar(&mut self.scalars, &other.scalars[i]);
            i += 1;
        }
        proof {
            assert(theirs.scalars.subrange(0, i as int) =~= theirs.scalars);
            assert(theirs.subtables.subrange(0, 0) =~= Seq::<
                (Seq<char>, Seq<(Seq<char>, Toml)>),
            >::empty());
        }
        let ghost scalars = merged_scalars(old(self)@.scalars, theirs.scalars);
        let PluginInstance { subtables, note, .. } = other;
        self.merge_tables(subtables);
        match note {
            Some(more) => {
                self.merge_note(more);
            }
            None => {}
        }
    }

    fn merge_tables(&mut self, more: Vec<(String, TomlTable)>)
        ensures
            final(self)@ == (Plugin {
                subtables: merged_tables(old(self)@.subtables, tables(more@)),
                ..old(self)@
            }),
        decreases more.len(),
    {
        let ghost all = tables(more@);
        let mut rest = more;
        match rest.pop() {
            None => {
                proof {
                    assert(all =~= Seq::<(Seq<char>, Seq<(Seq<char>, Toml)>)>::empty());
                }
            }
            Some((key, table)) => {
                proof {
                    assert(tables(rest@) =~= all.drop_last());
                    assert(all.last() == (key@, table@));
                }
                self.merge_tables(rest);
                if !find_table(&self.subtables, &key) {
                    let ghost before = tables(self.subtables@);
                    let ghost item = (key@, table@);
                    self.subtables.push((key, table));
                    proof {
                        assert(tables(self.subtables@) =~= before.push(item));
                    }
                }
            }
        }
    }

    fn merge_note(&mut self, more: String)
        ensures
            final(self)@ == (Plugin {
                note: merged_note(old(self)@.note, Some(more@)),
                ..old(self)@
            }),
    {
        let joined = match &self.note {
            Some(existing) => {
                if text::contains(existing, &more) {
                    None
                } else {
                    Some(text::cat3(existing, ", ", &more))
                }
            }
            None => Some(more),
        };
        if joined.is_some() {
            self.note = joined;
        }
    }
}

// ---------------------------------------------------------------------------
// What merging guarantees
// ---------------------------------------------------------------------------

/// A union holds what either side holds, and repeats nothing that the first side
/// did not repeat.
pub proof fn law_union_holds_both_without_repeats(a: Seq<Toml>, b: Seq<Toml>)
    ensures
        forall|v: Toml| #[trigger] union(a, b).contains(v) <==> (a.contains(v) || b.contains(v)),
        a.no_duplicates() ==> union(a, b).no_duplicates(),
    decreases b.len(),
{
    if b.len() > 0 {
        let rest = b.drop_last();
        law_union_holds_both_without_repeats(a, rest);
        let u = union(a, rest);
        let r = union(a, b);
        assert forall|v: Toml| #[trigger] r.contains(v) <==> (a.contains(v) || b.contains(v)) by {
            if r.contains(v) {
                let k = choose|k: int| 0 <= k < r.len() && r[k] == v;
                if k < u.len() {
                    assert(u[k] == v);
                    assert(u.contains(v));
                    if rest.contains(v) {
                        let m = choose|m: int| 0 <= m < rest.len() && rest[m] == v;
                        assert(b[m] == v);
                    }
                } else {
                    assert(b[b.len() - 1] == v);
                }
            }
            if a.contains(v) {
                assert(u.contains(v));
                let m = choose|m: int| 0 <= m < u.len() && u[m] == v;
                assert(r[m] == v);
            }
            if b.contains(v) {
                let m = choose|m: int| 0 <= m < b.len() && b[m] == v;
                if m < rest.len() {
                    assert(rest[m] == v);
                    assert(u.contains(v));
                    let k = choose|k: int| 0 <= k < u.len() && u[k] == v;
                    assert(r[k] == v);
                } else if u.contains(v) {
                    let k = choose|k: int| 0 <= k < u.len() && u[k] == v;
                    assert(r[k] == v);
                } else {
                    assert(r[u.len() as int] == v);
                }
            }
        }
    }
}

/// Which of two lists comes first does not change what their union holds.
pub proof fn law_union_content_is_independent_of_order(a: Seq<Toml>, b: Seq<Toml>)
    ensures
        forall|v: Toml| #[trigger] union(a, b).contains(v) <==> union(b, a).contains(v),
{
    law_union_holds_both_without_repeats(a, b);
    law_union_holds_both_without_repeats(b, a);
}

// ---------------------------------------------------------------------------
// The whole configuration
// ---------------------------------------------------------------------------

/// A complete Telegraf configuration, ready to render.
#[derive(Debug, Clone)]
pub struct TelegrafConfig {
    pub agent: Vec<(String, TomlValue)>,
    pub inputs: Vec<PluginInstance>,
    pub outputs: Vec<PluginInstance>,
}

/// What a [`TelegrafConfig`] holds.
pub struct Telegraf {
    pub agent: Seq<(Seq<char>, Toml)>,
    pub inputs: Seq<Plugin>,
    pub outputs: Seq<Plugin>,
}

/// The contents of a list of instances.
pub open spec fn plugins(list: Seq<PluginInstance>) -> Seq<Plugin> {
    list.map_values(|p: PluginInstance| p@)
}

/// The contents of a list of borrowed instances.
pub open spec fn borrowed_plugins(list: Seq<&PluginInstance>) -> Seq<Plugin> {
    list.map_values(|p: &PluginInstance| p@)
}

impl View for TelegrafConfig {
    type V = Telegraf;

    open spec fn view(&self) -> Telegraf {
        Telegraf {
            agent: entries(self.agent@),
            inputs: plugins(self.inputs@),
            outputs: plugins(self.outputs@),
        }
    }
}

/// The first instance from `i` on that `p` can be merged into.
pub open spec fn merge_target(list: Seq<Plugin>, p: Plugin, i: int) -> Option<int>
    decreases list.len() - i,
{
    if i < 0 || i >= list.len() || p.merge_key is None {
        None
    } else if list[i].plugin == p.plugin && list[i].merge_key == p.merge_key {
        Some(i)
    } else {
        merge_target(list, p, i + 1)
    }
}

/// `list` with one more instance: merged where it can be, else appended.
pub open spec fn with_plugin(list: Seq<Plugin>, p: Plugin) -> Seq<Plugin> {
    match merge_target(list, p, 0) {
        Some(i) => list.update(i, merged(list[i], p)),
        None => list.push(p),
    }
}

impl Telegraf {
    pub open spec fn with(self, p: Plugin) -> Telegraf {
        if p.section == Section::Output {
            Telegraf { outputs: with_plugin(self.outputs, p), ..self }
        } else {
            Telegraf { inputs: with_plugin(self.inputs, p), ..self }
        }
    }

    /// This configuration with every one of `list` added, in order.
    pub open spec fn with_all(self, list: Seq<Plugin>) -> Telegraf
        decreases list.len(),
    {
        if list.len() == 0 {
            self
        } else {
            self.with_all(list.drop_last()).with(list.last())
        }
    }
}

fn find_target(list: &Vec<PluginInstance>, p: &PluginInstance) -> (r: Option<usize>)
    ensures
        match r {
            Some(i) => i < list.len() && merge_target(plugins(list@), p@, 0) == Some(i as int),
            None => merge_target(plugins(list@), p@, 0) is None,
        },
{
    let key = match &p.merge_key {
        Some(k) => k,
        None => return None,
    };
    let ghost all = plugins(list@);
    let mut i: usize = 0;
    while i < list.len()
        invariant
            i <= list.len(),
            all == plugins(list@),
            p@.merge_key == Some(key@),
            merge_target(all, p@, 0) == merge_target(all, p@, i as int),
        decreases list.len() - i,
    {
        proof {
            assert(all[i as int] == list@[i as int]@);
        }
        if text::same(&list[i].plugin, &p.plugin) {
            match &list[i].merge_key {
                Some(k) => {
                    if text::same(k, key) {
                        return Some(i);
                    }
                }
                None => {}
            }
        }
        i += 1;
    }
    None
}

fn add_to(list: &mut Vec<PluginInstance>, p: PluginInstance)
    ensures
        plugins(final(list)@) == with_plugin(plugins(old(list)@), p@),
{
    let ghost before = plugins(list@);
    let ghost added = p@;
    match find_target(list, &p) {
        Some(i) => {
            let mut existing = list.remove(i);
            proof {
                assert(existing@ == before[i as int]);
            }
            existing.merge(p);
            let ghost now = existing@;
            list.insert(i, existing);
            proof {
                assert(plugins(list@) =~= before.update(i as int, now));
            }
        }
        None => {
            list.push(p);
            proof {
                assert(plugins(list@) =~= before.push(added));
            }
        }
    }
}

impl TelegrafConfig {
    /// No two instances could be merged.
    pub open spec fn wf(self) -> bool {
        singular(self@.inputs) && singular(self@.outputs)
    }

    pub fn new() -> (r: Self)
        ensures
            r.wf(),
            r@ == (Telegraf {
                agent: Seq::empty(),
                inputs: Seq::empty(),
                outputs: Seq::empty(),
            }),
    {
        let r = TelegrafConfig { agent: Vec::new(), inputs: Vec::new(), outputs: Vec::new() };
        proof {
            assert(r@.agent =~= Seq::<(Seq<char>, Toml)>::empty());
            assert(r@.inputs =~= Seq::<Plugin>::empty());
            assert(r@.outputs =~= Seq::<Plugin>::empty());
        }
        r
    }

    pub fn agent_option(self, key: &str, value: TomlValue) -> (r: Self)
        ensures
            r@ == (Telegraf { agent: self@.agent.push((key@, value@)), ..self@ }),
            self.wf() ==> r.wf(),
    {
        let mut c = self;
        push_entry(&mut c.agent, key, value);
        c
    }

    /// Adds an instance, merging it into an existing one when they share a
    /// `merge_key`.
    pub fn add(&mut self, instance: PluginInstance)
        ensures
            final(self)@ == old(self)@.with(instance@),
            old(self).wf() ==> final(self).wf(),
    {
        proof {
            if self.wf() {
                law_mergeable_instances_stay_single(self@.inputs, instance@);
                law_mergeable_instances_stay_single(self@.outputs, instance@);
            }
        }
        match instance.section {
            Section::Output => add_to(&mut self.outputs, instance),
            _ => add_to(&mut self.inputs, instance),
        }
    }

    /// Adds every one of `list`, in order.
    pub fn add_all(&mut self, list: Vec<PluginInstance>)
        ensures
            final(self)@ == old(self)@.with_all(plugins(list@)),
            old(self).wf() ==> final(self).wf(),
        decreases list.len(),
    {
        let ghost all = plugins(list@);
        let mut rest = list;
        match rest.pop() {
            None => {
                proof {
                    assert(all.len() == 0);
                }
            }
            Some(last) => {
                proof {
                    assert(plugins(rest@) =~= all.drop_last());
                    assert(all.last() == last@);
                }
                self.add_all(rest);
                self.add(last);
            }
        }
    }

    /// Input instances in render order: by rank, then plugin name.
    pub fn inputs(&self) -> (r: Vec<&PluginInstance>)
        ensures
            borrowed_plugins(r@) == in_order(self@.inputs),
    {
        ordered(&self.inputs)
    }

    /// Output instances in render order: by rank, then plugin name.
    pub fn outputs(&self) -> (r: Vec<&PluginInstance>)
        ensures
            borrowed_plugins(r@) == in_order(self@.outputs),
    {
        ordered(&self.outputs)
    }

    pub fn is_empty(&self) -> (r: bool)
        ensures
            r == (self@.inputs.len() == 0 && self@.outputs.len() == 0),
    {
        self.inputs.len() == 0 && self.outputs.len() == 0
    }
}

impl Default for TelegrafConfig {
    fn default() -> (r: Self)
        ensures
            r.wf(),
            r@ == (Telegraf {
                agent: Seq::empty(),
                inputs: Seq::empty(),
                outputs: Seq::empty(),
            }),
    {
        TelegrafConfig::new()
    }
}

/// Whether `a` is rendered before `b`: by rank, then by plugin name.
pub open spec fn comes_before(a: Plugin, b: Plugin) -> bool {
    a.rank < b.rank || (a.rank == b.rank && text::sorts_before(a.plugin, b.plugin))
}

/// `p` placed behind everything it does not come before.
pub open spec fn slotted(list: Seq<Plugin>, p: Plugin) -> Seq<Plugin>
    decreases list.len(),
{
    if list.len() == 0 || !comes_before(p, list.last()) {
        list.push(p)
    } else {
        slotted(list.drop_last(), p).push(list.last())
    }
}

/// The instances in render order; equal ones keep the order they were added in.
pub open spec fn in_order(list: Seq<Plugin>) -> Seq<Plugin>
    decreases list.len(),
{
    if list.len() == 0 {
        list
    } else {
        slotted(in_order(list.drop_last()), list.last())
    }
}

fn earlier(a: &PluginInstance, b: &PluginInstance) -> (r: bool)
    ensures
        r == comes_before(a@, b@),
{
    a.rank < b.rank || (a.rank == b.rank && text::is_before(&a.plugin, &b.plugin))
}

proof fn lemma_slotted_at(list: Seq<Plugin>, p: Plugin, at: int)
    requires
        0 <= at <= list.len(),
        forall|j: int| at <= j < list.len() ==> comes_before(p, #[trigger] list[j]),
        at > 0 ==> !comes_before(p, list[at - 1]),
    ensures
        slotted(list, p) == list.insert(at, p),
    decreases list.len(),
{
    if at == list.len() {
        assert(list.insert(at, p) =~= list.push(p));
    } else {
        let shorter = list.drop_last();
        assert forall|j: int| at <= j < shorter.len() implies comes_before(
            p,
            #[trigger] shorter[j],
        ) by {
            assert(shorter[j] == list[j]);
        }
        lemma_slotted_at(shorter, p, at);
        assert(list.insert(at, p) =~= shorter.insert(at, p).push(list.last()));
    }
}

fn ordered(instances: &Vec<PluginInstance>) -> (r: Vec<&PluginInstance>)
    ensures
        borrowed_plugins(r@) == in_order(plugins(instances@)),
{
    let ghost all = plugins(instances@);
    let mut out: Vec<&PluginInstance> = Vec::new();
    let mut i: usize = 0;
    proof {
        assert(borrowed_plugins(out@) =~= all.subrange(0, 0));
    }
    while i < instances.len()
        invariant
            i <= instances.len(),
            all == plugins(instances@),
            borrowed_plugins(out@) == in_order(all.subrange(0, i as int)),
        decreases instances.len() - i,
    {
        let p = &instances[i];
        let ghost sorted = borrowed_plugins(out@);
        let mut at: usize = out.len();
        while at > 0 && earlier(p, out[at - 1])
            invariant
                at <= out.len(),
                sorted == borrowed_plugins(out@),
                forall|j: int| at <= j < out.len() ==> comes_before(p@, #[trigger] sorted[j]),
            decreases at,
        {
            at -= 1;
        }
        proof {
            assert(all.subrange(0, i + 1).drop_last() =~= all.subrange(0, i as int));
            assert(all.subrange(0, i + 1).last() == p@);
            if at > 0 {
                assert(sorted[at - 1] == out@[at - 1]@);
            }
            lemma_slotted_at(sorted, p@, at as int);
        }
        out.insert(at, p);
        proof {
            assert(borrowed_plugins(out@) =~= sorted.insert(at as int, p@));
        }
        i += 1;
    }
    proof {
        assert(all.subrange(0, i as int) =~= all);
    }
    out
}

// ---------------------------------------------------------------------------
// What adding and ordering guarantee
// ---------------------------------------------------------------------------

/// The instances of one rank and plugin, in the order of the list.
pub open spec fn alike(list: Seq<Plugin>, rank: u16, plugin: Seq<char>) -> Seq<Plugin>
    decreases list.len(),
{
    if list.len() == 0 {
        list
    } else if list.last().rank == rank && list.last().plugin == plugin {
        alike(list.drop_last(), rank, plugin).push(list.last())
    } else {
        alike(list.drop_last(), rank, plugin)
    }
}

proof fn lemma_nothing_sorts_before_itself(s: Seq<char>)
    ensures
        !text::sorts_before(s, s),
    decreases s.len(),
{
    if s.len() > 0 {
        lemma_nothing_sorts_before_itself(s.skip(1));
    }
}

proof fn lemma_slotted_behind_its_like(
    list: Seq<Plugin>,
    p: Plugin,
    rank: u16,
    plugin: Seq<char>,
)
    ensures
        alike(slotted(list, p), rank, plugin) == alike(list.push(p), rank, plugin),
    decreases list.len(),
{
    assert(list.push(p).drop_last() =~= list);
    if list.len() > 0 && comes_before(p, list.last()) {
        let rest = list.drop_last();
        lemma_slotted_behind_its_like(rest, p, rank, plugin);
        lemma_nothing_sorts_before_itself(plugin);
        assert(rest.push(p).drop_last() =~= rest);
        let all = slotted(rest, p).push(list.last());
        assert(all.drop_last() =~= slotted(rest, p));
        assert(all.last() == list.last());
        assert(list.push(p).last() == p && rest.push(p).last() == p);
        assert(slotted(list, p) == all);
        let like = |q: Plugin| q.rank == rank && q.plugin == plugin;
        assert(!(like(p) && like(list.last())));
        assert(alike(rest.push(p), rank, plugin) == if like(p) {
            alike(rest, rank, plugin).push(p)
        } else {
            alike(rest, rank, plugin)
        });
        assert(alike(list, rank, plugin) == if like(list.last()) {
            alike(rest, rank, plugin).push(list.last())
        } else {
            alike(rest, rank, plugin)
        });
    }
}

/// Instances of one rank and plugin are rendered in the order they were added in.
pub proof fn law_equal_instances_keep_their_order(
    list: Seq<Plugin>,
    rank: u16,
    plugin: Seq<char>,
)
    ensures
        alike(in_order(list), rank, plugin) == alike(list, rank, plugin),
    decreases list.len(),
{
    if list.len() > 0 {
        let sorted = in_order(list.drop_last());
        law_equal_instances_keep_their_order(list.drop_last(), rank, plugin);
        lemma_slotted_behind_its_like(sorted, list.last(), rank, plugin);
        assert(sorted.push(list.last()).drop_last() =~= sorted);
    }
}

/// No two instances could be merged.
pub open spec fn singular(list: Seq<Plugin>) -> bool {
    forall|i: int, j: int|
        0 <= i < j < list.len() && (#[trigger] list[i]).merge_key is Some ==> !(list[i].plugin
            == (#[trigger] list[j]).plugin && list[i].merge_key == list[j].merge_key)
}

/// An instance without a merge key is never merged, and inputs and outputs are kept
/// apart.
pub proof fn law_unmergeable_instances_stay_separate(t: Telegraf, p: Plugin)
    ensures
        p.merge_key is None && p.section == Section::Output ==> t.with(p) == (Telegraf {
            outputs: t.outputs.push(p),
            ..t
        }),
        p.merge_key is None && p.section != Section::Output ==> t.with(p) == (Telegraf {
            inputs: t.inputs.push(p),
            ..t
        }),
        p.section == Section::Output ==> t.with(p).inputs == t.inputs,
        p.section != Section::Output ==> t.with(p).outputs == t.outputs,
{
}

pub proof fn lemma_merge_target(list: Seq<Plugin>, p: Plugin, i: int)
    requires
        0 <= i <= list.len(),
    ensures
        match merge_target(list, p, i) {
            Some(k) => i <= k < list.len() && list[k].plugin == p.plugin && list[k].merge_key
                == p.merge_key && p.merge_key is Some,
            None => p.merge_key is Some ==> forall|k: int|
                i <= k < list.len() ==> !((#[trigger] list[k]).plugin == p.plugin
                    && list[k].merge_key == p.merge_key),
        },
    decreases list.len() - i,
{
    if i < list.len() {
        lemma_merge_target(list, p, i + 1);
    }
}

/// Adding an instance never leaves two that share a plugin and a merge key: no
/// metric is collected twice.
pub proof fn law_mergeable_instances_stay_single(list: Seq<Plugin>, p: Plugin)
    requires
        singular(list),
    ensures
        singular(with_plugin(list, p)),
{
    lemma_merge_target(list, p, 0);
    let r = with_plugin(list, p);
    assert forall|i: int, j: int|
        0 <= i < j < r.len() && (#[trigger] r[i]).merge_key is Some implies !(r[i].plugin == (
    #[trigger] r[j]).plugin && r[i].merge_key == r[j].merge_key) by {
        match merge_target(list, p, 0) {
            Some(k) => {
                assert(r[i].plugin == list[i].plugin && r[i].merge_key == list[i].merge_key);
                assert(r[j].plugin == list[j].plugin && r[j].merge_key == list[j].merge_key);
            },
            None => {
                assert(r[i] == list[i]);
                if j < list.len() {
                    assert(r[j] == list[j]);
                } else {
                    assert(r[j] == p);
                    if r[i].merge_key == p.merge_key {
                        assert(!(list[i].plugin == p.plugin && list[i].merge_key == p.merge_key));
                    }
                }
            },
        }
    }
}

proof fn lemma_plugin_order(a: Plugin, b: Plugin, c: Plugin)
    ensures
        !comes_before(b, a) && !comes_before(c, b) ==> !comes_before(c, a),
        !(comes_before(a, b) && comes_before(b, a)),
{
    text::lemma_text_order(a.plugin, b.plugin, c.plugin);
}

proof fn lemma_slotted(list: Seq<Plugin>, p: Plugin)
    requires
        forall|i: int, j: int|
            0 <= i < j < list.len() ==> !comes_before(#[trigger] list[j], #[trigger] list[i]),
    ensures
        forall|i: int, j: int|
            0 <= i < j < slotted(list, p).len() ==> !comes_before(
                #[trigger] slotted(list, p)[j],
                #[trigger] slotted(list, p)[i],
            ),
        slotted(list, p).to_multiset() == list.to_multiset().insert(p),
        forall|i: int|
            0 <= i < slotted(list, p).len() ==> #[trigger] slotted(list, p)[i] == p
                || list.contains(slotted(list, p)[i]),
    decreases list.len(),
{
    broadcast use vstd::seq_lib::group_to_multiset_ensures;

    let r = slotted(list, p);
    if list.len() == 0 {
        assert(r =~= seq![p]);
    } else if !comes_before(p, list.last()) {
        assert forall|i: int, j: int| 0 <= i < j < r.len() implies !comes_before(
            #[trigger] r[j],
            #[trigger] r[i],
        ) by {
            if j == list.len() {
                if i < list.len() - 1 {
                    assert(!comes_before(list[list.len() - 1], list[i]));
                    lemma_plugin_order(list[i], list.last(), p);
                }
            }
        }
        assert forall|i: int| 0 <= i < r.len() implies #[trigger] r[i] == p || list.contains(
            r[i],
        ) by {
            if i < list.len() {
                assert(list[i] == r[i]);
            }
        }
    } else {
        let rest = list.drop_last();
        let q = slotted(rest, p);
        assert forall|i: int, j: int| 0 <= i < j < rest.len() implies !comes_before(
            #[trigger] rest[j],
            #[trigger] rest[i],
        ) by {
            assert(rest[i] == list[i] && rest[j] == list[j]);
        }
        lemma_slotted(rest, p);
        assert(r == q.push(list.last()));
        assert(list =~= rest.push(list.last()));
        assert(r.to_multiset() =~= list.to_multiset().insert(p));
        assert forall|i: int| 0 <= i < r.len() implies #[trigger] r[i] == p || list.contains(
            r[i],
        ) by {
            if i < q.len() {
                assert(r[i] == q[i]);
                if q[i] != p {
                    let k = choose|k: int| 0 <= k < rest.len() && rest[k] == q[i];
                    assert(list[k] == q[i]);
                }
            } else {
                assert(list[list.len() - 1] == r[i]);
            }
        }
        assert forall|i: int, j: int| 0 <= i < j < r.len() implies !comes_before(
            #[trigger] r[j],
            #[trigger] r[i],
        ) by {
            assert(r[i] == q[i]);
            if j == q.len() {
                if q[i] == p {
                    lemma_plugin_order(p, list.last(), p);
                } else {
                    let k = choose|k: int| 0 <= k < rest.len() && rest[k] == q[i];
                    assert(!comes_before(list[list.len() - 1], list[k]));
                }
            } else {
                assert(r[j] == q[j]);
            }
        }
    }
}

/// The render order is by rank and then by name, and holds exactly the instances
/// that were added.
pub proof fn law_instances_are_ordered_by_rank_then_name(list: Seq<Plugin>)
    ensures
        forall|i: int, j: int|
            0 <= i < j < in_order(list).len() ==> !comes_before(
                #[trigger] in_order(list)[j],
                #[trigger] in_order(list)[i],
            ),
        in_order(list).to_multiset() == list.to_multiset(),
    decreases list.len(),
{
    broadcast use vstd::seq_lib::group_to_multiset_ensures;

    if list.len() > 0 {
        law_instances_are_ordered_by_rank_then_name(list.drop_last());
        lemma_slotted(in_order(list.drop_last()), list.last());
        assert(list =~= list.drop_last().push(list.last()));
    }
}

} // verus!
