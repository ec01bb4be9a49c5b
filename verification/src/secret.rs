//! Secret values, and the types that stop them being printed.
//!
//! Every credential is read from a file and wrapped in [`Secret`]. What a
//! [`Secret`] shows of itself is `***`; the value is reachable only through
//! [`Secret::expose`]. [`Redactor`] removes known values from text that arrives
//! already formatted from somewhere else.

use std::borrow::Cow;
use vstd::prelude::*;
use vstd::string::*;
use vstd::utf8::encode_utf8;
use crate::error::{Fault, MuninnError};
use crate::text;

verus! {

/// What reading a file as text gave.
pub enum FileRead {
    Text(String),
    NotFound,
    PermissionDenied,
    /// Any other failure, as the system words it.
    Failed(String),
}

/// The message for a file that could not be read.
pub open spec fn read_problem(read: FileRead) -> Seq<char> {
    match read {
        FileRead::NotFound => "file does not exist"@,
        FileRead::PermissionDenied => "file is not readable"@,
        FileRead::Failed(m) => m@,
        FileRead::Text(_) => ""@,
    }
}

impl FileRead {
    /// The message for a file that could not be read.
    pub fn problem(&self) -> (r: String)
        ensures
            r@ == read_problem(*self),
    {
        match self {
            FileRead::NotFound => "file does not exist".to_owned(),
            FileRead::PermissionDenied => "file is not readable".to_owned(),
            FileRead::Failed(m) => m.clone(),
            FileRead::Text(_) => "".to_owned(),
        }
    }
}

/// A credential read from a file.
pub struct Secret(String);

impl View for Secret {
    type V = Seq<char>;

    closed spec fn view(&self) -> Seq<char> {
        self.0@
    }
}

impl Clone for Secret {
    fn clone(&self) -> (r: Self)
        ensures
            r@ == self@,
    {
        Secret(self.0.clone())
    }
}

impl PartialEq for Secret {
    fn eq(&self, other: &Self) -> (r: bool) {
        self.0 == other.0
    }
}

impl vstd::std_specs::cmp::PartialEqSpecImpl for Secret {
    open spec fn obeys_eq_spec() -> bool {
        true
    }

    open spec fn eq_spec(&self, other: &Self) -> bool {
        self@ == other@
    }
}

/// The credential a file holds: its text without the whitespace around it.
/// Missing, unreadable and empty are three distinct faults.
pub open spec fn secret_in(path: Seq<char>, read: FileRead) -> Result<Seq<char>, Fault> {
    match read {
        FileRead::Text(raw) => if text::trimmed(raw@).len() == 0 {
            Err(Fault::Secret { path, message: "file is empty"@ })
        } else {
            Ok(text::trimmed(raw@))
        },
        _ => Err(Fault::Secret { path, message: read_problem(read) }),
    }
}

impl Secret {
    /// The secret in the file at `path`, given what reading it gave.
    ///
    /// Surrounding whitespace is stripped: `echo "token" > file` appends a
    /// newline, and a token with one fails authentication in a way that looks
    /// like a wrong token. An empty file is a fault, never "no credential".
    pub fn from_file(path: &str, read: &FileRead) -> (r: Result<Self, MuninnError>)
        ensures
            match r {
                Ok(s) => secret_in(path@, *read) == Ok::<Seq<char>, Fault>(s@),
                Err(e) => secret_in(path@, *read) == Err::<Seq<char>, Fault>(e@),
            },
    {
        match read {
            FileRead::Text(raw) => {
                let trimmed = text::trim(raw);
                if trimmed.as_str().is_empty() {
                    return Err(
                        MuninnError::Secret {
                            path: path.to_owned(),
                            message: "file is empty".to_owned(),
                        },
                    );
                }
                Ok(Secret(trimmed))
            }
            _ => Err(MuninnError::Secret { path: path.to_owned(), message: read.problem() }),
        }
    }

    /// Wraps a value that never came from a file.
    pub fn from_value(value: &str) -> (r: Self)
        ensures
            r@ == value@,
    {
        Secret(value.to_owned())
    }

    /// The real value.
    pub fn expose(&self) -> (r: &str)
        ensures
            r@ == self@,
    {
        self.0.as_str()
    }

    /// What a secret shows of itself: the mask, whatever the value.
    pub fn display(&self) -> (r: String)
        ensures
            r@ == MASK@,
    {
        MASK.to_owned()
    }

    /// What a secret shows of itself in diagnostics: the mask, whatever the
    /// value.
    pub fn debug(&self) -> (r: String)
        ensures
            r@ == "Secret(***)"@,
    {
        "Secret(***)".to_owned()
    }
}

/// A file that holds nothing but whitespace holds no secret, and any other does:
/// its text without the whitespace around it.
pub proof fn law_only_a_blank_file_holds_no_secret(path: Seq<char>, raw: String)
    ensures
        secret_in(path, FileRead::Text(raw)) is Err <==> text::is_blank(raw@),
        secret_in(path, FileRead::Text(raw)) matches Ok(v) ==> v == text::trimmed(raw@) && v.len()
            > 0,
{
    text::lemma_trimmed_empty_iff_blank(raw@);
}

/// The mask that stands for a suppressed value.
pub const MASK: &'static str = "***";

/// The shortest credential that is accepted, and the shortest that can be
/// redacted, in bytes. A shorter one would match inside ordinary words.
pub const MIN_SECRET_LEN: usize = 8;

/// The length of a text in bytes.
pub open spec fn size(s: Seq<char>) -> nat {
    encode_utf8(s).len()
}

fn size_of_text(s: &str) -> (r: usize)
    ensures
        r == size(s@),
{
    s.as_bytes().len()
}

/// Removes known secret values from text.
///
/// It matches literal values: one that was reformatted on the way passes
/// through.
#[derive(Clone)]
pub struct Redactor {
    values: Vec<String>,
}

impl View for Redactor {
    type V = Seq<Seq<char>>;

    closed spec fn view(&self) -> Seq<Seq<char>> {
        text::texts(self.values@)
    }
}

/// `v` placed behind everything that is at least as long.
pub open spec fn placed(list: Seq<Seq<char>>, v: Seq<char>) -> Seq<Seq<char>>
    decreases list.len(),
{
    if list.len() == 0 || size(list.last()) >= size(v) {
        list.push(v)
    } else {
        placed(list.drop_last(), v).push(list.last())
    }
}

/// The values that are long enough to redact, longest first; values of one
/// length keep their order.
pub open spec fn longest_first(given: Seq<Seq<char>>) -> Seq<Seq<char>>
    decreases given.len(),
{
    if given.len() == 0 {
        Seq::empty()
    } else if size(given.last()) < MIN_SECRET_LEN {
        longest_first(given.drop_last())
    } else {
        placed(longest_first(given.drop_last()), given.last())
    }
}

/// `list` without the entries that equal an earlier one.
pub open spec fn without_repeats(list: Seq<Seq<char>>) -> Seq<Seq<char>>
    decreases list.len(),
{
    if list.len() == 0 {
        list
    } else if list.drop_last().contains(list.last()) {
        without_repeats(list.drop_last())
    } else {
        without_repeats(list.drop_last()).push(list.last())
    }
}

/// What a redactor made from `given` looks for.
pub open spec fn kept(given: Seq<Seq<char>>) -> Seq<Seq<char>> {
    without_repeats(longest_first(given))
}

/// `line` with every value replaced by the mask, one value after the other.
pub open spec fn redacted(values: Seq<Seq<char>>, line: Seq<char>) -> Seq<char>
    decreases values.len(),
{
    if values.len() == 0 {
        line
    } else {
        text::replaced(redacted(values.drop_last(), line), values.last(), MASK@)
    }
}

/// Whether one of the values occurs in a line.
pub open spec fn mentions(line: Seq<char>, values: Seq<Seq<char>>) -> bool {
    exists|i: int| 0 <= i < values.len() && text::occurs(line, #[trigger] values[i])
}

impl Redactor {
    /// Built from every secret that reached the generated configuration.
    pub fn new(secrets: Vec<String>) -> (r: Self)
        ensures
            r@ == kept(text::texts(secrets@)),
    {
        let mut sorted: Vec<String> = Vec::new();
        let mut i: usize = 0;
        let ghost given = text::texts(secrets@);
        proof {
            assert(given.subrange(0, 0) =~= Seq::empty());
            assert(text::texts(sorted@) =~= Seq::empty());
        }
        while i < secrets.len()
            invariant
                i <= secrets.len(),
                given == text::texts(secrets@),
                text::texts(sorted@) == longest_first(given.subrange(0, i as int)),
            decreases secrets.len() - i,
        {
            proof {
                assert(given.subrange(0, i + 1).drop_last() =~= given.subrange(0, i as int));
                assert(given.subrange(0, i + 1).last() == secrets@[i as int]@);
            }
            if size_of_text(&secrets[i]) >= MIN_SECRET_LEN {
                place(&mut sorted, secrets[i].clone());
            }
            i += 1;
        }
        proof {
            assert(given.subrange(0, i as int) =~= given);
        }
        let values = dedup(&sorted);
        Redactor { values }
    }

    /// A redactor without any values.
    pub fn empty() -> (r: Self)
        ensures
            r@ == Seq::<Seq<char>>::empty(),
    {
        let r = Redactor { values: Vec::new() };
        proof {
            assert(r@ =~= Seq::<Seq<char>>::empty());
        }
        r
    }

    /// The same redactor plus values that were not in the configuration.
    #[must_use]
    pub fn extended_with(self, more: Vec<String>) -> (r: Self)
        ensures
            r@ == kept(self@ + text::texts(more@)),
    {
        let mut all = self.values;
        text::note_all(&mut all, more);
        Redactor::new(all)
    }

    /// Whether this redactor would change nothing.
    pub fn is_empty(&self) -> (r: bool)
        ensures
            r == (self@.len() == 0),
    {
        self.values.len() == 0
    }

    /// `line` with every known secret replaced by [`MASK`]: the line itself, without
    /// a copy, where none occurs.
    pub fn apply<'a>(&self, line: &'a str) -> (r: Cow<'a, str>)
        ensures
            r@ == redacted(self@, line@),
            r is Borrowed == !mentions(line@, self@),
            r matches Cow::Borrowed(same) ==> same == line,
    {
        if !self.finds(line) {
            proof {
                assert forall|i: int| 0 <= i < self@.len() implies !text::occurs(
                    line@,
                    #[trigger] self@[i],
                ) by {}
                law_a_line_without_a_secret_is_untouched(self@, line@);
            }
            return Cow::Borrowed(line);
        }
        let mut out = line.to_owned();
        let mut i: usize = 0;
        proof {
            assert(self@.subrange(0, 0) =~= Seq::empty());
        }
        while i < self.values.len()
            invariant
                i <= self.values.len(),
                out@ == redacted(self@.subrange(0, i as int), line@),
            decreases self.values.len() - i,
        {
            proof {
                assert(self@.subrange(0, i + 1).drop_last() =~= self@.subrange(0, i as int));
                assert(self@.subrange(0, i + 1).last() == self.values@[i as int]@);
            }
            out = text::replace(&out, &self.values[i], MASK);
            i += 1;
        }
        proof {
            assert(self@.subrange(0, i as int) =~= self@);
        }
        Cow::Owned(out)
    }

    fn finds(&self, line: &str) -> (r: bool)
        ensures
            r == mentions(line@, self@),
    {
        let mut i: usize = 0;
        while i < self.values.len()
            invariant
                i <= self.values.len(),
                forall|j: int| 0 <= j < i ==> !text::occurs(line@, #[trigger] self@[j]),
            decreases self.values.len() - i,
        {
            proof {
                assert(self@[i as int] == self.values@[i as int]@);
            }
            if text::contains(line, &self.values[i]) {
                return true;
            }
            i += 1;
        }
        proof {
            assert(self@.len() == self.values@.len());
        }
        false
    }

    /// What a redactor shows of itself: how many values it holds, never which.
    pub fn debug(&self) -> (r: String)
        ensures
            r@ == "Redactor("@ + text::decimal(self@.len()) + " values)"@,
    {
        text::cat3("Redactor(", &text::decimal_of(self.values.len() as u128), " values)")
    }
}

impl Default for Redactor {
    fn default() -> (r: Self)
        ensures
            r@ == Seq::<Seq<char>>::empty(),
    {
        Redactor::empty()
    }
}

fn place(sorted: &mut Vec<String>, v: String)
    ensures
        text::texts(final(sorted)@) == placed(text::texts(old(sorted)@), v@),
{
    let ghost before = text::texts(sorted@);
    let mut at: usize = sorted.len();
    while at > 0 && size_of_text(&sorted[at - 1]) < size_of_text(&v)
        invariant
            at <= sorted.len(),
            before == text::texts(sorted@),
            forall|j: int| at <= j < sorted.len() ==> size(#[trigger] before[j]) < size(v@),
        decreases at,
    {
        at -= 1;
    }
    let ghost given = v@;
    sorted.insert(at, v);
    proof {
        assert(text::texts(sorted@) =~= before.insert(at as int, given));
        lemma_placed_at(before, given, at as int);
    }
}

proof fn lemma_placed_at(list: Seq<Seq<char>>, v: Seq<char>, at: int)
    requires
        0 <= at <= list.len(),
        forall|j: int| at <= j < list.len() ==> size(#[trigger] list[j]) < size(v),
        at > 0 ==> size(list[at - 1]) >= size(v),
    ensures
        placed(list, v) == list.insert(at, v),
    decreases list.len(),
{
    if at == list.len() {
        assert(list.insert(at, v) =~= list.push(v));
    } else {
        let shorter = list.drop_last();
        assert forall|j: int| at <= j < shorter.len() implies size(#[trigger] shorter[j]) < size(
            v,
        ) by {
            assert(shorter[j] == list[j]);
        }
        lemma_placed_at(shorter, v, at);
        assert(list.insert(at, v) =~= shorter.insert(at, v).push(list.last()));
    }
}

/// Whether one of the first `n` entries is `v`.
fn stands_before(list: &Vec<String>, n: usize, v: &str) -> (r: bool)
    requires
        n <= list.len(),
    ensures
        r == text::texts(list@).subrange(0, n as int).contains(v@),
{
    let ghost first = text::texts(list@).subrange(0, n as int);
    let mut i: usize = 0;
    while i < n
        invariant
            i <= n <= list.len(),
            first == text::texts(list@).subrange(0, n as int),
            forall|j: int| 0 <= j < i ==> #[trigger] first[j] != v@,
        decreases n - i,
    {
        proof {
            assert(first[i as int] == list@[i as int]@);
        }
        if text::same(&list[i], v) {
            return true;
        }
        i += 1;
    }
    false
}

fn dedup(list: &Vec<String>) -> (r: Vec<String>)
    ensures
        text::texts(r@) == without_repeats(text::texts(list@)),
{
    let ghost all = text::texts(list@);
    let mut out: Vec<String> = Vec::new();
    let mut i: usize = 0;
    proof {
        assert(text::texts(out@) =~= Seq::<Seq<char>>::empty());
    }
    while i < list.len()
        invariant
            i <= list.len(),
            all == text::texts(list@),
            text::texts(out@) == without_repeats(all.subrange(0, i as int)),
        decreases list.len() - i,
    {
        let ghost next = all.subrange(0, i + 1);
        proof {
            assert(next.drop_last() =~= all.subrange(0, i as int));
            assert(next.last() == list@[i as int]@);
        }
        if !stands_before(list, i, &list[i]) {
            text::note(&mut out, list[i].clone());
        }
        i += 1;
    }
    proof {
        assert(all.subrange(0, i as int) =~= all);
    }
    out
}

// ---------------------------------------------------------------------------
// What redaction guarantees
// ---------------------------------------------------------------------------

proof fn lemma_placed(list: Seq<Seq<char>>, v: Seq<char>)
    requires
        forall|i: int, j: int|
            0 <= i < j < list.len() ==> size(#[trigger] list[i]) >= size(#[trigger] list[j]),
    ensures
        forall|i: int, j: int|
            0 <= i < j < placed(list, v).len() ==> size(#[trigger] placed(list, v)[i]) >= size(
                #[trigger] placed(list, v)[j],
            ),
        forall|w: Seq<char>| #[trigger]
            placed(list, v).contains(w) <==> (list.contains(w) || w == v),
        placed(list, v).len() == list.len() + 1,
    decreases list.len(),
{
    let r = placed(list, v);
    if list.len() == 0 || size(list.last()) >= size(v) {
        assert(r == list.push(v));
        assert forall|w: Seq<char>| #[trigger] r.contains(w) <==> (list.contains(w) || w == v) by {
            if list.contains(w) {
                let k = choose|k: int| 0 <= k < list.len() && list[k] == w;
                assert(r[k] == w);
            }
            if w == v {
                assert(r[list.len() as int] == w);
            }
        }
    } else {
        let rest = list.drop_last();
        lemma_placed(rest, v);
        let p = placed(rest, v);
        assert(r == p.push(list.last()));
        assert forall|w: Seq<char>| #[trigger] r.contains(w) <==> (list.contains(w) || w == v) by {
            if r.contains(w) {
                let k = choose|k: int| 0 <= k < r.len() && r[k] == w;
                if k < p.len() {
                    assert(p[k] == w);
                    assert(p.contains(w));
                    if rest.contains(w) {
                        let m = choose|m: int| 0 <= m < rest.len() && rest[m] == w;
                        assert(list[m] == w);
                    }
                } else {
                    assert(list[list.len() - 1] == w);
                }
            }
            if list.contains(w) {
                let k = choose|k: int| 0 <= k < list.len() && list[k] == w;
                if k < rest.len() {
                    assert(rest[k] == w);
                    assert(rest.contains(w));
                    assert(p.contains(w));
                    let m = choose|m: int| 0 <= m < p.len() && p[m] == w;
                    assert(r[m] == w);
                } else {
                    assert(r[p.len() as int] == w);
                }
            }
            if w == v {
                assert(p.contains(w));
                let m = choose|m: int| 0 <= m < p.len() && p[m] == w;
                assert(r[m] == w);
            }
        }
        assert forall|i: int, j: int| 0 <= i < j < r.len() implies size(#[trigger] r[i]) >= size(
            #[trigger] r[j],
        ) by {
            if j == p.len() {
                assert(p.contains(p[i]));
                assert(r[i] == p[i]);
                if rest.contains(p[i]) {
                    let m = choose|m: int| 0 <= m < rest.len() && rest[m] == p[i];
                    assert(size(list[m]) >= size(list[list.len() - 1]));
                }
            } else {
                assert(r[i] == p[i] && r[j] == p[j]);
            }
        }
    }
}

proof fn lemma_longest_first(given: Seq<Seq<char>>)
    ensures
        forall|i: int, j: int|
            0 <= i < j < longest_first(given).len() ==> size(#[trigger] longest_first(given)[i])
                >= size(#[trigger] longest_first(given)[j]),
        forall|w: Seq<char>| #[trigger]
            longest_first(given).contains(w) <==> (given.contains(w) && size(w) >= MIN_SECRET_LEN),
    decreases given.len(),
{
    if given.len() > 0 {
        let rest = given.drop_last();
        lemma_longest_first(rest);
        lemma_placed(longest_first(rest), given.last());
        assert forall|w: Seq<char>| given.contains(w) <==> (rest.contains(w) || w
            == given.last()) by {
            if given.contains(w) {
                let k = choose|k: int| 0 <= k < given.len() && given[k] == w;
                if k < rest.len() {
                    assert(rest[k] == w);
                }
            }
            if rest.contains(w) {
                let k = choose|k: int| 0 <= k < rest.len() && rest[k] == w;
                assert(given[k] == w);
            }
            if w == given.last() {
                assert(given[given.len() - 1] == w);
            }
        }
    }
}

proof fn lemma_without_repeats(list: Seq<Seq<char>>)
    requires
        forall|i: int, j: int|
            0 <= i < j < list.len() ==> size(#[trigger] list[i]) >= size(#[trigger] list[j]),
    ensures
        forall|i: int, j: int|
            0 <= i < j < without_repeats(list).len() ==> size(#[trigger] without_repeats(list)[i])
                >= size(#[trigger] without_repeats(list)[j]),
        forall|w: Seq<char>| #[trigger] without_repeats(list).contains(w) <==> list.contains(w),
        without_repeats(list).no_duplicates(),
    decreases list.len(),
{
    let r = without_repeats(list);
    if list.len() > 0 {
        let rest = list.drop_last();
        lemma_without_repeats(rest);
        let p = without_repeats(rest);
        assert forall|w: Seq<char>| #[trigger] r.contains(w) <==> list.contains(w) by {
            if r.contains(w) {
                let k = choose|k: int| 0 <= k < r.len() && r[k] == w;
                if k < p.len() {
                    assert(p[k] == w);
                    assert(p.contains(w));
                    let m = choose|m: int| 0 <= m < rest.len() && rest[m] == w;
                    assert(list[m] == w);
                } else {
                    assert(list[list.len() - 1] == w);
                }
            }
            if list.contains(w) {
                let k = choose|k: int| 0 <= k < list.len() && list[k] == w;
                if k < rest.len() {
                    assert(rest[k] == w);
                } else if !rest.contains(w) {
                    assert(r[p.len() as int] == w);
                }
                if rest.contains(w) {
                    assert(p.contains(w));
                    let m = choose|m: int| 0 <= m < p.len() && p[m] == w;
                    assert(r[m] == w);
                }
            }
        }
        assert forall|i: int, j: int| 0 <= i < j < r.len() implies size(#[trigger] r[i]) >= size(
            #[trigger] r[j],
        ) by {
            assert(r[i] == p[i]);
            if j == p.len() {
                assert(p.contains(p[i]));
                let m = choose|m: int| 0 <= m < rest.len() && rest[m] == p[i];
                assert(size(list[m]) >= size(list[list.len() - 1]));
            } else {
                assert(r[j] == p[j]);
            }
        }
        assert forall|i: int, j: int| 0 <= i < r.len() && 0 <= j < r.len() && i != j implies r[i]
            != r[j] by {
            let (low, high) = if i < j {
                (i, j)
            } else {
                (j, i)
            };
            assert(r[low] == p[low]);
            assert(p.contains(p[low]));
            if high < p.len() {
                assert(r[high] == p[high]);
            }
        }
    }
}

/// A redactor looks for exactly the given values that are long enough, for each of
/// them once, and never for a shorter one before a longer one.
pub proof fn law_redactor_holds_the_long_values_longest_first(given: Seq<Seq<char>>)
    ensures
        forall|w: Seq<char>| #[trigger]
            kept(given).contains(w) <==> (given.contains(w) && size(w) >= MIN_SECRET_LEN),
        forall|i: int, j: int|
            0 <= i < j < kept(given).len() ==> size(#[trigger] kept(given)[i]) >= size(
                #[trigger] kept(given)[j],
            ),
        kept(given).no_duplicates(),
{
    lemma_longest_first(given);
    lemma_without_repeats(longest_first(given));
}

/// What is looked for once one more value is given: nothing else where the value is
/// too short or already looked for.
pub open spec fn kept_also(values: Seq<Seq<char>>, v: Seq<char>) -> Seq<Seq<char>> {
    if size(v) < MIN_SECRET_LEN || values.contains(v) {
        values
    } else {
        placed(values, v)
    }
}

proof fn lemma_without_repeats_of_placed(list: Seq<Seq<char>>, v: Seq<char>)
    requires
        forall|i: int, j: int|
            0 <= i < j < list.len() ==> size(#[trigger] list[i]) >= size(#[trigger] list[j]),
    ensures
        without_repeats(placed(list, v)) == (if list.contains(v) {
            without_repeats(list)
        } else {
            placed(without_repeats(list), v)
        }),
    decreases list.len(),
{
    lemma_without_repeats(list);
    let once = without_repeats(list);
    if list.len() == 0 || size(list.last()) >= size(v) {
        let all = list.push(v);
        assert(all.drop_last() =~= list);
        if once.len() > 0 {
            assert(once.contains(once.last()));
            let k = choose|k: int| 0 <= k < list.len() && list[k] == once.last();
            if k < list.len() - 1 {
                assert(size(list[k]) >= size(list[list.len() - 1]));
            }
        }
    } else {
        let rest = list.drop_last();
        let last = list.last();
        lemma_placed(rest, v);
        lemma_without_repeats_of_placed(rest, v);
        let all = placed(rest, v).push(last);
        assert(all.drop_last() =~= placed(rest, v));
        assert(placed(rest, v).contains(last) == rest.contains(last));
        assert(list.contains(v) == rest.contains(v)) by {
            if list.contains(v) {
                let k = choose|k: int| 0 <= k < list.len() && list[k] == v;
                assert(rest[k] == v);
            }
            if rest.contains(v) {
                let k = choose|k: int| 0 <= k < rest.len() && rest[k] == v;
                assert(list[k] == v);
            }
        }
        if !rest.contains(last) {
            let before = without_repeats(rest);
            assert(before.push(last).drop_last() =~= before);
        }
    }
}

proof fn lemma_kept_also(given: Seq<Seq<char>>, v: Seq<char>)
    ensures
        kept(given.push(v)) == kept_also(kept(given), v),
{
    assert(given.push(v).drop_last() =~= given);
    lemma_longest_first(given);
    lemma_without_repeats(longest_first(given));
    lemma_without_repeats_of_placed(longest_first(given), v);
    assert(kept(given).contains(v) == longest_first(given).contains(v));
}

proof fn lemma_kept_again(values: Seq<Seq<char>>)
    requires
        forall|i: int, j: int|
            0 <= i < j < values.len() ==> size(#[trigger] values[i]) >= size(#[trigger] values[j]),
        forall|i: int| 0 <= i < values.len() ==> size(#[trigger] values[i]) >= MIN_SECRET_LEN,
        values.no_duplicates(),
    ensures
        kept(values) == values,
    decreases values.len(),
{
    if values.len() > 0 {
        let rest = values.drop_last();
        lemma_kept_again(rest);
        lemma_kept_also(rest, values.last());
        assert(rest.push(values.last()) =~= values);
        assert(!rest.contains(values.last()));
        if rest.len() > 0 {
            assert(rest.last() == values[values.len() - 2]);
            assert(size(values[values.len() - 2]) >= size(values[values.len() - 1]));
        }
    } else {
        assert(kept(values) =~= values);
    }
}

/// A redactor that is extended looks for what one made from both lists looks for,
/// in the same order, and so returns the same of every line.
pub proof fn law_extending_is_building_from_both(a: Seq<Seq<char>>, b: Seq<Seq<char>>)
    ensures
        kept(kept(a) + b) == kept(a + b),
    decreases b.len(),
{
    if b.len() == 0 {
        assert(kept(a) + b =~= kept(a));
        assert(a + b =~= a);
        law_redactor_holds_the_long_values_longest_first(a);
        assert forall|i: int| 0 <= i < kept(a).len() implies size(#[trigger] kept(a)[i])
            >= MIN_SECRET_LEN by {
            assert(kept(a).contains(kept(a)[i]));
        }
        lemma_kept_again(kept(a));
    } else {
        let rest = b.drop_last();
        law_extending_is_building_from_both(a, rest);
        assert(kept(a) + b =~= (kept(a) + rest).push(b.last()));
        assert(a + b =~= (a + rest).push(b.last()));
        lemma_kept_also(kept(a) + rest, b.last());
        lemma_kept_also(a + rest, b.last());
    }
}

pub proof fn lemma_redacted_lacks(values: Seq<Seq<char>>, line: Seq<char>, v: Seq<char>)
    requires
        v.len() > 0,
        text::disjoint(v, MASK@),
        values.contains(v) || !text::occurs(line, v),
    ensures
        !text::occurs(redacted(values, line), v),
    decreases values.len(),
{
    reveal_strlit("***");
    if values.len() > 0 {
        let rest = values.drop_last();
        let last = values.last();
        if values.contains(v) && last != v {
            let k = choose|k: int| 0 <= k < values.len() && values[k] == v;
            assert(rest[k] == v);
            assert(rest.contains(v));
        }
        if last != v || rest.contains(v) || !text::occurs(line, v) {
            lemma_redacted_lacks(rest, line, v);
        }
        if last.len() > 0 {
            text::lemma_replaced_lacks(redacted(rest, line), last, MASK@, v);
        }
    }
}

/// Whatever the line, a value that was given to the redactor, is long enough and
/// shares no character with the mask does not occur in what it returns.
pub proof fn law_no_given_secret_survives(
    given: Seq<Seq<char>>,
    line: Seq<char>,
    v: Seq<char>,
)
    requires
        given.contains(v),
        size(v) >= MIN_SECRET_LEN,
        text::disjoint(v, MASK@),
    ensures
        !text::occurs(redacted(kept(given), line), v),
{
    law_redactor_holds_the_long_values_longest_first(given);
    if v.len() == 0 {
        assert(encode_utf8(v).len() == 0);
    }
    lemma_redacted_lacks(kept(given), line, v);
}

/// A line in which no known value occurs is returned as it is.
pub proof fn law_a_line_without_a_secret_is_untouched(values: Seq<Seq<char>>, line: Seq<char>)
    requires
        forall|i: int| 0 <= i < values.len() ==> !text::occurs(line, #[trigger] values[i]),
    ensures
        redacted(values, line) == line,
    decreases values.len(),
{
    if values.len() > 0 {
        let rest = values.drop_last();
        assert forall|i: int| 0 <= i < rest.len() implies !text::occurs(
            line,
            #[trigger] rest[i],
        ) by {
            assert(rest[i] == values[i]);
        }
        law_a_line_without_a_secret_is_untouched(rest, line);
        assert(values[values.len() - 1] == values.last());
        text::lemma_replaced_absent(line, values.last(), MASK@);
    }
}

// ---------------------------------------------------------------------------
// Checking a secret file
// ---------------------------------------------------------------------------

/// The message for a credential that is too short to redact.
pub open spec fn too_short(field: Seq<char>) -> Seq<char> {
    field
        + " holds a credential shorter than 8 bytes. muninn masks known secrets in Telegraf's output, and a value this short cannot be masked without matching ordinary words in every log line — so it would travel unprotected. Use a longer credential"@
}

/// Permission bits as four octal digits.
pub open spec fn octal(mode: u32) -> Seq<char> {
    let m = mode as int % 512;
    seq!['0', text::digit(m / 64), text::digit(m / 8 % 8), text::digit(m % 8)]
}

fn octal_of(mode: u32) -> (r: String)
    ensures
        r@ == octal(mode),
{
    let m: u32 = mode % 512;
    let mut out = String::new();
    out.push('0');
    out.push((48 + (m / 64) as u8) as char);
    out.push((48 + (m / 8 % 8) as u8) as char);
    out.push((48 + (m % 8) as u8) as char);
    proof {
        assert(out@ =~= octal(mode));
    }
    out
}

/// The warning for a secret file that anyone but its owner may read, write or
/// enter, given its permission bits where they are known.
pub open spec fn loose_mode(path: Seq<char>, field: Seq<char>, mode: Option<u32>) -> Option<
    Seq<char>,
> {
    match mode {
        Some(m) => if m % 64 != 0 {
            Some(
                field + " '"@ + path + "' is mode "@ + octal(m)
                    + " — readable beyond its owner. 0600 is expected; muninn's runtime carries a shell and a package manager, so anything that achieves execution in this container can read it"@,
            )
        } else {
            None
        },
        None => None,
    }
}

/// The warning for a secret file readable beyond its owner, if any. Not a
/// refusal: a read-only bind mount can carry permissions the operator does not
/// control. The path is named, never the contents.
pub fn permission_warning(path: &str, field: &str, mode: Option<u32>) -> (r: Option<String>)
    ensures
        text::optional(r) == loose_mode(path@, field@, mode),
{
    match mode {
        Some(m) => {
            if m % 64 != 0 {
                Some(
                    text::cat6(
                        field,
                        " '",
                        path,
                        "' is mode ",
                        &octal_of(m),
                        " — readable beyond its owner. 0600 is expected; muninn's runtime carries a shell and a package manager, so anything that achieves execution in this container can read it",
                    ),
                )
            } else {
                None
            }
        }
        None => None,
    }
}

/// Why a configured secret file is refused, if it is.
pub open spec fn file_fault(path: Seq<char>, field: Seq<char>, read: FileRead) -> Option<Fault> {
    match secret_in(path, read) {
        Ok(value) => if size(value) < MIN_SECRET_LEN {
            Some(Fault::Secret { path, message: too_short(field) })
        } else {
            None
        },
        Err(fault) => Some(fault),
    }
}

/// Checks a configured secret file.
///
/// Unreadable, missing or empty is an error naming the path. A credential
/// shorter than [`MIN_SECRET_LEN`] is an error: it could not be redacted. A file
/// readable beyond its owner is a warning.
pub fn validate_file(
    path: &str,
    field: &str,
    read: &FileRead,
    mode: Option<u32>,
    warnings: &mut Vec<String>,
) -> (r: Result<(), MuninnError>)
    ensures
        match r {
            Ok(_) => {
                &&& file_fault(path@, field@, *read) is None
                &&& text::texts(final(warnings)@) == match loose_mode(path@, field@, mode) {
                    Some(w) => text::texts(old(warnings)@).push(w),
                    None => text::texts(old(warnings)@),
                }
            },
            Err(e) => {
                &&& file_fault(path@, field@, *read) == Some(e@)
                &&& final(warnings)@ == old(warnings)@
            },
        },
{
    let secret = match Secret::from_file(path, read) {
        Ok(s) => s,
        Err(e) => return Err(e),
    };
    if size_of_text(secret.expose()) < MIN_SECRET_LEN {
        return Err(
            MuninnError::Secret {
                path: path.to_owned(),
                message: text::cat2(
                    field,
                    " holds a credential shorter than 8 bytes. muninn masks known secrets in Telegraf's output, and a value this short cannot be masked without matching ordinary words in every log line — so it would travel unprotected. Use a longer credential",
                ),
            },
        );
    }
    match permission_warning(path, field, mode) {
        Some(w) => text::note(warnings, w),
        None => {}
    }
    Ok(())
}

/// Whatever two files hold, if both are refused for their contents the refusals
/// read the same: nothing of the value reaches the message.
pub proof fn law_a_refusal_shows_nothing_of_the_value(
    path: Seq<char>,
    field: Seq<char>,
    a: FileRead,
    b: FileRead,
)
    requires
        a is Text,
        b is Text,
        file_fault(path, field, a) is Some,
        file_fault(path, field, b) is Some,
        secret_in(path, a) is Ok == secret_in(path, b) is Ok,
    ensures
        file_fault(path, field, a) == file_fault(path, field, b),
{
}

} // verus!
